//! The switches that decide which fields are extracted.

use vstd::prelude::*;

verus! {

/// How the result is written.
#[derive(Clone, Copy, Debug)]
pub struct OutputConfig {
    pub pretty_json: bool,
    pub include_nulls: bool,
    pub ndjson: bool,
}

impl Default for OutputConfig {
    fn default() -> (r: Self)
        ensures
            r == (OutputConfig { pretty_json: true, include_nulls: false, ndjson: false }),
    {
        OutputConfig { pretty_json: true, include_nulls: false, ndjson: false }
    }
}

/// One switch for each field that can be extracted.
#[derive(Clone, Copy, Debug)]
pub struct ScrapeConfig {
    pub page_title: bool,
    pub canonical_url: bool,
    pub meta_tags: bool,
    pub post_id: bool,
    pub categories: bool,
    pub wp_tags: bool,
    pub entry_title: bool,
    pub entry_datetime: bool,
    pub author: bool,
    pub comments_count: bool,
    pub release_number: bool,
    pub game_title_line: bool,
    pub genres_tags: bool,
    pub companies: bool,
    pub languages: bool,
    pub original_size: bool,
    pub repack_size: bool,
    pub spoiler_sections: bool,
    pub download_section_presence: bool,
    pub torrent_file: bool,
    pub torrent_file_name: bool,
    pub torrent_file_link: bool,
    pub magnet: bool,
}

impl ScrapeConfig {
    /// Every switch has the value `on`.
    pub open spec fn all(on: bool) -> ScrapeConfig {
        ScrapeConfig {
            page_title: on,
            canonical_url: on,
            meta_tags: on,
            post_id: on,
            categories: on,
            wp_tags: on,
            entry_title: on,
            entry_datetime: on,
            author: on,
            comments_count: on,
            release_number: on,
            game_title_line: on,
            genres_tags: on,
            companies: on,
            languages: on,
            original_size: on,
            repack_size: on,
            spoiler_sections: on,
            download_section_presence: on,
            torrent_file: on,
            torrent_file_name: on,
            torrent_file_link: on,
            magnet: on,
        }
    }

    /// One of the page switches is on.
    pub open spec fn any_page(self) -> bool {
        self.page_title || self.canonical_url || self.meta_tags
    }

    /// One of the post switches is on.
    pub open spec fn any_post(self) -> bool {
        self.post_id || self.categories || self.wp_tags || self.entry_title || self.entry_datetime
            || self.author || self.comments_count
    }

    /// One of the release switches is on.
    pub open spec fn any_release(self) -> bool {
        self.release_number || self.game_title_line || self.genres_tags || self.companies
            || self.languages || self.original_size || self.repack_size
    }

    /// One of the switches for torrent and magnet links is on.
    pub open spec fn any_torrent(self) -> bool {
        self.torrent_file || self.torrent_file_name || self.torrent_file_link || self.magnet
    }
}

impl Default for ScrapeConfig {
    fn default() -> (r: Self)
        ensures
            r == ScrapeConfig::all(true),
    {
        ScrapeConfig {
            page_title: true,
            canonical_url: true,
            meta_tags: true,
            post_id: true,
            categories: true,
            wp_tags: true,
            entry_title: true,
            entry_datetime: true,
            author: true,
            comments_count: true,
            release_number: true,
            game_title_line: true,
            genres_tags: true,
            companies: true,
            languages: true,
            original_size: true,
            repack_size: true,
            spoiler_sections: true,
            download_section_presence: true,
            torrent_file: true,
            torrent_file_name: true,
            torrent_file_link: true,
            magnet: true,
        }
    }
}

/// The switches of the link statistics.
#[derive(Clone, Copy, Debug)]
pub struct LinkConfig {
    pub domain_counts: bool,
    pub ignore_magnet: bool,
}

impl Default for LinkConfig {
    fn default() -> (r: Self)
        ensures
            r == (LinkConfig { domain_counts: true, ignore_magnet: true }),
    {
        LinkConfig { domain_counts: true, ignore_magnet: true }
    }
}

/// What is known of the site's layout.
#[derive(Clone, Debug)]
pub struct ProfileConfig {
    pub wordpress_release_layout: bool,
    pub spoiler_denylist: Vec<String>,
}

/// The spoiler titles that are left out unless the configuration says otherwise.
pub open spec fn default_denylist() -> Seq<Seq<char>> {
    seq!["click to show direct links"@, "direct links"@, "magnet"@, "torrent"@]
}

impl Default for ProfileConfig {
    fn default() -> (r: Self)
        ensures
            r.wordpress_release_layout,
            r.spoiler_denylist.deep_view() == default_denylist(),
    {
        let mut denylist: Vec<String> = Vec::new();
        denylist.push("click to show direct links".to_owned());
        denylist.push("direct links".to_owned());
        denylist.push("magnet".to_owned());
        denylist.push("torrent".to_owned());
        ProfileConfig { wordpress_release_layout: true, spoiler_denylist: denylist }
    }
}

/// All the switches.
#[derive(Clone, Debug)]
pub struct Config {
    pub output: OutputConfig,
    pub scrape: ScrapeConfig,
    pub links: LinkConfig,
    pub profile: ProfileConfig,
}

impl Default for Config {
    fn default() -> (r: Self)
        ensures
            r.output == (OutputConfig { pretty_json: true, include_nulls: false, ndjson: false }),
            r.scrape == ScrapeConfig::all(true),
            r.links == (LinkConfig { domain_counts: true, ignore_magnet: true }),
            r.profile.wordpress_release_layout,
            r.profile.spoiler_denylist.deep_view() == default_denylist(),
    {
        Config {
            output: OutputConfig::default(),
            scrape: ScrapeConfig::default(),
            links: LinkConfig::default(),
            profile: ProfileConfig::default(),
        }
    }
}

/// The switches that control a field of the record, one name for each.
pub enum Toggle {
    PageTitle,
    CanonicalUrl,
    MetaTags,
    PostId,
    Categories,
    WpTags,
    EntryTitle,
    EntryDatetime,
    Author,
    CommentsCount,
    ReleaseNumber,
    GameTitleLine,
    GenresTags,
    Companies,
    Languages,
    OriginalSize,
    RepackSize,
    SpoilerSections,
    DownloadSectionPresence,
    TorrentFile,
    TorrentFileName,
    TorrentFileLink,
    Magnet,
    DomainCounts,
}

impl ScrapeConfig {
    /// These switches with the one named `t` off.
    pub open spec fn without(self, t: Toggle) -> ScrapeConfig {
        ScrapeConfig {
            page_title: self.page_title && !(t is PageTitle),
            canonical_url: self.canonical_url && !(t is CanonicalUrl),
            meta_tags: self.meta_tags && !(t is MetaTags),
            post_id: self.post_id && !(t is PostId),
            categories: self.categories && !(t is Categories),
            wp_tags: self.wp_tags && !(t is WpTags),
            entry_title: self.entry_title && !(t is EntryTitle),
            entry_datetime: self.entry_datetime && !(t is EntryDatetime),
            author: self.author && !(t is Author),
            comments_count: self.comments_count && !(t is CommentsCount),
            release_number: self.release_number && !(t is ReleaseNumber),
            game_title_line: self.game_title_line && !(t is GameTitleLine),
            genres_tags: self.genres_tags && !(t is GenresTags),
            companies: self.companies && !(t is Companies),
            languages: self.languages && !(t is Languages),
            original_size: self.original_size && !(t is OriginalSize),
            repack_size: self.repack_size && !(t is RepackSize),
            spoiler_sections: self.spoiler_sections && !(t is SpoilerSections),
            download_section_presence: self.download_section_presence
                && !(t is DownloadSectionPresence),
            torrent_file: self.torrent_file && !(t is TorrentFile),
            torrent_file_name: self.torrent_file_name && !(t is TorrentFileName),
            torrent_file_link: self.torrent_file_link && !(t is TorrentFileLink),
            magnet: self.magnet && !(t is Magnet),
        }
    }
}

impl Config {
    /// The switch named `t` is on.
    pub open spec fn is_on(self, t: Toggle) -> bool {
        match t {
            Toggle::PageTitle => self.scrape.page_title,
            Toggle::CanonicalUrl => self.scrape.canonical_url,
            Toggle::MetaTags => self.scrape.meta_tags,
            Toggle::PostId => self.scrape.post_id,
            Toggle::Categories => self.scrape.categories,
            Toggle::WpTags => self.scrape.wp_tags,
            Toggle::EntryTitle => self.scrape.entry_title,
            Toggle::EntryDatetime => self.scrape.entry_datetime,
            Toggle::Author => self.scrape.author,
            Toggle::CommentsCount => self.scrape.comments_count,
            Toggle::ReleaseNumber => self.scrape.release_number,
            Toggle::GameTitleLine => self.scrape.game_title_line,
            Toggle::GenresTags => self.scrape.genres_tags,
            Toggle::Companies => self.scrape.companies,
            Toggle::Languages => self.scrape.languages,
            Toggle::OriginalSize => self.scrape.original_size,
            Toggle::RepackSize => self.scrape.repack_size,
            Toggle::SpoilerSections => self.scrape.spoiler_sections,
            Toggle::DownloadSectionPresence => self.scrape.download_section_presence,
            Toggle::TorrentFile => self.scrape.torrent_file,
            Toggle::TorrentFileName => self.scrape.torrent_file_name,
            Toggle::TorrentFileLink => self.scrape.torrent_file_link,
            Toggle::Magnet => self.scrape.magnet,
            Toggle::DomainCounts => self.links.domain_counts,
        }
    }

    /// This configuration with the switch named `t` off.
    pub open spec fn without(self, t: Toggle) -> Config {
        Config {
            scrape: self.scrape.without(t),
            links: LinkConfig {
                domain_counts: self.links.domain_counts && !(t is DomainCounts),
                ..self.links
            },
            ..self
        }
    }
}

} // verus!

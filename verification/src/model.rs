//! The records that extraction produces, each with the value it stands for.

use crate::config::Toggle;
use crate::textmap::{text_values, TextMap};
use vstd::prelude::*;

verus! {

/// Where a document came from.
#[derive(Clone, Debug)]
pub struct SourceInfo {
    pub path: String,
    pub bytes: u64,
    pub sha256: String,
}

/// What a [`SourceInfo`] stands for.
pub struct SourceInfoView {
    pub path: Seq<char>,
    pub bytes: u64,
    pub sha256: Seq<char>,
}

impl DeepView for SourceInfo {
    type V = SourceInfoView;

    open spec fn deep_view(&self) -> SourceInfoView {
        SourceInfoView { path: self.path@, bytes: self.bytes, sha256: self.sha256@ }
    }
}

/// What the head of a page says.
#[derive(Clone, Debug)]
pub struct PageMeta {
    pub title: Option<String>,
    pub canonical_url: Option<String>,
    /// From the key of each `meta` element to its content; the first
    /// element with a key counts.
    pub meta: TextMap<String>,
}

/// What a [`PageMeta`] stands for.
pub struct PageMetaView {
    pub title: Option<Seq<char>>,
    pub canonical_url: Option<Seq<char>>,
    pub meta: Map<Seq<char>, Seq<char>>,
}

impl DeepView for PageMeta {
    type V = PageMetaView;

    open spec fn deep_view(&self) -> PageMetaView {
        PageMetaView {
            title: self.title.deep_view(),
            canonical_url: self.canonical_url.deep_view(),
            meta: text_values(self.meta@),
        }
    }
}

/// What the post's own markup says.
#[derive(Clone, Debug)]
pub struct PostMeta {
    pub post_id: Option<u64>,
    pub categories: Vec<String>,
    pub wp_tags: Vec<String>,
    pub entry_title: Option<String>,
    pub entry_datetime: Option<String>,
    pub author: Option<String>,
    pub comments_count: Option<u64>,
}

/// What a [`PostMeta`] stands for.
pub struct PostMetaView {
    pub post_id: Option<u64>,
    pub categories: Seq<Seq<char>>,
    pub wp_tags: Seq<Seq<char>>,
    pub entry_title: Option<Seq<char>>,
    pub entry_datetime: Option<Seq<char>>,
    pub author: Option<Seq<char>>,
    pub comments_count: Option<u64>,
}

impl DeepView for PostMeta {
    type V = PostMetaView;

    open spec fn deep_view(&self) -> PostMetaView {
        PostMetaView {
            post_id: self.post_id,
            categories: self.categories.deep_view(),
            wp_tags: self.wp_tags.deep_view(),
            entry_title: self.entry_title.deep_view(),
            entry_datetime: self.entry_datetime.deep_view(),
            author: self.author.deep_view(),
            comments_count: self.comments_count,
        }
    }
}

/// What the post says of the release.
#[derive(Clone, Debug)]
pub struct ReleaseMeta {
    pub release_number: Option<u64>,
    pub game_title_line: Option<String>,
    pub genres_tags: Vec<String>,
    pub companies: Vec<String>,
    pub languages_raw: Option<String>,
    pub original_size_raw: Option<String>,
    pub repack_size_raw: Option<String>,
}

/// What a [`ReleaseMeta`] stands for.
pub struct ReleaseMetaView {
    pub release_number: Option<u64>,
    pub game_title_line: Option<Seq<char>>,
    pub genres_tags: Seq<Seq<char>>,
    pub companies: Seq<Seq<char>>,
    pub languages_raw: Option<Seq<char>>,
    pub original_size_raw: Option<Seq<char>>,
    pub repack_size_raw: Option<Seq<char>>,
}

impl DeepView for ReleaseMeta {
    type V = ReleaseMetaView;

    open spec fn deep_view(&self) -> ReleaseMetaView {
        ReleaseMetaView {
            release_number: self.release_number,
            game_title_line: self.game_title_line.deep_view(),
            genres_tags: self.genres_tags.deep_view(),
            companies: self.companies.deep_view(),
            languages_raw: self.languages_raw.deep_view(),
            original_size_raw: self.original_size_raw.deep_view(),
            repack_size_raw: self.repack_size_raw.deep_view(),
        }
    }
}

/// A collapsible block: its title and what it holds.
#[derive(Clone, Debug)]
pub struct SpoilerSection {
    pub title: String,
    pub text: String,
}

/// What a [`SpoilerSection`] stands for.
pub struct SpoilerSectionView {
    pub title: Seq<char>,
    pub text: Seq<char>,
}

impl DeepView for SpoilerSection {
    type V = SpoilerSectionView;

    open spec fn deep_view(&self) -> SpoilerSectionView {
        SpoilerSectionView { title: self.title@, text: self.text@ }
    }
}

/// All that was extracted from one document.
#[derive(Clone, Debug)]
pub struct ParsedDocument {
    pub source: SourceInfo,
    pub site: String,
    pub page: Option<PageMeta>,
    pub post: Option<PostMeta>,
    pub release: Option<ReleaseMeta>,
    pub spoiler_sections: Vec<SpoilerSection>,
    /// From each host, in lower case, to the number of links to it.
    pub link_domain_counts: TextMap<u64>,
    pub download_section_headings: Vec<String>,
    pub torrent_file: Option<bool>,
    pub torrent_file_names: Vec<String>,
    pub torrent_file_links: Vec<String>,
    pub magnet_links: Vec<String>,
}

/// What a [`ParsedDocument`] stands for.
pub struct ParsedDocumentView {
    pub source: SourceInfoView,
    pub site: Seq<char>,
    pub page: Option<PageMetaView>,
    pub post: Option<PostMetaView>,
    pub release: Option<ReleaseMetaView>,
    pub spoiler_sections: Seq<SpoilerSectionView>,
    pub link_domain_counts: Map<Seq<char>, u64>,
    pub download_section_headings: Seq<Seq<char>>,
    pub torrent_file: Option<bool>,
    pub torrent_file_names: Seq<Seq<char>>,
    pub torrent_file_links: Seq<Seq<char>>,
    pub magnet_links: Seq<Seq<char>>,
}

impl DeepView for ParsedDocument {
    type V = ParsedDocumentView;

    open spec fn deep_view(&self) -> ParsedDocumentView {
        ParsedDocumentView {
            source: self.source.deep_view(),
            site: self.site@,
            page: self.page.deep_view(),
            post: self.post.deep_view(),
            release: self.release.deep_view(),
            spoiler_sections: self.spoiler_sections.deep_view(),
            link_domain_counts: self.link_domain_counts@,
            download_section_headings: self.download_section_headings.deep_view(),
            torrent_file: self.torrent_file,
            torrent_file_names: self.torrent_file_names.deep_view(),
            torrent_file_links: self.torrent_file_links.deep_view(),
            magnet_links: self.magnet_links.deep_view(),
        }
    }
}

impl ParsedDocument {
    /// The maps of the record are well formed.
    pub open spec fn wf(&self) -> bool {
        &&& self.link_domain_counts.wf()
        &&& self.page is Some ==> self.page->0.meta.wf()
    }
}

/// A file that could not be parsed, and why.
#[derive(Clone, Debug)]
pub struct ParseError {
    pub path: String,
    pub error: String,
}

/// What a [`ParseError`] stands for.
pub struct ParseErrorView {
    pub path: Seq<char>,
    pub error: Seq<char>,
}

impl DeepView for ParseError {
    type V = ParseErrorView;

    open spec fn deep_view(&self) -> ParseErrorView {
        ParseErrorView { path: self.path@, error: self.error@ }
    }
}

/// The program that produced a result.
#[derive(Clone, Debug)]
pub struct ToolInfo {
    pub name: String,
    pub version: String,
}

/// What a [`ToolInfo`] stands for.
pub struct ToolInfoView {
    pub name: Seq<char>,
    pub version: Seq<char>,
}

impl DeepView for ToolInfo {
    type V = ToolInfoView;

    open spec fn deep_view(&self) -> ToolInfoView {
        ToolInfoView { name: self.name@, version: self.version@ }
    }
}

/// How many inputs there were, and how many of them parsed.
#[derive(Clone, Copy, Debug)]
pub struct Stats {
    pub input_count: usize,
    pub parsed_ok: usize,
    pub parsed_err: usize,
}

/// The result of one run: the documents and the errors, each in the order of
/// the inputs.
#[derive(Clone, Debug)]
pub struct OutputBundle {
    pub tool: ToolInfo,
    pub stats: Stats,
    pub documents: Vec<ParsedDocument>,
    pub errors: Vec<ParseError>,
}

/// What a [`OutputBundle`] stands for.
pub struct OutputBundleView {
    pub tool: ToolInfoView,
    pub stats: Stats,
    pub documents: Seq<ParsedDocumentView>,
    pub errors: Seq<ParseErrorView>,
}

impl DeepView for OutputBundle {
    type V = OutputBundleView;

    open spec fn deep_view(&self) -> OutputBundleView {
        OutputBundleView {
            tool: self.tool.deep_view(),
            stats: self.stats,
            documents: self.documents.deep_view(),
            errors: self.errors.deep_view(),
        }
    }
}

impl OutputBundle {
    /// The maps of every document are well formed.
    pub open spec fn wf(&self) -> bool {
        forall|i: int| 0 <= i < self.documents.len() ==> (#[trigger] self.documents[i]).wf()
    }
}

/// What one field of a record holds.
pub enum FieldValue {
    Text(Option<Seq<char>>),
    Number(Option<u64>),
    Flag(Option<bool>),
    List(Seq<Seq<char>>),
    Sections(Seq<SpoilerSectionView>),
    Texts(Map<Seq<char>, Seq<char>>),
    Counts(Map<Seq<char>, u64>),
}

impl FieldValue {
    /// The field holds nothing.
    pub open spec fn is_absent(self) -> bool {
        match self {
            FieldValue::Text(v) => v is None,
            FieldValue::Number(v) => v is None,
            FieldValue::Flag(v) => v is None,
            FieldValue::List(v) => v.len() == 0,
            FieldValue::Sections(v) => v.len() == 0,
            FieldValue::Texts(v) => v == Map::<Seq<char>, Seq<char>>::empty(),
            FieldValue::Counts(v) => v == Map::<Seq<char>, u64>::empty(),
        }
    }
}

impl PageMetaView {
    /// The page block without a value in any field.
    pub open spec fn blank() -> PageMetaView {
        PageMetaView { title: None, canonical_url: None, meta: Map::empty() }
    }
}

impl PostMetaView {
    /// The post block without a value in any field.
    pub open spec fn blank() -> PostMetaView {
        PostMetaView {
            post_id: None,
            categories: Seq::empty(),
            wp_tags: Seq::empty(),
            entry_title: None,
            entry_datetime: None,
            author: None,
            comments_count: None,
        }
    }
}

impl ReleaseMetaView {
    /// The release block without a value in any field.
    pub open spec fn blank() -> ReleaseMetaView {
        ReleaseMetaView {
            release_number: None,
            game_title_line: None,
            genres_tags: Seq::empty(),
            companies: Seq::empty(),
            languages_raw: None,
            original_size_raw: None,
            repack_size_raw: None,
        }
    }
}

impl ParsedDocumentView {
    /// The page block, blank where the record has none.
    pub open spec fn page_or_blank(self) -> PageMetaView {
        match self.page {
            Some(p) => p,
            None => PageMetaView::blank(),
        }
    }

    /// The post block, blank where the record has none.
    pub open spec fn post_or_blank(self) -> PostMetaView {
        match self.post {
            Some(p) => p,
            None => PostMetaView::blank(),
        }
    }

    /// The release block, blank where the record has none.
    pub open spec fn release_or_blank(self) -> ReleaseMetaView {
        match self.release {
            Some(r) => r,
            None => ReleaseMetaView::blank(),
        }
    }

    /// What the field that the switch `t` controls holds in this record.
    pub open spec fn field(self, t: Toggle) -> FieldValue {
        match t {
            Toggle::PageTitle => FieldValue::Text(self.page_or_blank().title),
            Toggle::CanonicalUrl => FieldValue::Text(self.page_or_blank().canonical_url),
            Toggle::MetaTags => FieldValue::Texts(self.page_or_blank().meta),
            Toggle::PostId => FieldValue::Number(self.post_or_blank().post_id),
            Toggle::Categories => FieldValue::List(self.post_or_blank().categories),
            Toggle::WpTags => FieldValue::List(self.post_or_blank().wp_tags),
            Toggle::EntryTitle => FieldValue::Text(self.post_or_blank().entry_title),
            Toggle::EntryDatetime => FieldValue::Text(self.post_or_blank().entry_datetime),
            Toggle::Author => FieldValue::Text(self.post_or_blank().author),
            Toggle::CommentsCount => FieldValue::Number(self.post_or_blank().comments_count),
            Toggle::ReleaseNumber => FieldValue::Number(self.release_or_blank().release_number),
            Toggle::GameTitleLine => FieldValue::Text(self.release_or_blank().game_title_line),
            Toggle::GenresTags => FieldValue::List(self.release_or_blank().genres_tags),
            Toggle::Companies => FieldValue::List(self.release_or_blank().companies),
            Toggle::Languages => FieldValue::Text(self.release_or_blank().languages_raw),
            Toggle::OriginalSize => FieldValue::Text(self.release_or_blank().original_size_raw),
            Toggle::RepackSize => FieldValue::Text(self.release_or_blank().repack_size_raw),
            Toggle::SpoilerSections => FieldValue::Sections(self.spoiler_sections),
            Toggle::DownloadSectionPresence => FieldValue::List(self.download_section_headings),
            Toggle::TorrentFile => FieldValue::Flag(self.torrent_file),
            Toggle::TorrentFileName => FieldValue::List(self.torrent_file_names),
            Toggle::TorrentFileLink => FieldValue::List(self.torrent_file_links),
            Toggle::Magnet => FieldValue::List(self.magnet_links),
            Toggle::DomainCounts => FieldValue::Counts(self.link_domain_counts),
        }
    }
}

} // verus!

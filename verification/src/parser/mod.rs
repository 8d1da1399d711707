//! The run over many inputs: each is decoded, classified and extracted on
//! its own, and ends as a document or as an error.

pub mod page;
pub mod post;
pub mod release;
pub mod release_page;
pub mod util;

use crate::config::Config;
use crate::digest::{hex_text, sha256_digest, sha256_hex};
use crate::input::{text_of_bytes, utf8_error_text, InputFile, InputFileView};
use crate::model::{
    OutputBundle, OutputBundleView, ParseError, ParseErrorView, ParsedDocument, ParsedDocumentView,
    SourceInfoView, Stats, ToolInfo, ToolInfoView,
};
use crate::parser::release_page::{
    generic_record, parse_generic, parse_wordpress_release, wordpress_release_record,
};
use crate::text::{chars_of, contains, contains_literal};
use vstd::prelude::*;
use vstd::string::StringExecFns;
use vstd::utf8::{decode_utf8, encode_utf8_decode_utf8, valid_utf8};

verus! {

/// The document `html` shows the layout of a release post: it holds the
/// start of an article's `id` and the name of the content container.
/// Never so where the configuration does not look for the layout.
pub open spec fn is_release_layout(html: Seq<char>, enabled: bool) -> bool {
    enabled && contains(html, "article id=\"post-"@) && contains(html, "entry-content"@)
}

/// Whether the document `html` shows the layout of a release post.
pub fn is_wordpress_release(html: &str, enabled: bool) -> (r: bool)
    ensures
        r == is_release_layout(html@, enabled),
{
    if !enabled {
        return false;
    }
    let chars = chars_of(html);
    contains_literal(&chars, "article id=\"post-") && contains_literal(&chars, "entry-content")
}

/// Why a file gave no document.
#[derive(Debug)]
pub enum ParseFailure {
    /// The file could not be read; the reader's message.
    InputUnreadable(String),
    /// The bytes of the file are no text; the decoder's message.
    InputNotText(String),
}

/// What a [`ParseFailure`] stands for.
pub enum ParseFailureView {
    InputUnreadable(Seq<char>),
    InputNotText(Seq<char>),
}

impl DeepView for ParseFailure {
    type V = ParseFailureView;

    open spec fn deep_view(&self) -> ParseFailureView {
        match self {
            ParseFailure::InputUnreadable(m) => ParseFailureView::InputUnreadable(m@),
            ParseFailure::InputNotText(m) => ParseFailureView::InputNotText(m@),
        }
    }
}

impl ParseFailureView {
    /// The failure in words, for the file at `path`.
    pub open spec fn message(self, path: Seq<char>) -> Seq<char> {
        match self {
            ParseFailureView::InputUnreadable(m) => "read "@ + path + ": "@ + m,
            ParseFailureView::InputNotText(m) => "input is not valid UTF-8: "@ + m,
        }
    }
}

impl ParseFailure {
    /// The failure in words, for the file at `path`.
    pub fn message(&self, path: &str) -> (r: String)
        ensures
            r@ == self.deep_view().message(path@),
    {
        match self {
            ParseFailure::InputUnreadable(m) => {
                let mut out = "read ".to_owned();
                out.append(path);
                out.append(": ");
                out.append(m.as_str());
                out
            },
            ParseFailure::InputNotText(m) => {
                let mut out = "input is not valid UTF-8: ".to_owned();
                out.append(m.as_str());
                out
            },
        }
    }
}

/// What the file `file` ends as: its record, with its source filled in, or
/// the reason why it has none.
pub open spec fn outcome(file: InputFileView, cfg: Config) -> Result<
    ParsedDocumentView,
    ParseFailureView,
> {
    match file.content {
        Err(message) => Err(ParseFailureView::InputUnreadable(message)),
        Ok(bytes) => if valid_utf8(bytes) {
            let html = decode_utf8(bytes);
            let source = SourceInfoView {
                path: file.path,
                bytes: bytes.len() as u64,
                sha256: hex_text(sha256_digest(bytes)),
            };
            if is_release_layout(html, cfg.profile.wordpress_release_layout) {
                Ok(ParsedDocumentView { source, ..wordpress_release_record(html, cfg) })
            } else {
                Ok(ParsedDocumentView { source, ..generic_record(html, cfg) })
            }
        } else {
            Err(ParseFailureView::InputNotText(utf8_error_text(bytes)))
        },
    }
}

/// What a result of [`parse_one`] stands for.
pub open spec fn outcome_view(r: Result<ParsedDocument, ParseFailure>) -> Result<
    ParsedDocumentView,
    ParseFailureView,
> {
    match r {
        Ok(doc) => Ok(doc.deep_view()),
        Err(failure) => Err(failure.deep_view()),
    }
}

/// Decodes, classifies and extracts one file.
pub fn parse_one(file: InputFile, cfg: &Config) -> (r: Result<ParsedDocument, ParseFailure>)
    ensures
        outcome_view(r) == outcome(file.deep_view(), *cfg),
        r is Ok ==> r->Ok_0.wf(),
{
    let InputFile { path, content } = file;
    let bytes = match content {
        Ok(bytes) => bytes,
        Err(message) => {
            return Err(ParseFailure::InputUnreadable(message));
        },
    };
    let bytes_len = bytes.len() as u64;
    let sha256 = sha256_hex(bytes.as_slice());
    let html = match text_of_bytes(bytes) {
        Ok(html) => html,
        Err(message) => {
            return Err(ParseFailure::InputNotText(message));
        },
    };
    proof {
        encode_utf8_decode_utf8(html@);
    }
    let mut doc = if is_wordpress_release(html.as_str(), cfg.profile.wordpress_release_layout) {
        parse_wordpress_release(html.as_str(), cfg)
    } else {
        parse_generic(html.as_str(), cfg)
    };
    doc.source.path = path;
    doc.source.bytes = bytes_len;
    doc.source.sha256 = sha256;
    Ok(doc)
}

/// The documents of the files of `files` that parse, in the order of `files`.
pub open spec fn documents_of(files: Seq<InputFileView>, cfg: Config) -> Seq<ParsedDocumentView>
    decreases files.len(),
{
    if files.len() == 0 {
        Seq::empty()
    } else {
        let before = documents_of(files.drop_last(), cfg);
        match outcome(files.last(), cfg) {
            Ok(doc) => before.push(doc),
            Err(_) => before,
        }
    }
}

/// The errors of the files of `files` that do not parse, in the order of `files`.
pub open spec fn errors_of(files: Seq<InputFileView>, cfg: Config) -> Seq<ParseErrorView>
    decreases files.len(),
{
    if files.len() == 0 {
        Seq::empty()
    } else {
        let before = errors_of(files.drop_last(), cfg);
        match outcome(files.last(), cfg) {
            Ok(_) => before,
            Err(failure) => before.push(
                ParseErrorView {
                    path: files.last().path,
                    error: failure.message(files.last().path),
                },
            ),
        }
    }
}

/// The name under which results are produced.
pub const TOOL_NAME: &'static str = "game-scraper";

/// The version under which results are produced.
pub const TOOL_VERSION: &'static str = "0.1.0";

/// The name and version under which results are produced.
pub open spec fn tool_info() -> ToolInfoView {
    ToolInfoView { name: TOOL_NAME@, version: TOOL_VERSION@ }
}

/// Every file ends as a document or as an error, never as both.
pub proof fn lemma_every_file_counted(files: Seq<InputFileView>, cfg: Config)
    ensures
        documents_of(files, cfg).len() + errors_of(files, cfg).len() == files.len(),
    decreases files.len(),
{
    if files.len() > 0 {
        lemma_every_file_counted(files.drop_last(), cfg);
    }
}

/// What a run gives for files one after another is what it gives for the
/// first of them, followed by what it gives for the rest: no file's result
/// depends on another file.
pub proof fn lemma_files_independent(
    first: Seq<InputFileView>,
    rest: Seq<InputFileView>,
    cfg: Config,
)
    ensures
        documents_of(first + rest, cfg) == documents_of(first, cfg) + documents_of(rest, cfg),
        errors_of(first + rest, cfg) == errors_of(first, cfg) + errors_of(rest, cfg),
    decreases rest.len(),
{
    if rest.len() > 0 {
        lemma_files_independent(first, rest.drop_last(), cfg);
        assert((first + rest).drop_last() =~= first + rest.drop_last());
    }
}

/// The state of a run: the documents and the errors gathered so far. Each
/// file moves it once, to one more document or to one more error.
pub struct BatchRunner {
    documents: Vec<ParsedDocument>,
    errors: Vec<ParseError>,
    recorded: usize,
}

impl BatchRunner {
    /// The documents gathered so far, in the order in which they came.
    pub closed spec fn documents(&self) -> Seq<ParsedDocumentView> {
        self.documents.deep_view()
    }

    /// The errors gathered so far, in the order in which they came.
    pub closed spec fn errors(&self) -> Seq<ParseErrorView> {
        self.errors.deep_view()
    }

    /// The files are counted rightly, and the maps of every document
    /// gathered so far are well formed.
    pub closed spec fn wf(&self) -> bool {
        &&& self.recorded == self.documents.len() + self.errors.len()
        &&& forall|i: int| 0 <= i < self.documents.len() ==> (#[trigger] self.documents[i]).wf()
    }

    /// The number of files recorded so far.
    pub open spec fn count(&self) -> nat {
        self.documents().len() + self.errors().len()
    }

    /// A run in which no file has been recorded yet.
    pub fn new() -> (r: Self)
        ensures
            r.wf(),
            r.documents() == Seq::<ParsedDocumentView>::empty(),
            r.errors() == Seq::<ParseErrorView>::empty(),
    {
        let r = BatchRunner { documents: Vec::new(), errors: Vec::new(), recorded: 0 };
        r
    }

    /// The number of files recorded so far.
    pub fn recorded(&self) -> (r: usize)
        requires
            self.wf(),
        ensures
            r == self.count(),
    {
        self.recorded
    }

    /// Records what the file at `path` ended as: its document, or the error
    /// with the failure in words.
    pub fn record(&mut self, path: String, result: Result<ParsedDocument, ParseFailure>)
        requires
            old(self).wf(),
            old(self).count() < usize::MAX,
            result is Ok ==> result->Ok_0.wf(),
        ensures
            final(self).wf(),
            match outcome_view(result) {
                Ok(doc) => {
                    &&& final(self).documents() == old(self).documents().push(doc)
                    &&& final(self).errors() == old(self).errors()
                },
                Err(failure) => {
                    &&& final(self).documents() == old(self).documents()
                    &&& final(self).errors() == old(self).errors().push(
                        ParseErrorView { path: path@, error: failure.message(path@) },
                    )
                },
            },
    {
        self.recorded = self.recorded + 1;
        match result {
            Ok(doc) => {
                self.documents.push(doc);
            },
            Err(failure) => {
                let error = failure.message(path.as_str());
                let e = ParseError { path, error };
                self.errors.push(e);
            },
        }
    }

    /// Ends the run: the documents and the errors, with their counts.
    pub fn finish(self) -> (r: OutputBundle)
        requires
            self.wf(),
        ensures
            r.wf(),
            r.deep_view() == (OutputBundleView {
                tool: tool_info(),
                stats: Stats {
                    input_count: self.count() as usize,
                    parsed_ok: self.documents().len() as usize,
                    parsed_err: self.errors().len() as usize,
                },
                documents: self.documents(),
                errors: self.errors(),
            }),
            r.stats.parsed_ok + r.stats.parsed_err == r.stats.input_count,
    {
        OutputBundle {
            tool: ToolInfo { name: TOOL_NAME.to_owned(), version: TOOL_VERSION.to_owned() },
            stats: Stats {
                input_count: self.recorded,
                parsed_ok: self.documents.len(),
                parsed_err: self.errors.len(),
            },
            documents: self.documents,
            errors: self.errors,
        }
    }
}

/// Parses each of `files` on its own and gathers the documents and the
/// errors, each in the order of `files`, with their counts.
pub fn parse_many(files: Vec<InputFile>, cfg: &Config) -> (r: OutputBundle)
    ensures
        r.wf(),
        r.deep_view() == (OutputBundleView {
            tool: tool_info(),
            stats: Stats {
                input_count: files.len(),
                parsed_ok: documents_of(files.deep_view(), *cfg).len() as usize,
                parsed_err: errors_of(files.deep_view(), *cfg).len() as usize,
            },
            documents: documents_of(files.deep_view(), *cfg),
            errors: errors_of(files.deep_view(), *cfg),
        }),
        r.stats.parsed_ok + r.stats.parsed_err == r.stats.input_count,
{
    let ghost all = files.deep_view();
    let input_count = files.len();
    let mut runner = BatchRunner::new();
    for file in it: files
        invariant
            all == files.deep_view(),
            all.len() == input_count,
            runner.wf(),
            runner.documents() == documents_of(all.take(it.index() as int), *cfg),
            runner.errors() == errors_of(all.take(it.index() as int), *cfg),
    {
        let ghost n = it.index() as int;
        proof {
            assert(all.take(n + 1).drop_last() == all.take(n));
            lemma_every_file_counted(all.take(n), *cfg);
        }
        let path = file.path.clone();
        let result = parse_one(file, cfg);
        runner.record(path, result);
    }
    proof {
        assert(all.take(all.len() as int) == all);
        lemma_every_file_counted(all, *cfg);
    }
    runner.finish()
}

} // verus!

//! Inputs as they reach the library: a path, and the bytes that were read
//! there or the reason why none were.

use crate::text::{
    ascii_lower, ascii_lowercase, chars_of, contains, occurs_at, to_ascii_lowercase,
};
use vstd::prelude::*;
use vstd::utf8::{encode_utf8, valid_utf8};

verus! {

/// One input file: where it lies, and what reading it gave. `Err` holds the
/// reader's message.
#[derive(Debug)]
pub struct InputFile {
    pub path: String,
    pub content: Result<Vec<u8>, String>,
}

/// What an [`InputFile`] stands for.
pub struct InputFileView {
    pub path: Seq<char>,
    pub content: Result<Seq<u8>, Seq<char>>,
}

impl DeepView for InputFile {
    type V = InputFileView;

    open spec fn deep_view(&self) -> InputFileView {
        InputFileView {
            path: self.path@,
            content: match self.content {
                Ok(bytes) => Ok(bytes@),
                Err(message) => Err(message@),
            },
        }
    }
}

/// What the decoder says of bytes that are no UTF-8.
pub uninterp spec fn utf8_error_text(bytes: Seq<u8>) -> Seq<char>;

/// `String::from_utf8`: the text that `bytes` encode, if they are UTF-8;
/// else the message of the error, which depends on `bytes` alone.
#[verifier::external_body]
pub(crate) fn text_of_bytes(bytes: Vec<u8>) -> (r: Result<String, String>)
    ensures
        match r {
            Ok(text) => valid_utf8(bytes@) && encode_utf8(text@) == bytes@,
            Err(message) => !valid_utf8(bytes@) && message@ == utf8_error_text(bytes@),
        },
{
    String::from_utf8(bytes).map_err(|e| e.to_string())
}

/// What holds of every extension that a path can have: `ext` holds no dot,
/// and stands in `path` right behind a dot.
pub open spec fn extension_in(path: Seq<char>, ext: Seq<char>) -> bool {
    !ext.contains('.') && contains(path, seq!['.'] + ext)
}

/// `std::path::Path::extension`: the extension of the file that `path`
/// names, where it is Unicode. It is the part of the file's name behind the
/// last dot of that name, and the file's name is a part of `path`. Which
/// part of `path` is the file's name is the platform's matter, so no more
/// is said of the result.
#[verifier::external_body]
fn extension_of(path: &str) -> (r: Option<String>)
    ensures
        r is Some ==> extension_in(path@, r->0@),
{
    std::path::Path::new(path).extension().and_then(|e| e.to_str()).map(String::from)
}

/// `ext` is the extension of an HTML file, letter case aside.
pub open spec fn html_extension(ext: Seq<char>) -> bool {
    ascii_lowercase(ext) == "html"@ || ascii_lowercase(ext) == "htm"@
}

/// Whether `a` and `b` hold the same characters.
fn same_chars(a: &Vec<char>, b: &Vec<char>) -> (r: bool)
    ensures
        r == (a@ == b@),
{
    if a.len() != b.len() {
        return false;
    }
    let mut i: usize = 0;
    while i < a.len()
        invariant
            i <= a.len(),
            a.len() == b.len(),
            a@.take(i as int) == b@.take(i as int),
        decreases a.len() - i,
    {
        if a[i] != b[i] {
            return false;
        }
        i += 1;
    }
    assert(a@.take(i as int) == a@);
    assert(b@.take(i as int) == b@);
    true
}

/// Whether `ext` is the extension of an HTML file, letter case aside.
pub fn is_html_extension(ext: &str) -> (r: bool)
    ensures
        r == html_extension(ext@),
{
    let chars = chars_of(ext);
    let lower = to_ascii_lowercase(&chars);
    let html = chars_of("html");
    let htm = chars_of("htm");
    same_chars(&lower, &html) || same_chars(&lower, &htm)
}

/// A text that holds an extension of an HTML file behind a dot holds
/// `.htm`, letter case aside.
pub proof fn lemma_html_extension_in(path: Seq<char>, ext: Seq<char>)
    requires
        extension_in(path, ext),
        html_extension(ext),
    ensures
        contains(ascii_lowercase(path), ".htm"@),
{
    reveal_strlit(".htm");
    reveal_strlit("htm");
    reveal_strlit("html");
    let dotted = seq!['.'] + ext;
    let i = choose|i: int| occurs_at(path, dotted, i);
    let lower = ascii_lowercase(path);
    assert(ascii_lowercase(ext).len() == ext.len());
    assert(lower.subrange(i, i + 4) =~= ".htm"@) by {
        assert forall|k: int| 0 <= k < 4 implies lower.subrange(i, i + 4)[k] == ".htm"@[k] by {
            assert(path.subrange(i, i + dotted.len())[k] == dotted[k]);
            if k > 0 {
                assert(ascii_lowercase(ext)[k - 1] == ascii_lower(ext[k - 1]));
            }
        }
    }
    assert(occurs_at(lower, ".htm"@, i));
}

/// Whether `path` names an HTML file by its extension. Which part of
/// `path` is the extension is the platform's matter; wherever the answer is
/// yes, an extension of an HTML file stands in `path` behind a dot, so that
/// `path` holds `.htm`, letter case aside.
pub fn is_html(path: &str) -> (r: bool)
    ensures
        r ==> exists|ext: Seq<char>| extension_in(path@, ext) && html_extension(ext),
        r ==> contains(ascii_lowercase(path@), ".htm"@),
{
    match extension_of(path) {
        Some(ext) => {
            let r = is_html_extension(ext.as_str());
            proof {
                if r {
                    assert(extension_in(path@, ext@) && html_extension(ext@));
                    lemma_html_extension_in(path@, ext@);
                }
            }
            r
        },
        None => false,
    }
}

} // verus!

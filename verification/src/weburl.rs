//! URLs, as far as a registry needs them: the canonical text and the host.

use vstd::prelude::*;

verus! {

/// A URL that was parsed: its canonical text and its host.
#[derive(Debug, Clone, PartialEq, Eq)]
pub struct Url {
    pub serialization: String,
    pub host: Option<String>,
}

/// What a [`Url`] stands for.
pub struct UrlView {
    pub serialization: Seq<char>,
    pub host: Option<Seq<char>>,
}

impl View for Url {
    type V = UrlView;

    open spec fn view(&self) -> UrlView {
        UrlView {
            serialization: self.serialization@,
            host: match self.host {
                Some(h) => Some(h@),
                None => None,
            },
        }
    }
}

/// The view of a URL that may be missing.
pub open spec fn url_option_view(u: Option<Url>) -> Option<UrlView> {
    match u {
        Some(u) => Some(u@),
        None => None,
    }
}

/// What the URL parser makes of a text: the canonical text and the host of
/// the URL, or nothing where it refuses the text.
pub uninterp spec fn url_parse(input: Seq<char>) -> Option<UrlView>;

/// Whether `c` is a letter of the ASCII alphabet.
pub open spec fn is_ascii_letter(c: char) -> bool {
    'a' <= c <= 'z' || 'A' <= c <= 'Z'
}

/// Whether the URL parser refuses `input` for its first character alone: the
/// text is empty, or starts with a visible character that is no letter.
pub open spec fn no_scheme_start(input: Seq<char>) -> bool {
    input.len() == 0 || (input[0] > ' ' && !is_ascii_letter(input[0]))
}

/// Reads `input` as an absolute URL.
pub open spec fn url_spec(input: Seq<char>) -> Option<UrlView> {
    if no_scheme_start(input) {
        None
    } else {
        match url_parse(input) {
            Some(u) if u.serialization.len() > 0 && 'a' <= u.serialization[0] <= 'z' => Some(u),
            _ => None,
        }
    }
}

/// Calls `url::Url::parse` and keeps `as_str()` and `host_str()` of the
/// result. The contract gives the result a name, and states two things that
/// the parser's scheme state shows. A text is refused if, once characters up
/// to U+0020 are cut off its ends, it does not start with an ASCII letter; so
/// a text that starts with another character above U+0020 is refused. And
/// the canonical text starts with the scheme, which is written in lower case.
#[verifier::external_body]
fn outside_parse(input: &str) -> (r: Option<Url>)
    ensures
        url_option_view(r) == url_parse(input@),
        no_scheme_start(input@) ==> r is None,
        r matches Some(u) ==> u.serialization@.len() > 0 && 'a' <= u.serialization@[0] <= 'z',
{
    match url::Url::parse(input) {
        Ok(u) => Some(
            Url { serialization: u.as_str().to_owned(), host: u.host_str().map(str::to_owned) },
        ),
        Err(_) => None,
    }
}

impl Url {
    /// Reads an absolute URL. `None` if `input` is none.
    pub fn parse(input: &str) -> (r: Option<Url>)
        ensures
            url_option_view(r) == url_spec(input@),
    {
        outside_parse(input)
    }

    /// The canonical text of the URL.
    pub fn as_str(&self) -> (r: &str)
        ensures
            r@ == self@.serialization,
    {
        self.serialization.as_str()
    }
}

} // verus!

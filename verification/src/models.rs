//! References to packages.
//!
//! A reference is written `[registry/]namespace/repository:tag`. The registry
//! is a URL or a socket address, the namespace is a path of one or more
//! segments, and the tag is a semantic version or, failing that, a keyword.

use crate::net::{ip_text, socket_spec, socket_text, SocketAddr, SocketAddrView};
use crate::semver::{semver_spec, semver_text, SemVer};
use crate::text::{
    chars_of, find_char, find_scheme_mark, first_index, first_scheme_mark, has_char, last_index,
    opt_text, rfind_char, substring, trim, trim_bounds,
};
use crate::weburl::{url_spec, Url, UrlView};
use vstd::prelude::*;
use vstd::string::StrSliceExecFns;
use vstd::string::StringExecFns;

verus! {

/// Why a text is no reference.
#[derive(Debug, Clone, Copy, PartialEq, Eq)]
pub enum Error {
    /// The text does not have the form of a reference.
    InvalidFormat,
    /// The last segment, which holds repository and tag, is absent.
    MissingRepoOrTag,
    /// Nothing is left to serve as the namespace.
    MissingNamespace,
}

impl Error {
    /// The error in words.
    pub fn to_string(&self) -> (r: String)
        ensures
            r@ == match *self {
                Error::InvalidFormat => "Invalid format: the identifier format is invalid"@,
                Error::MissingRepoOrTag =>
                    "Missing repository or tag: repository and tag are required"@,
                Error::MissingNamespace => "Missing namespace: namespace is required"@,
            },
    {
        match self {
            Error::InvalidFormat => String::from_str(
                "Invalid format: the identifier format is invalid",
            ),
            Error::MissingRepoOrTag => String::from_str(
                "Missing repository or tag: repository and tag are required",
            ),
            Error::MissingNamespace => String::from_str("Missing namespace: namespace is required"),
        }
    }
}

/// A tag: a semantic version, or any other word.
#[derive(Debug, Clone, PartialEq)]
pub enum Tag {
    Keyword(String),
    Version(SemVer),
}

/// What a [`Tag`] stands for.
pub enum TagView {
    Keyword(Seq<char>),
    Version(SemVer),
}

impl View for Tag {
    type V = TagView;

    open spec fn view(&self) -> TagView {
        match *self {
            Tag::Keyword(k) => TagView::Keyword(k@),
            Tag::Version(v) => TagView::Version(v),
        }
    }
}

/// Reads a tag: a semantic version where the text is one, else a keyword.
pub open spec fn tag_spec(s: Seq<char>) -> TagView {
    match semver_spec(s) {
        Some(v) => TagView::Version(v),
        None => TagView::Keyword(s),
    }
}

/// A tag in text: a keyword as it is, a version in its canonical form.
pub open spec fn tag_text(t: TagView) -> Seq<char> {
    match t {
        TagView::Keyword(k) => k,
        TagView::Version(v) => semver_text(v),
    }
}

impl Tag {
    /// Reads a tag. A text that is a semantic version gives that version;
    /// any other text that is not empty gives a keyword.
    pub fn from_str(s: &str) -> (r: Result<Tag, Error>)
        ensures
            s@.len() == 0 ==> r == Err::<Tag, Error>(Error::InvalidFormat),
            s@.len() > 0 ==> (r matches Ok(t) && t@ == tag_spec(s@)),
    {
        if s.unicode_len() == 0 {
            return Err(Error::InvalidFormat);
        }
        match SemVer::from_str(s) {
            Some(v) => Ok(Tag::Version(v)),
            None => Ok(Tag::Keyword(s.to_owned())),
        }
    }

    /// The tag in text: a keyword as it is, a version in its canonical form.
    pub fn to_string(&self) -> (r: String)
        ensures
            r@ == tag_text(self@),
    {
        match self {
            Tag::Keyword(k) => k.clone(),
            Tag::Version(v) => v.to_string(),
        }
    }
}

/// Where a registry is reached: a URL or a socket address.
#[derive(Debug, Clone, PartialEq)]
pub enum Registry {
    Url(Url),
    SocketAddr(SocketAddr),
}

/// What a [`Registry`] stands for.
pub enum RegistryView {
    Url(UrlView),
    SocketAddr(SocketAddrView),
}

impl View for Registry {
    type V = RegistryView;

    open spec fn view(&self) -> RegistryView {
        match *self {
            Registry::Url(u) => RegistryView::Url(u@),
            Registry::SocketAddr(a) => RegistryView::SocketAddr(a@),
        }
    }
}

/// The view of a registry that may be missing.
pub open spec fn registry_option_view(r: Option<Registry>) -> Option<RegistryView> {
    match r {
        Some(r) => Some(r@),
        None => None,
    }
}

/// The text `https://`.
pub open spec fn https_prefix() -> Seq<char> {
    seq!['h', 't', 't', 'p', 's', ':', '/', '/']
}

/// The text that is read as a URL where a registry is no socket address:
/// the text itself where it holds `://`, and else the text with `https://`
/// before it.
pub open spec fn url_text(s: Seq<char>) -> Seq<char> {
    if first_scheme_mark(s) < s.len() {
        s
    } else {
        https_prefix() + s
    }
}

/// Reads a registry. A socket address is tried first. Else the text is read
/// as a URL, with `https://` put before it where it holds no `://`.
pub open spec fn registry_spec(s: Seq<char>) -> Option<RegistryView> {
    match socket_spec(s) {
        Some(a) => Some(RegistryView::SocketAddr(a)),
        None => {
            let text = if first_scheme_mark(s) < s.len() {
                s
            } else {
                https_prefix() + s
            };
            match url_spec(text) {
                Some(u) => Some(RegistryView::Url(u)),
                None => None,
            }
        },
    }
}

/// A registry in text: the canonical text of the URL, or the socket address.
pub open spec fn registry_text(r: RegistryView) -> Seq<char> {
    match r {
        RegistryView::Url(u) => u.serialization,
        RegistryView::SocketAddr(a) => socket_text(a),
    }
}

/// The host of a registry: that of the URL, or the IP address in text.
pub open spec fn registry_host_spec(r: Option<RegistryView>) -> Option<Seq<char>> {
    match r {
        Some(RegistryView::Url(u)) => u.host,
        Some(RegistryView::SocketAddr(a)) => Some(ip_text(a)),
        None => None,
    }
}

impl Registry {
    /// The text that is read as a URL where a registry is no socket
    /// address.
    pub fn url_text(s: &str) -> (r: String)
        ensures
            r@ == url_text(s@),
    {
        let v = chars_of(s);
        if find_scheme_mark(&v) < v.len() {
            s.to_owned()
        } else {
            proof {
                reveal_strlit("https://");
            }
            let mut text = String::from_str("https://");
            text.append(s);
            assert(text@ =~= https_prefix() + s@);
            text
        }
    }

    /// The registry that a URL is, where the text was read as one, and
    /// `InvalidFormat` where it was not.
    pub fn from_url(parsed: Option<Url>) -> (r: Result<Registry, Error>)
        ensures
            match parsed {
                Some(u) => r == Ok::<Registry, Error>(Registry::Url(u)),
                None => r == Err::<Registry, Error>(Error::InvalidFormat),
            },
    {
        match parsed {
            Some(u) => Ok(Registry::Url(u)),
            None => Err(Error::InvalidFormat),
        }
    }

    /// Reads a registry: a socket address, or else a URL, with `https://`
    /// put before the text where it holds no `://`. A text that is neither
    /// is an `InvalidFormat`.
    pub fn from_str(s: &str) -> (r: Result<Registry, Error>)
        ensures
            match r {
                Ok(reg) => registry_spec(s@) == Some(reg@),
                Err(e) => registry_spec(s@) is None && e == Error::InvalidFormat,
            },
    {
        match SocketAddr::parse(s) {
            Some(a) => Ok(Registry::SocketAddr(a)),
            None => Registry::from_url(Url::parse(Registry::url_text(s).as_str())),
        }
    }

    /// The registry in text: the canonical text of the URL, or the socket
    /// address.
    pub fn to_string(&self) -> (r: String)
        ensures
            r@ == registry_text(self@),
    {
        match self {
            Registry::Url(u) => u.serialization.clone(),
            Registry::SocketAddr(a) => a.to_string(),
        }
    }
}

/// A reference to a package: where the registry is, if that is said, the
/// namespace, the repository and the tag.
#[derive(Debug, Clone, PartialEq)]
pub struct OciIdentifier {
    pub registry: Option<Registry>,
    pub namespace: String,
    pub repository: String,
    pub tag: Tag,
}

/// What an [`OciIdentifier`] stands for.
pub struct OciIdentifierView {
    pub registry: Option<RegistryView>,
    pub namespace: Seq<char>,
    pub repository: Seq<char>,
    pub tag: TagView,
}

impl View for OciIdentifier {
    type V = OciIdentifierView;

    open spec fn view(&self) -> OciIdentifierView {
        OciIdentifierView {
            registry: registry_option_view(self.registry),
            namespace: self.namespace@,
            repository: self.repository@,
            tag: self.tag@,
        }
    }
}

/// Whether a first segment looks like a registry: it holds a colon, or it
/// holds a dot and neither starts nor ends with one.
pub open spec fn looks_like_registry(s: Seq<char>) -> bool {
    has_char(s, ':') || (has_char(s, '.') && s.first() != '.' && s.last() != '.')
}

/// Cuts a registry written with `://` off the front of `t`. Gives the
/// registry and the path that is left. Where `t` holds `://`, the text up to
/// the next `/` is the candidate; without such a `/` the text is refused. A
/// candidate that is no registry leaves all of `t` as the path.
pub open spec fn authority_split(t: Seq<char>) -> Result<(Option<RegistryView>, Seq<char>), Error> {
    let p = first_scheme_mark(t);
    let q = p + 3 + first_index(t.skip(p + 3), '/');
    if p >= t.len() {
        Ok((None, t))
    } else if q >= t.len() {
        Err(Error::InvalidFormat)
    } else {
        match registry_spec(t.take(q)) {
            Some(r) => Ok((Some(r), t.skip(q + 1))),
            None => Ok((None, t)),
        }
    }
}

/// Cuts a last segment into repository and tag. The segment must hold
/// exactly one colon, neither at its start nor at its end.
pub open spec fn repo_tag_split(last: Seq<char>) -> Option<(Seq<char>, Seq<char>)> {
    let k = first_index(last, ':');
    if 0 < k < last.len() - 1 && !has_char(last.skip(k + 1), ':') {
        Some((last.take(k), last.skip(k + 1)))
    } else {
        None
    }
}

/// Decides what of `head`, the path before the last segment, is namespace.
/// Where no registry was found yet and the first segment looks like one and
/// can be read as one, that segment is the registry and the rest is the
/// namespace; no namespace is left if there is no rest. Else all of `head`
/// is the namespace.
pub open spec fn namespace_split(registry: Option<RegistryView>, head: Seq<char>) -> (
    Option<RegistryView>,
    Option<Seq<char>>,
) {
    let f = first_index(head, '/');
    let first = head.take(f);
    if registry is None && looks_like_registry(first) && registry_spec(first) is Some {
        (
            registry_spec(first),
            if f < head.len() {
                Some(head.skip(f + 1))
            } else {
                None
            },
        )
    } else {
        (registry, Some(head))
    }
}

/// Reads the path of a reference, given the registry found before it. The
/// path must hold a `/`; what follows the last one is repository and tag.
pub open spec fn path_spec(registry: Option<RegistryView>, path: Seq<char>) -> Result<
    OciIdentifierView,
    Error,
> {
    let l = last_index(path, '/');
    if l < 0 {
        Err(Error::InvalidFormat)
    } else {
        match repo_tag_split(path.skip(l + 1)) {
            None => Err(Error::InvalidFormat),
            Some((repository, tag)) => {
                let (registry, namespace) = namespace_split(registry, path.take(l));
                match namespace {
                    Some(namespace) if namespace.len() > 0 => Ok(
                        OciIdentifierView { registry, namespace, repository, tag: tag_spec(tag) },
                    ),
                    _ => Err(Error::MissingNamespace),
                }
            },
        }
    }
}

/// Reads a reference.
pub open spec fn reference_spec(s: Seq<char>) -> Result<OciIdentifierView, Error> {
    let t = trim(s);
    if t.len() == 0 {
        Err(Error::InvalidFormat)
    } else {
        match authority_split(t) {
            Err(e) => Err(e),
            Ok((registry, path)) => path_spec(registry, path),
        }
    }
}

/// The start of a text that is tried as a registry written with `://`: the
/// text up to the first `/` after the `://`, where the text holds both.
pub open spec fn scheme_part(t: Seq<char>) -> Option<Seq<char>> {
    let p = first_scheme_mark(t);
    let q = p + 3 + first_index(t.skip(p + 3), '/');
    if p < t.len() && q < t.len() {
        Some(t.take(q))
    } else {
        None
    }
}

/// The first segment of a path that is tried as a registry: the path holds
/// a `/`, its last segment is repository and tag, and its first segment
/// looks like a registry.
pub open spec fn segment_part(path: Seq<char>) -> Option<Seq<char>> {
    let l = last_index(path, '/');
    let head = path.take(l);
    let first = head.take(first_index(head, '/'));
    if l >= 0 && repo_tag_split(path.skip(l + 1)) is Some && looks_like_registry(first) {
        Some(first)
    } else {
        None
    }
}

/// What [`authority_split`] gives where `parsed` is what reading the
/// candidate as a registry gave.
pub open spec fn authority_given(t: Seq<char>, parsed: Option<RegistryView>) -> Result<
    (Option<RegistryView>, Seq<char>),
    Error,
> {
    let p = first_scheme_mark(t);
    let q = p + 3 + first_index(t.skip(p + 3), '/');
    if p >= t.len() {
        Ok((None, t))
    } else if q >= t.len() {
        Err(Error::InvalidFormat)
    } else {
        match parsed {
            Some(r) => Ok((Some(r), t.skip(q + 1))),
            None => Ok((None, t)),
        }
    }
}

/// What [`namespace_split`] gives where `parsed` is what reading the first
/// segment as a registry gave.
pub open spec fn namespace_given(
    registry: Option<RegistryView>,
    head: Seq<char>,
    parsed: Option<RegistryView>,
) -> (Option<RegistryView>, Option<Seq<char>>) {
    let f = first_index(head, '/');
    let first = head.take(f);
    if registry is None && looks_like_registry(first) && parsed is Some {
        (
            parsed,
            if f < head.len() {
                Some(head.skip(f + 1))
            } else {
                None
            },
        )
    } else {
        (registry, Some(head))
    }
}

/// What [`path_spec`] gives where `parsed` is what reading the first segment
/// as a registry gave.
pub open spec fn path_given(
    registry: Option<RegistryView>,
    path: Seq<char>,
    parsed: Option<RegistryView>,
) -> Result<OciIdentifierView, Error> {
    let l = last_index(path, '/');
    if l < 0 {
        Err(Error::InvalidFormat)
    } else {
        match repo_tag_split(path.skip(l + 1)) {
            None => Err(Error::InvalidFormat),
            Some((repository, tag)) => {
                let (registry, namespace) = namespace_given(registry, path.take(l), parsed);
                match namespace {
                    Some(namespace) if namespace.len() > 0 => Ok(
                        OciIdentifierView { registry, namespace, repository, tag: tag_spec(tag) },
                    ),
                    _ => Err(Error::MissingNamespace),
                }
            },
        }
    }
}

/// Reads a reference, given what reading its candidates as registries gave:
/// `scheme` for the start of the text that is written with `://`, and
/// `segment` for the first segment of the path. A candidate that the text
/// does not have, or that is not asked for, is not looked at.
pub open spec fn reference_given(
    s: Seq<char>,
    scheme: Option<RegistryView>,
    segment: Option<RegistryView>,
) -> Result<OciIdentifierView, Error> {
    let t = trim(s);
    if t.len() == 0 {
        Err(Error::InvalidFormat)
    } else {
        match authority_given(t, scheme) {
            Err(e) => Err(e),
            Ok((registry, path)) => path_given(registry, path, segment),
        }
    }
}

/// What reading a candidate as a registry gives, where there is one.
pub open spec fn candidate_registry(c: Option<Seq<char>>) -> Option<RegistryView> {
    match c {
        Some(text) => registry_spec(text),
        None => None,
    }
}

/// Reading a reference is reading it given its candidates as they are
/// read. Where the candidate with `://` is a registry, the first segment of
/// the path is not looked at.
pub proof fn lemma_reference_given(s: Seq<char>, segment: Option<RegistryView>)
    ensures
        reference_spec(s) == reference_given(
            s,
            candidate_registry(scheme_part(trim(s))),
            candidate_registry(segment_part(trim(s))),
        ),
        candidate_registry(scheme_part(trim(s))) is Some ==> reference_spec(s) == reference_given(
            s,
            candidate_registry(scheme_part(trim(s))),
            segment,
        ),
{
}

/// The registry of a reference in text, with the `/` that follows it.
pub open spec fn registry_prefix(r: Option<RegistryView>) -> Seq<char> {
    match r {
        Some(r) => registry_text(r) + seq!['/'],
        None => Seq::empty(),
    }
}

/// A reference in text: `[registry/]namespace/repository:tag`.
pub open spec fn reference_text(id: OciIdentifierView) -> Seq<char> {
    registry_prefix(id.registry) + id.namespace + seq!['/'] + id.repository + seq![':'] + tag_text(
        id.tag,
    )
}

/// Cuts a registry written with `://` off the front of `t`, given what
/// reading the candidate gave. Returns the registry and where the path
/// starts.
fn split_authority(t: &Vec<char>, parsed: Option<Registry>) -> (r: Result<
    (Option<Registry>, usize),
    Error,
>)
    ensures
        match r {
            Ok((registry, lo)) => lo <= t.len() && authority_given(
                t@,
                registry_option_view(parsed),
            ) == Ok::<(Option<RegistryView>, Seq<char>), Error>(
                (registry_option_view(registry), t@.skip(lo as int)),
            ),
            Err(e) => authority_given(t@, registry_option_view(parsed)) == Err::<
                (Option<RegistryView>, Seq<char>),
                Error,
            >(e),
        },
{
    let n = t.len();
    assert(t@.skip(0) =~= t@);
    let p = find_scheme_mark(t);
    if p >= n {
        return Ok((None, 0));
    }
    assert(t@.skip(p + 3) =~= t@.subrange(p + 3, n as int));
    let q = find_char(t, p + 3, n, '/');
    if q >= n {
        return Err(Error::InvalidFormat);
    }
    match parsed {
        Some(registry) => Ok((Some(registry), q + 1)),
        None => Ok((None, 0)),
    }
}

/// Finds the colon that parts repository and tag in `t[lo..]`.
fn split_repo_tag(t: &Vec<char>, lo: usize) -> (r: Option<usize>)
    requires
        lo <= t.len(),
    ensures
        match r {
            Some(k) => lo < k < t.len() - 1 && repo_tag_split(t@.skip(lo as int)) == Some(
                (t@.subrange(lo as int, k as int), t@.skip(k + 1)),
            ),
            None => repo_tag_split(t@.skip(lo as int)) is None,
        },
{
    let n = t.len();
    let ghost last = t@.skip(lo as int);
    assert(last =~= t@.subrange(lo as int, n as int));
    let k = find_char(t, lo, n, ':');
    if k == lo || k == n || k == n - 1 {
        return None;
    }
    assert(last.skip(k - lo + 1) =~= t@.subrange(k + 1, n as int));
    if find_char(t, k + 1, n, ':') < n {
        return None;
    }
    assert(last.take(k - lo) =~= t@.subrange(lo as int, k as int));
    assert(last.skip(k - lo + 1) =~= t@.skip(k + 1));
    Some(k)
}

/// Tells whether `t[lo..hi]` looks like a registry.
fn looks_like(t: &Vec<char>, lo: usize, hi: usize) -> (b: bool)
    requires
        lo <= hi <= t.len(),
    ensures
        b == looks_like_registry(t@.subrange(lo as int, hi as int)),
{
    let colon = find_char(t, lo, hi, ':') < hi;
    let dot = find_char(t, lo, hi, '.') < hi;
    colon || (dot && t[lo] != '.' && t[hi - 1] != '.')
}

/// Decides what of `t[lo..hi]`, the path before the last segment, is
/// namespace, given what reading the first segment as a registry gave.
/// Returns the registry and where the namespace starts, if one is left.
fn split_namespace(
    t: &Vec<char>,
    registry: Option<Registry>,
    lo: usize,
    hi: usize,
    parsed: Option<Registry>,
) -> (r: (Option<Registry>, Option<usize>))
    requires
        lo <= hi <= t.len(),
    ensures
        namespace_given(
            registry_option_view(registry),
            t@.subrange(lo as int, hi as int),
            registry_option_view(parsed),
        ) == (
            registry_option_view(r.0),
            match r.1 {
                Some(start) => Some(t@.subrange(start as int, hi as int)),
                None => None,
            },
        ),
        r.1 matches Some(start) ==> lo <= start <= hi,
{
    if registry.is_some() {
        return (registry, Some(lo));
    }
    let ghost head = t@.subrange(lo as int, hi as int);
    let f = find_char(t, lo, hi, '/');
    assert(head.take(f - lo) =~= t@.subrange(lo as int, f as int));
    if !looks_like(t, lo, f) {
        return (registry, Some(lo));
    }
    match parsed {
        Some(found) => {
            if f < hi {
                assert(head.skip(f - lo + 1) =~= t@.subrange(f + 1, hi as int));
                (Some(found), Some(f + 1))
            } else {
                (Some(found), None)
            }
        },
        None => (registry, Some(lo)),
    }
}

/// The registry that reading a candidate gave, if it gave one.
fn found_registry(c: Option<String>) -> (r: Option<Registry>)
    ensures
        registry_option_view(r) == candidate_registry(opt_text(c)),
{
    match c {
        Some(text) => match Registry::from_str(text.as_str()) {
            Ok(registry) => Some(registry),
            Err(_) => None,
        },
        None => None,
    }
}

impl OciIdentifier {
    /// The start of a text that is tried as a registry written with `://`,
    /// where the text has one: white space around the text is dropped, and
    /// what stands before the first `/` after the `://` is the candidate.
    pub fn scheme_candidate(s: &str) -> (r: Option<String>)
        ensures
            opt_text(r) == scheme_part(trim(s@)),
    {
        let all = chars_of(s);
        let (a, b) = trim_bounds(&all);
        let text: &str = s.substring_char(a, b);
        let t = chars_of(text);
        let n = t.len();
        assert(t@ == trim(s@));
        let p = find_scheme_mark(&t);
        if p >= n {
            return None;
        }
        assert(t@.skip(p + 3) =~= t@.subrange(p + 3, n as int));
        let q = find_char(&t, p + 3, n, '/');
        if q >= n {
            return None;
        }
        let candidate = substring(text, 0, q);
        assert(candidate@ =~= t@.take(q as int));
        Some(candidate)
    }

    /// The first segment of a text that is tried as a registry, where the
    /// text has one: white space around the text is dropped, the text holds
    /// a `/`, its last segment is repository and tag, and its first segment
    /// looks like a registry.
    pub fn segment_candidate(s: &str) -> (r: Option<String>)
        ensures
            opt_text(r) == segment_part(trim(s@)),
    {
        let all = chars_of(s);
        let (a, b) = trim_bounds(&all);
        let text: &str = s.substring_char(a, b);
        let t = chars_of(text);
        let n = t.len();
        assert(t@ == trim(s@));
        assert(t@.subrange(0, n as int) =~= t@);
        let l = match rfind_char(&t, 0, n, '/') {
            Some(l) => l,
            None => {
                return None;
            },
        };
        if split_repo_tag(&t, l + 1).is_none() {
            return None;
        }
        let ghost head = t@.take(l as int);
        assert(head =~= t@.subrange(0, l as int));
        let f = find_char(&t, 0, l, '/');
        assert(head.take(f as int) =~= t@.subrange(0, f as int));
        if !looks_like(&t, 0, f) {
            return None;
        }
        let candidate = substring(text, 0, f);
        Some(candidate)
    }

    /// Reads a reference, given what reading its candidates as registries
    /// gave: `scheme` for the candidate that is written with `://`, and
    /// `segment` for the first segment of the path. A candidate that the
    /// text does not have, or that is not asked for, is not looked at.
    ///
    /// White space around the text is dropped. A text that is empty then, a
    /// text with `://` and no `/` after it, a path without a `/`, and a last
    /// segment that is not `repository:tag` with exactly one colon are an
    /// `InvalidFormat`. A reference without a namespace is a
    /// `MissingNamespace`.
    pub fn from_parts(s: &str, scheme: Option<Registry>, segment: Option<Registry>) -> (r: Result<
        OciIdentifier,
        Error,
    >)
        ensures
            match r {
                Ok(id) => reference_given(
                    s@,
                    registry_option_view(scheme),
                    registry_option_view(segment),
                ) == Ok::<OciIdentifierView, Error>(id@),
                Err(e) => reference_given(
                    s@,
                    registry_option_view(scheme),
                    registry_option_view(segment),
                ) == Err::<OciIdentifierView, Error>(e),
            },
            r matches Err(e) ==> e != Error::MissingRepoOrTag,
    {
        let all = chars_of(s);
        let (a, b) = trim_bounds(&all);
        if a == b {
            return Err(Error::InvalidFormat);
        }
        let text: &str = s.substring_char(a, b);
        let t = chars_of(text);
        let n = t.len();
        assert(t@ == trim(s@));
        let (registry, path_lo) = match split_authority(&t, scheme) {
            Ok(found) => found,
            Err(e) => {
                return Err(e);
            },
        };
        let ghost path = t@.skip(path_lo as int);
        assert(path =~= t@.subrange(path_lo as int, n as int));
        let l = match rfind_char(&t, path_lo, n, '/') {
            Some(l) => l,
            None => {
                return Err(Error::InvalidFormat);
            },
        };
        assert(path.skip(l - path_lo + 1) =~= t@.skip(l + 1));
        assert(path.take(l - path_lo) =~= t@.subrange(path_lo as int, l as int));
        let k = match split_repo_tag(&t, l + 1) {
            Some(k) => k,
            None => {
                return Err(Error::InvalidFormat);
            },
        };
        let (registry, start) = split_namespace(&t, registry, path_lo, l, segment);
        let start = match start {
            Some(start) => start,
            None => {
                return Err(Error::MissingNamespace);
            },
        };
        if start == l {
            return Err(Error::MissingNamespace);
        }
        let namespace = substring(text, start, l);
        let repository = substring(text, l + 1, k);
        let tag_part = substring(text, k + 1, n);
        assert(tag_part@ =~= t@.skip(k + 1));
        let tag = match SemVer::from_str(tag_part.as_str()) {
            Some(v) => Tag::Version(v),
            None => Tag::Keyword(tag_part),
        };
        Ok(OciIdentifier { registry, namespace, repository, tag })
    }

    /// Reads a reference, `[registry/]namespace/repository:tag`.
    ///
    /// The candidate that is written with `://` is read as a registry
    /// first. Where the text has none, or it is no registry, the first
    /// segment of the path is read as one if it looks like one. With what
    /// that gave the reference is read as [`OciIdentifier::from_parts`]
    /// reads it.
    pub fn from_str(s: &str) -> (r: Result<OciIdentifier, Error>)
        ensures
            match r {
                Ok(id) => reference_spec(s@) == Ok::<OciIdentifierView, Error>(id@),
                Err(e) => reference_spec(s@) == Err::<OciIdentifierView, Error>(e),
            },
            r matches Err(e) ==> e != Error::MissingRepoOrTag,
    {
        let scheme = found_registry(OciIdentifier::scheme_candidate(s));
        let segment = if scheme.is_some() {
            None
        } else {
            found_registry(OciIdentifier::segment_candidate(s))
        };
        proof {
            lemma_reference_given(s@, registry_option_view(segment));
        }
        OciIdentifier::from_parts(s, scheme, segment)
    }

    /// The reference in text: `[registry/]namespace/repository:tag`, with a
    /// version tag in its canonical form.
    pub fn to_string(&self) -> (r: String)
        ensures
            r@ == reference_text(self@),
    {
        proof {
            reveal_strlit("/");
            reveal_strlit(":");
        }
        let mut r = String::new();
        match &self.registry {
            Some(registry) => {
                r.append(registry.to_string().as_str());
                r.append("/");
            },
            None => {},
        }
        assert(r@ =~= registry_prefix(self@.registry));
        r.append(self.namespace.as_str());
        r.append("/");
        r.append(self.repository.as_str());
        r.append(":");
        r.append(self.tag.to_string().as_str());
        assert(r@ =~= reference_text(self@));
        r
    }

    /// A reference without a registry.
    pub fn new(namespace: String, repository: String, tag: Tag) -> (r: OciIdentifier)
        ensures
            r.registry is None,
            r.namespace == namespace,
            r.repository == repository,
            r.tag == tag,
    {
        OciIdentifier { registry: None, namespace, repository, tag }
    }

    /// A reference with a registry.
    pub fn with_registry(registry: Registry, namespace: String, repository: String, tag: Tag) -> (r:
        OciIdentifier)
        ensures
            r.registry == Some(registry),
            r.namespace == namespace,
            r.repository == repository,
            r.tag == tag,
    {
        OciIdentifier { registry: Some(registry), namespace, repository, tag }
    }

    /// Namespace and repository: `namespace/repository`.
    pub fn full_repository_path(&self) -> (r: String)
        ensures
            r@ == self@.namespace + seq!['/'] + self@.repository,
    {
        proof {
            reveal_strlit("/");
        }
        let mut r = self.namespace.clone();
        r.append("/");
        r.append(self.repository.as_str());
        r
    }

    /// Whether the reference says where the registry is.
    pub fn has_registry(&self) -> (b: bool)
        ensures
            b == (self@.registry is Some),
    {
        self.registry.is_some()
    }

    /// The host of the registry: that of its URL, or the IP address of its
    /// socket address in text.
    pub fn registry_host(&self) -> (r: Option<String>)
        ensures
            match r {
                Some(h) => registry_host_spec(self@.registry) == Some(h@),
                None => registry_host_spec(self@.registry) is None,
            },
    {
        match &self.registry {
            Some(Registry::Url(u)) => match &u.host {
                Some(h) => Some(h.clone()),
                None => None,
            },
            Some(Registry::SocketAddr(a)) => Some(a.ip_string()),
            None => None,
        }
    }
}

} // verus!

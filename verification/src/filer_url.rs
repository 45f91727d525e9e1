use vstd::prelude::*;
use vstd::string::*;

verus! {

#[verifier::external_type_specification]
#[verifier::external_body]
pub struct ExUrl(url::Url);

/// A parsed URL of a filer. It keeps the url crate's value together with its
/// serialization, which is what the library reasons about. The two are set
/// together, only by the wrappers of this module, so the serialization is
/// always that of the value. The names below take a URL by its serialization:
/// the url crate re-parses a serialization to the same URL, and every value
/// here comes from `Url::parse` or `Url::join`, which go through its parser.
pub struct FilerUrl {
    text: String,
    inner: url::Url,
}

impl View for FilerUrl {
    type V = Seq<char>;

    /// The serialization of the URL (`Url::as_str`).
    closed spec fn view(&self) -> Seq<char> {
        self.text@
    }
}

/// A failure of the url crate to parse, held as the `Debug` text of its `ParseError`.
#[derive(Debug)]
pub struct UrlError {
    pub debug: String,
}

/// What `url::Url::parse` makes of a text: the serialization of the parsed
/// URL, or the `Debug` text of the error.
pub uninterp spec fn url_parse(input: Seq<char>) -> Result<Seq<char>, Seq<char>>;

/// What `url::Url::has_host` says of the URL with this serialization.
pub uninterp spec fn url_has_host(url: Seq<char>) -> bool;

/// What `url::Url::path` gives for the URL with this serialization.
pub uninterp spec fn url_path(url: Seq<char>) -> Seq<char>;

/// What `url::Url::join` makes of the URL with this serialization and a
/// relative reference: the serialization of the result, or the `Debug` text of the error.
pub uninterp spec fn url_join(url: Seq<char>, input: Seq<char>) -> Result<Seq<char>, Seq<char>>;

/// What `format!("{:?}", s)` writes for a `str`: the text quoted and escaped.
pub uninterp spec fn str_debug(s: Seq<char>) -> Seq<char>;

/// Calls `url::Url::parse`. Claimed: the result, taken by its serialization
/// or by the `Debug` text of the error, is `url_parse` of the input.
#[verifier::external_body]
pub(crate) fn parse_url(input: &str) -> (r: Result<FilerUrl, UrlError>)
    ensures
        match r {
            Ok(u) => url_parse(input@) == Ok::<Seq<char>, Seq<char>>(u@),
            Err(e) => url_parse(input@) == Err::<Seq<char>, Seq<char>>(e.debug@),
        },
{
    match url::Url::parse(input) {
        Ok(u) => Ok(FilerUrl { text: u.as_str().to_string(), inner: u }),
        Err(e) => Err(UrlError { debug: format!("{:?}", e) }),
    }
}

/// Calls `url::Url::join`. Claimed: the result, taken by its serialization or
/// by the `Debug` text of the error, is `url_join` of the URL and the input.
#[verifier::external_body]
pub(crate) fn join_url(base: &FilerUrl, input: &str) -> (r: Result<FilerUrl, UrlError>)
    ensures
        match r {
            Ok(u) => url_join(base@, input@) == Ok::<Seq<char>, Seq<char>>(u@),
            Err(e) => url_join(base@, input@) == Err::<Seq<char>, Seq<char>>(e.debug@),
        },
{
    match base.inner.join(input) {
        Ok(u) => Ok(FilerUrl { text: u.as_str().to_string(), inner: u }),
        Err(e) => Err(UrlError { debug: format!("{:?}", e) }),
    }
}

/// Calls `url::Url::has_host`. Claimed: the result is `url_has_host` of the URL.
#[verifier::external_body]
pub(crate) fn has_host(u: &FilerUrl) -> (b: bool)
    ensures
        b == url_has_host(u@),
{
    u.inner.has_host()
}

/// Calls `url::Url::path`. Claimed: the result is `url_path` of the URL.
#[verifier::external_body]
pub(crate) fn path(u: &FilerUrl) -> (p: String)
    ensures
        p@ == url_path(u@),
{
    u.inner.path().to_string()
}

/// Calls `url::Url::clone`. Claimed: the copy has the same serialization.
#[verifier::external_body]
pub(crate) fn clone_url(u: &FilerUrl) -> (c: FilerUrl)
    ensures
        c@ == u@,
{
    FilerUrl { text: u.text.clone(), inner: u.inner.clone() }
}

/// Calls `format!("{:?}", s)` on a `str`. Claimed: the result is `str_debug` of the text.
#[verifier::external_body]
pub(crate) fn debug_str(s: &str) -> (d: String)
    ensures
        d@ == str_debug(s@),
{
    format!("{:?}", s)
}

impl FilerUrl {
    /// The serialization of the URL.
    pub fn as_str(&self) -> (s: &str)
        ensures
            s@ == self@,
    {
        self.text.as_str()
    }

    /// The URL parsed from a text, or the url crate's error.
    pub fn parse(input: &str) -> (r: Result<FilerUrl, UrlError>)
        ensures
            match r {
                Ok(u) => url_parse(input@) == Ok::<Seq<char>, Seq<char>>(u@),
                Err(e) => url_parse(input@) == Err::<Seq<char>, Seq<char>>(e.debug@),
            },
    {
        parse_url(input)
    }

    /// A copy of the URL.
    pub fn duplicate(&self) -> (c: FilerUrl)
        ensures
            c@ == self@,
    {
        clone_url(self)
    }
}

} // verus!

//! Links that open a new issue on an extension's repository.
//!
//! The URL syntax is the work of the `url` crate: this module names what its
//! functions give and builds the link from them.

use vstd::prelude::*;
use vstd::string::*;
use vstd::utf8::encode_utf8;

verus! {

/// `url::Url`, a parsed URL. Nothing is known of a URL but the serialization
/// that [`url_text`] names.
#[verifier::external_type_specification]
#[verifier::external_body]
pub struct ExUrl(url::Url);

/// The serialization that a `url::Url` holds.
pub uninterp spec fn url_text(url: url::Url) -> Seq<char>;

/// What `Url::parse` makes of `input`: the serialization of the URL that it
/// returns, or the printed form of the error that it returns.
pub uninterp spec fn parsed_url(input: Seq<char>) -> Result<Seq<char>, Seq<char>>;

/// What `PathSegmentsMut::push` makes of the URL with the serialization
/// `url`: its serialization once `segment` has been added at the end of its
/// path, or `None` where the URL cannot be a base and so has no path segments.
pub uninterp spec fn url_with_segment(url: Seq<char>, segment: Seq<char>) -> Option<Seq<char>>;

/// What `Serializer::append_pair` makes of the URL with the serialization
/// `url`: its serialization once the pair has been added at the end of its
/// query.
pub uninterp spec fn url_with_query_pair(
    url: Seq<char>,
    name: Seq<char>,
    value: Seq<char>,
) -> Seq<char>;

/// The longest serialization that a `url::Url` can hold, in bytes: the crate
/// keeps its offsets in 32 bits.
pub const URL_LIMIT: usize = 0xffff_ffff;

/// The number of bytes that a text takes in UTF-8.
pub open spec fn byte_len(text: Seq<char>) -> nat {
    encode_utf8(text).len()
}

/// Calls `Url::parse`. The result is a URL whose serialization [`parsed_url`]
/// names, or the printed form of the crate's error where that names one.
#[verifier::external_body]
fn url_parse(input: &str) -> (r: Result<url::Url, String>)
    ensures
        match r {
            Ok(url) => parsed_url(input@) == Ok::<Seq<char>, Seq<char>>(url_text(url)),
            Err(message) => parsed_url(input@) == Err::<Seq<char>, Seq<char>>(message@),
        },
{
    match url::Url::parse(input) {
        Ok(url) => Ok(url),
        Err(error) => Err(error.to_string()),
    }
}

/// Calls `Url::as_str`: the serialization that the URL holds.
#[verifier::external_body]
fn url_as_str(url: &url::Url) -> (r: &str)
    ensures
        r@ == url_text(*url),
{
    url.as_str()
}

/// Calls `Url::path_segments_mut` and, where that gives the segments,
/// `PathSegmentsMut::push`. The result is the URL with the serialization that
/// [`url_with_segment`] names, or `None` where that names none. A segment
/// adds one `/` and at most three bytes for each of its own; the caller
/// keeps the sum within the 32 bits of the crate's offsets.
#[verifier::external_body]
fn url_push_segment(url: url::Url, segment: &str) -> (r: Option<url::Url>)
    requires
        byte_len(url_text(url)) + 3 * byte_len(segment@) + 1 <= URL_LIMIT,
    ensures
        match r {
            Some(longer) => url_with_segment(url_text(url), segment@) == Some(url_text(longer)),
            None => url_with_segment(url_text(url), segment@) is None,
        },
{
    let mut url = url;
    url.path_segments_mut().ok()?.push(segment);
    Some(url)
}

/// Calls `Url::query_pairs_mut`, `Serializer::append_pair` and
/// `Serializer::finish`. The result is the URL with the serialization that
/// [`url_with_query_pair`] names. A pair adds a `?` or `&`, a `=` and at most
/// three bytes for each of its own; the caller keeps the sum within the 32
/// bits of the crate's offsets.
#[verifier::external_body]
fn url_append_pair(url: url::Url, name: &str, value: &str) -> (r: url::Url)
    requires
        byte_len(url_text(url)) + 3 * byte_len(name@) + 3 * byte_len(value@) + 3 <= URL_LIMIT,
    ensures
        url_text(r) == url_with_query_pair(url_text(url), name@, value@),
{
    let mut url = url;
    url.query_pairs_mut().append_pair(name, value).finish();
    url
}

/// Why no issue link could be built for a repository.
#[derive(Clone, Debug, PartialEq, Eq)]
pub enum IssueLinkError {
    /// The repository URL is no valid absolute URL. Holds the reason in
    /// words.
    InvalidUrl(String),
    /// The repository URL has no path to which segments can be added.
    CannotBeABase,
    /// The link would be longer than a URL can be.
    TooLong,
}

/// The mathematical value of an [`IssueLinkError`].
pub ghost enum IssueLinkErrorView {
    InvalidUrl(Seq<char>),
    CannotBeABase,
    TooLong,
}

impl View for IssueLinkError {
    type V = IssueLinkErrorView;

    open spec fn view(&self) -> IssueLinkErrorView {
        match self {
            IssueLinkError::InvalidUrl(message) => IssueLinkErrorView::InvalidUrl(message@),
            IssueLinkError::CannotBeABase => IssueLinkErrorView::CannotBeABase,
            IssueLinkError::TooLong => IssueLinkErrorView::TooLong,
        }
    }
}

impl IssueLinkErrorView {
    /// The error in words: for a URL that is none, the words of the parser;
    /// for one without a path, `invalid repository URL`.
    pub open spec fn message(self) -> Seq<char> {
        match self {
            IssueLinkErrorView::InvalidUrl(message) => message,
            IssueLinkErrorView::CannotBeABase => "invalid repository URL"@,
            IssueLinkErrorView::TooLong => "issue link too long"@,
        }
    }
}

impl IssueLinkError {
    /// The error in words.
    pub fn message(&self) -> (r: String)
        ensures
            r@ == self@.message(),
    {
        match self {
            IssueLinkError::InvalidUrl(message) => message.clone(),
            IssueLinkError::CannotBeABase => "invalid repository URL".to_owned(),
            IssueLinkError::TooLong => "issue link too long".to_owned(),
        }
    }
}

/// The URL with `segment` added to its path.
pub open spec fn with_segment(url: Seq<char>, segment: Seq<char>) -> Result<
    Seq<char>,
    IssueLinkErrorView,
> {
    if byte_len(url) + 3 * byte_len(segment) + 1 > URL_LIMIT {
        Err(IssueLinkErrorView::TooLong)
    } else {
        match url_with_segment(url, segment) {
            Some(longer) => Ok(longer),
            None => Err(IssueLinkErrorView::CannotBeABase),
        }
    }
}

/// The URL with the pair added to its query.
pub open spec fn with_query_pair(url: Seq<char>, name: Seq<char>, value: Seq<char>) -> Result<
    Seq<char>,
    IssueLinkErrorView,
> {
    if byte_len(url) + 3 * byte_len(name) + 3 * byte_len(value) + 3 > URL_LIMIT {
        Err(IssueLinkErrorView::TooLong)
    } else {
        Ok(url_with_query_pair(url, name, value))
    }
}

/// The link that opens a new issue with the given title and body on the
/// repository: the repository's URL with the path segments `issues` and
/// `new` and the query pairs `title` and `body`, in this order.
pub open spec fn issue_link(repository_url: Seq<char>, title: Seq<char>, body: Seq<char>) -> Result<
    Seq<char>,
    IssueLinkErrorView,
> {
    match parsed_url(repository_url) {
        Err(message) => Err(IssueLinkErrorView::InvalidUrl(message)),
        Ok(repository) => match with_segment(repository, "issues"@) {
            Err(e) => Err(e),
            Ok(issues) => match with_segment(issues, "new"@) {
                Err(e) => Err(e),
                Ok(new_issue) => match with_query_pair(new_issue, "title"@, title) {
                    Err(e) => Err(e),
                    Ok(titled) => with_query_pair(titled, "body"@, body),
                },
            },
        },
    }
}

/// The number of bytes that a string takes.
fn byte_count(s: &str) -> (n: usize)
    ensures
        n == byte_len(s@),
{
    s.as_bytes().len()
}

/// Whether `used + 3 * extra + fixed` stays within the limit on a URL.
fn fits(used: usize, extra: usize, fixed: usize) -> (r: bool)
    requires
        fixed <= 3,
    ensures
        r == (used + 3 * extra + fixed <= URL_LIMIT),
{
    used <= URL_LIMIT - fixed && extra <= (URL_LIMIT - fixed - used) / 3
}

fn push_segment(url: url::Url, segment: &str) -> (r: Result<url::Url, IssueLinkError>)
    ensures
        match r {
            Ok(longer) => with_segment(url_text(url), segment@) == Ok::<
                Seq<char>,
                IssueLinkErrorView,
            >(url_text(longer)),
            Err(e) => with_segment(url_text(url), segment@) == Err::<Seq<char>, IssueLinkErrorView>(
                e@,
            ),
        },
{
    if !fits(byte_count(url_as_str(&url)), byte_count(segment), 1) {
        return Err(IssueLinkError::TooLong);
    }
    match url_push_segment(url, segment) {
        Some(longer) => Ok(longer),
        None => Err(IssueLinkError::CannotBeABase),
    }
}

fn append_pair(url: url::Url, name: &str, value: &str) -> (r: Result<url::Url, IssueLinkError>)
    ensures
        match r {
            Ok(longer) => with_query_pair(url_text(url), name@, value@) == Ok::<
                Seq<char>,
                IssueLinkErrorView,
            >(url_text(longer)),
            Err(e) => with_query_pair(url_text(url), name@, value@) == Err::<
                Seq<char>,
                IssueLinkErrorView,
            >(e@),
        },
{
    let used = byte_count(url_as_str(&url));
    let name_len = byte_count(name);
    if !fits(used, name_len, 3) {
        return Err(IssueLinkError::TooLong);
    }
    if !fits(used + 3 * name_len, byte_count(value), 3) {
        return Err(IssueLinkError::TooLong);
    }
    Ok(url_append_pair(url, name, value))
}

/// Returns a URL for creating a new GitHub issue with the given title and
/// body on the repository, or the reason why there is none.
pub fn create_github_issue_url(repository_url: &str, title: &str, body: &str) -> (r: Result<
    String,
    IssueLinkError,
>)
    ensures
        match r {
            Ok(link) => issue_link(repository_url@, title@, body@) == Ok::<
                Seq<char>,
                IssueLinkErrorView,
            >(link@),
            Err(e) => issue_link(repository_url@, title@, body@) == Err::<
                Seq<char>,
                IssueLinkErrorView,
            >(e@),
        },
{
    let repository = match url_parse(repository_url) {
        Ok(url) => url,
        Err(message) => {
            return Err(IssueLinkError::InvalidUrl(message));
        },
    };
    let issues = match push_segment(repository, "issues") {
        Ok(url) => url,
        Err(e) => {
            return Err(e);
        },
    };
    let new_issue = match push_segment(issues, "new") {
        Ok(url) => url,
        Err(e) => {
            return Err(e);
        },
    };
    let titled = match append_pair(new_issue, "title", title) {
        Ok(url) => url,
        Err(e) => {
            return Err(e);
        },
    };
    match append_pair(titled, "body", body) {
        Ok(url) => Ok(url_as_str(&url).to_owned()),
        Err(e) => Err(e),
    }
}

} // verus!

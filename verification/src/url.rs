//! URL components as plain values, parsed by the `url` parser that `reqwest`
//! re-exports.
use vstd::prelude::*;

verus! {

/// Abstract value of [`UrlParts`].
pub struct UrlModel {
    pub scheme: Seq<char>,
    pub host: Option<Seq<char>>,
    pub username: Seq<char>,
    pub password: Option<Seq<char>>,
    pub query: Option<Seq<char>>,
    pub fragment: Option<Seq<char>>,
    pub path: Seq<char>,
}

/// The components of a parsed URL that the validators read.
#[derive(Debug, Clone, PartialEq, Eq)]
pub struct UrlParts {
    pub scheme: String,
    pub host: Option<String>,
    pub username: String,
    pub password: Option<String>,
    pub query: Option<String>,
    pub fragment: Option<String>,
    pub path: String,
}

pub open spec fn opt_view(o: Option<String>) -> Option<Seq<char>> {
    match o {
        Some(s) => Some(s@),
        None => None,
    }
}

impl View for UrlParts {
    type V = UrlModel;

    open spec fn view(&self) -> UrlModel {
        UrlModel {
            scheme: self.scheme@,
            host: opt_view(self.host),
            username: self.username@,
            password: opt_view(self.password),
            query: opt_view(self.query),
            fragment: opt_view(self.fragment),
            path: self.path@,
        }
    }
}

/// What `reqwest::Url::parse` makes of a text: `None` where it refuses it.
pub uninterp spec fn parsed_url(raw: Seq<char>) -> Option<UrlModel>;

/// Calls `reqwest::Url::parse` and copies out the scheme, `host_str`,
/// username, password, query, fragment and path. The contract claims only
/// that the outcome is a function of the text, named [`parsed_url`].
#[verifier::external_body]
pub(crate) fn parse_url(raw: &str) -> (parts: Option<UrlParts>)
    ensures
        match parts {
            Some(p) => parsed_url(raw@) == Some(p@),
            None => parsed_url(raw@) is None,
        },
{
    match reqwest::Url::parse(raw) {
        Ok(url) => Some(UrlParts {
            scheme: url.scheme().to_owned(),
            host: url.host_str().map(str::to_owned),
            username: url.username().to_owned(),
            password: url.password().map(str::to_owned),
            query: url.query().map(str::to_owned),
            fragment: url.fragment().map(str::to_owned),
            path: url.path().to_owned(),
        }),
        Err(_) => None,
    }
}

/// `reqwest::Url::join`: the text of `relative` resolved against `base`.
pub uninterp spec fn joined_url(base: Seq<char>, relative: Seq<char>) -> Option<Seq<char>>;

/// Parses `base` with `reqwest::Url::parse`, joins `relative` with
/// `Url::join` and renders the result with `to_string`. The contract claims
/// only that the outcome is a function of both texts, named [`joined_url`].
#[verifier::external_body]
pub(crate) fn join_url(base: &str, relative: &str) -> (joined: Option<String>)
    ensures
        match joined {
            Some(j) => joined_url(base@, relative@) == Some(j@),
            None => joined_url(base@, relative@) is None,
        },
{
    match reqwest::Url::parse(base) {
        Ok(url) => match url.join(relative) {
            Ok(joined) => Some(joined.to_string()),
            Err(_) => None,
        },
        Err(_) => None,
    }
}

/// The texts of query pairs.
pub open spec fn pair_texts(pairs: Seq<(String, String)>) -> Seq<(Seq<char>, Seq<char>)> {
    pairs.map_values(|p: (String, String)| (p.0@, p.1@))
}

/// `reqwest::Url::parse(base)` with each pair appended in order by
/// `query_pairs_mut().append_pair`, rendered with `to_string`; `None` where
/// the base does not parse.
pub uninterp spec fn url_with_pairs(base: Seq<char>, pairs: Seq<(Seq<char>, Seq<char>)>) -> Option<Seq<char>>;

/// Parses `base` with `reqwest::Url::parse`, appends each query pair with
/// `append_pair` and renders the URL with `to_string`. The contract claims
/// only that the outcome is a function of the base and the pairs, named
/// [`url_with_pairs`].
#[verifier::external_body]
pub(crate) fn append_query_pairs(base: &str, pairs: &Vec<(String, String)>) -> (url: Option<String>)
    ensures
        match url {
            Some(u) => url_with_pairs(base@, pair_texts(pairs@)) == Some(u@),
            None => url_with_pairs(base@, pair_texts(pairs@)) is None,
        },
{
    let mut url = reqwest::Url::parse(base).ok()?;
    for (key, value) in pairs {
        url.query_pairs_mut().append_pair(key, value);
    }
    Some(url.to_string())
}

} // verus!

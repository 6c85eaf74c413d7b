//! Request URIs, as `http::Uri` reads them.

use vstd::prelude::*;

use crate::text;

verus! {

/// A URI, with the parts that the proxy reads of it.
#[derive(Debug, PartialEq)]
pub struct RequestUri {
    /// The whole URI.
    pub text: String,
    /// Its path.
    pub path: String,
    /// Its query, without the question mark.
    pub query: Option<String>,
    /// Its path and query, where it has that part.
    pub path_and_query: Option<String>,
}

/// The parts of a URI as mathematical values.
pub struct UriModel {
    pub path: Seq<char>,
    pub query: Option<Seq<char>>,
    pub path_and_query: Option<Seq<char>>,
}

impl RequestUri {
    /// The parts of this URI.
    pub open spec fn parts(self) -> UriModel {
        UriModel {
            path: self.path@,
            query: text::opt_owned(self.query),
            path_and_query: text::opt_owned(self.path_and_query),
        }
    }
}

impl Clone for RequestUri {
    fn clone(&self) -> (r: Self)
        ensures
            r == *self,
    {
        RequestUri {
            text: self.text.clone(),
            path: self.path.clone(),
            query: self.query.clone(),
            path_and_query: self.path_and_query.clone(),
        }
    }
}

/// The parts that `http::Uri` finds in a text, `None` where it is no URI.
pub uninterp spec fn uri_parts(text: Seq<char>) -> Option<UriModel>;

/// `http::Uri::from_str` reads a URI; `path`, `query` and `path_and_query`
/// give its parts. They depend on the text alone; nothing more is claimed of
/// them.
#[verifier::external_body]
pub(crate) fn parse_uri(text: &str) -> (r: Option<RequestUri>)
    ensures
        match r {
            Some(u) => u.text@ == text@ && uri_parts(text@) == Some(u.parts()),
            None => uri_parts(text@) is None,
        },
{
    text.parse::<http::Uri>().ok().map(
        |u|
            RequestUri {
                text: text.to_string(),
                path: u.path().to_string(),
                query: u.query().map(str::to_string),
                path_and_query: u.path_and_query().map(|p| p.as_str().to_string()),
            },
    )
}

/// The URI that `http::uri::Builder` makes of its parts, `None` where it
/// refuses them.
pub uninterp spec fn assembled_uri(
    scheme: Seq<char>,
    authority: Seq<char>,
    path_and_query: Seq<char>,
) -> Option<(Seq<char>, UriModel)>;

/// `http::uri::Builder` assembles a URI from a scheme, an authority and a path
/// with query. The result depends on these texts alone; nothing more is
/// claimed of it.
#[verifier::external_body]
pub(crate) fn assemble_uri(scheme: &str, authority: &str, path_and_query: &str) -> (r: Option<
    RequestUri,
>)
    ensures
        match r {
            Some(u) => assembled_uri(scheme@, authority@, path_and_query@) == Some(
                (u.text@, u.parts()),
            ),
            None => assembled_uri(scheme@, authority@, path_and_query@) is None,
        },
{
    let built = http::Uri::builder().scheme(scheme).authority(authority);
    built.path_and_query(path_and_query).build().ok().map(
        |u|
            RequestUri {
                text: u.to_string(),
                path: u.path().to_string(),
                query: u.query().map(str::to_string),
                path_and_query: u.path_and_query().map(|p| p.as_str().to_string()),
            },
    )
}

} // verus!

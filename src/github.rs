//! Paged issue search: the request address, the page value and its traversal.
use vstd::prelude::*;
use crate::link::{Link, link_of, opt_view, parse_link};

verus! {

/// One item of a search page.
pub struct Issue {
    pub url: String,
    pub id: u64,
    pub title: String,
}

/// The body of a search response.
pub struct IssuesResponse {
    pub total_count: u64,
    pub incomplete_results: bool,
    pub items: Vec<Issue>,
}

/// A page of search results and the pagination header that came with it.
pub struct IssuesSearchResult {
    pub response: IssuesResponse,
    pub link: Option<Link>,
}

/// A response whose status is not 200.
pub struct ResponseError {
    pub status: u16,
    pub message: String,
}

/// The address that searches `host` for the open pull requests of `username`.
pub fn search_url(host: &str, username: &str) -> (r: String)
    ensures
        r@ == host@ + "/api/v3/search/issues?q=author:"@ + username@
            + "+is:open+is:pr+archived:false"@,
{
    String::from_str(host).concat("/api/v3/search/issues?q=author:").concat(username).concat(
        "+is:open+is:pr+archived:false",
    )
}

pub open spec fn response_error_message(body: Result<Seq<char>, Seq<char>>) -> Seq<char> {
    match body {
        Ok(b) => "body: "@ + b,
        Err(e) => "failed to read body: "@ + e,
    }
}

/// Checks a response status: 200 passes; any other status is an error that
/// carries the body, or the reason the body could not be read.
pub fn check_status(status: u16, body: Result<String, String>) -> (r: Result<(), ResponseError>)
    ensures
        status == 200 <==> r is Ok,
        r is Err ==> r->Err_0.status == status && r->Err_0.message@ == response_error_message(
            match body {
                Ok(b) => Ok(b@),
                Err(e) => Err(e@),
            },
        ),
{
    if status == 200 {
        return Ok(());
    }
    let message = match body {
        Ok(b) => String::from_str("body: ").concat(b.as_str()),
        Err(e) => String::from_str("failed to read body: ").concat(e.as_str()),
    };
    Err(ResponseError { status, message })
}

impl IssuesSearchResult {
    /// A page from a decoded body and the pagination header, if one came.
    /// A malformed header leaves the page without links: its items stay,
    /// and traversal ends there.
    pub fn new(response: IssuesResponse, link_header: Option<String>) -> (r: IssuesSearchResult)
        ensures
            r.response == response,
            match link_header {
                None => r.link is None,
                Some(h) => match link_of(h@) {
                    None => r.link is None,
                    Some(m) => r.link is Some && r.link->0@ == m,
                },
            },
    {
        let link = match link_header {
            None => None,
            Some(h) => match parse_link(h) {
                Ok(l) => Some(l),
                Err(_) => None,
            },
        };
        IssuesSearchResult { response, link }
    }

    pub open spec fn next_spec(&self) -> Option<Seq<char>> {
        match self.link {
            Some(l) => opt_view(l.next),
            None => None,
        }
    }

    /// The items of this page.
    pub fn issues(&self) -> (r: &Vec<Issue>)
        ensures
            r == &self.response.items,
    {
        &self.response.items
    }

    /// Gives up this page for the address of the next one, if the header named one.
    pub fn next_page(self) -> (r: Option<String>)
        ensures
            opt_view(r) == self.next_spec(),
    {
        match self.link {
            Some(l) => l.next,
            None => None,
        }
    }
}

} // verus!

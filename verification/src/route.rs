//! The two pages of the site: which one a path leads to, and what the
//! answer of the server says of it.

use vstd::prelude::*;
use vstd::string::StrSliceExecFns;

verus! {

/// The status that the server answers with for a path that leads nowhere.
pub const NOT_FOUND_STATUS: u16 = 404;

/// A page of the site.
#[derive(Clone, Copy, Debug, PartialEq, Eq, Structural)]
pub enum Page {
    /// The list.
    Home,
    /// The page for every path that is not the root.
    NotFound,
}

/// Where a page is rendered.
#[derive(Clone, Copy, Debug, PartialEq, Eq, Structural)]
pub enum Render {
    /// On the server, for the first answer to a request.
    Server,
    /// In the browser, after a navigation that made no request.
    Client,
}

/// Whether `path` is the root path: empty, or a single slash.
pub open spec fn is_root(path: Seq<char>) -> bool {
    path.len() == 0 || (path.len() == 1 && path[0] == '/')
}

/// The page that `path` leads to: the home page for the root path, and the
/// not-found page for any other.
pub open spec fn page_of(path: Seq<char>) -> Page {
    if is_root(path) {
        Page::Home
    } else {
        Page::NotFound
    }
}

/// The status that rendering `page` sets on the answer, if it sets one. Only
/// the not-found page sets one, and only where it is rendered on the server:
/// in the browser there is no answer to set it on. An answer on which none
/// is set goes out as a success.
pub open spec fn status_of(page: Page, render: Render) -> Option<u16> {
    if page == Page::NotFound && render == Render::Server {
        Some(NOT_FOUND_STATUS)
    } else {
        None
    }
}

/// The page that `path` leads to.
pub fn page_for(path: &str) -> (page: Page)
    ensures
        page == page_of(path@),
{
    let len: usize = path.unicode_len();
    if len == 0 {
        Page::Home
    } else if len == 1 && path.get_char(0) == '/' {
        Page::Home
    } else {
        Page::NotFound
    }
}

/// The status that rendering `page` sets on the answer, if it sets one.
pub fn status_for(page: Page, render: Render) -> (status: Option<u16>)
    ensures
        status == status_of(page, render),
{
    match (page, render) {
        (Page::NotFound, Render::Server) => Some(NOT_FOUND_STATUS),
        _ => None,
    }
}

/// The text that the not-found page shows.
pub fn not_found_text() -> (text: &'static str)
    ensures
        text@ == "Not Found"@,
{
    "Not Found"
}

} // verus!

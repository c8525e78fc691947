//! The exploration page: a static page from which queries can be composed and
//! sent to the query endpoint.

use vstd::prelude::*;
use crate::reply::{html_content_type, HttpReply, STATUS_OK};

verus! {

/// The page that `juniper` writes for a query endpoint at `endpoint`, with
/// subscriptions sent to the same place.
pub uninterp spec fn playground_page(endpoint: Seq<char>) -> Seq<char>;

/// The `len` characters of `page` from `start` on.
pub open spec fn window(page: Seq<char>, start: int, len: nat) -> Seq<char> {
    page.subrange(start, start + len)
}

/// `text` stands somewhere in `page`, whole.
pub open spec fn occurs_in(page: Seq<char>, text: Seq<char>) -> bool {
    exists|start: int|
        0 <= start && start + text.len() <= page.len() && #[trigger] window(
            page,
            start,
            text.len(),
        ) == text
}

/// Calls `juniper::http::playground::playground_source`, as `warpgrapher`
/// hands it on, with no endpoint of its own for subscriptions. Nothing is
/// proved of it. The contract gives the result its name, `playground_page`,
/// which is a function of the endpoint alone, and states the one thing that
/// the page is for: the endpoint stands in it, where the library puts it in
/// place of a marker in its fixed text.
#[verifier::external_body]
fn render_playground(endpoint: &str) -> (html: String)
    ensures
        html@ == playground_page(endpoint@),
        occurs_in(html@, endpoint@),
{
    warpgrapher::juniper::http::playground::playground_source(endpoint, None)
}

/// The reply that carries a page.
pub fn page_reply(html: String) -> (reply: HttpReply)
    ensures
        reply.status == STATUS_OK,
        reply.content_type@ == html_content_type(),
        reply.body@ == html@,
{
    HttpReply { status: STATUS_OK, content_type: "text/html; charset=utf-8".to_owned(), body: html }
}

/// The reply of the exploration endpoint: the page for the query endpoint at
/// `endpoint`, as HTML, with the endpoint in it.
pub fn exploration_page(endpoint: &str) -> (reply: HttpReply)
    ensures
        reply.status == STATUS_OK,
        reply.content_type@ == html_content_type(),
        reply.body@ == playground_page(endpoint@),
        occurs_in(reply.body@, endpoint@),
{
    page_reply(render_playground(endpoint))
}

} // verus!

use vstd::prelude::*;

use crate::text::concat;

verus! {

/// The HTTP method of a request to the EgoCMS REST API.
#[derive(Debug, PartialEq, Eq, Structural, Clone, Copy)]
pub enum HttpMethod {
    Get,
    Put,
}

/// One request to the EgoCMS REST API. The library decides what is sent; the caller sends it
/// with a client that keeps the session cookie, and fails on an error status.
pub struct HttpRequest {
    pub method: HttpMethod,
    /// The full URL, without the query.
    pub url: String,
    /// The query parameters, in this order.
    pub query: Vec<(String, String)>,
    /// A JSON document sent as the request body, if any.
    pub json_body: Option<String>,
}

/// What a request holds, as plain values.
pub struct RequestView {
    pub method: HttpMethod,
    pub url: Seq<char>,
    pub query: Seq<(Seq<char>, Seq<char>)>,
    pub json_body: Option<Seq<char>>,
}

impl View for HttpRequest {
    type V = RequestView;

    open spec fn view(&self) -> RequestView {
        RequestView {
            method: self.method,
            url: self.url@,
            query: self.query@.map_values(|p: (String, String)| (p.0@, p.1@)),
            json_body: match self.json_body {
                Some(b) => Some(b@),
                None => None,
            },
        }
    }
}

/// Takes care of the communication with EgoCMS: it knows where the REST API is and who is
/// asking, and says which request each API call is.
pub struct Communicator {
    /// The base URL of the REST API, e.g. `https://localhost/rest/`.
    rest_url: String,
    /// Site-specific calls append this to `rest_url`, e.g. `materialkit/de/`.
    site_url: String,
    /// The id of the user who authors the requests.
    user_id: String,
    /// The token of that user.
    user_token: String,
    /// Whether this is a test environment, in which invalid certificates are accepted.
    is_test_environment: bool,
}

/// What a communicator holds, as plain values.
pub struct CommunicatorView {
    pub rest_url: Seq<char>,
    pub site_url: Seq<char>,
    pub user_id: Seq<char>,
    pub user_token: Seq<char>,
    pub is_test_environment: bool,
}

impl View for Communicator {
    type V = CommunicatorView;

    closed spec fn view(&self) -> CommunicatorView {
        CommunicatorView {
            rest_url: self.rest_url@,
            site_url: self.site_url@,
            user_id: self.user_id@,
            user_token: self.user_token@,
            is_test_environment: self.is_test_environment,
        }
    }
}

/// The request that starts a session: a PUT of `startSession` with the user id and token.
/// The answer sets the session cookie that all later requests carry.
pub open spec fn start_session_request(c: CommunicatorView) -> RequestView {
    RequestView {
        method: HttpMethod::Put,
        url: c.rest_url + "startSession"@,
        query: seq![("user_id"@, c.user_id), ("token"@, c.user_token)],
        json_body: None,
    }
}

/// The request that closes the session: a PUT of `closeSession`.
pub open spec fn close_session_request(c: CommunicatorView) -> RequestView {
    RequestView {
        method: HttpMethod::Put,
        url: c.rest_url + "closeSession"@,
        query: seq![],
        json_body: None,
    }
}

/// The request for a page's information: a GET of the site's `getPage` with the page id.
pub open spec fn get_page_request(c: CommunicatorView, id: Seq<char>) -> RequestView {
    RequestView {
        method: HttpMethod::Get,
        url: c.rest_url + c.site_url + "getPage"@,
        query: seq![("id"@, id)],
        json_body: None,
    }
}

/// The request that replaces the `extra` part of a page: a PUT of `<id>/updateExtra` with
/// the new document as JSON body.
pub open spec fn update_extra_request(
    c: CommunicatorView,
    id: Seq<char>,
    new_extra: Seq<char>,
) -> RequestView {
    RequestView {
        method: HttpMethod::Put,
        url: c.rest_url + c.site_url + id + "/updateExtra"@,
        query: seq![],
        json_body: Some(new_extra),
    }
}

/// Where the page id stands in the URL of an update: after `rest_url` and `site_url`, whole,
/// and then `/updateExtra`; the update is a PUT that carries `new_extra` and no query.
pub proof fn lemma_update_extra_url(c: CommunicatorView, id: Seq<char>, new_extra: Seq<char>)
    ensures
        update_extra_request(c, id, new_extra).url.len() == c.rest_url.len() + c.site_url.len()
            + id.len() + "/updateExtra"@.len(),
        update_extra_request(c, id, new_extra).url.subrange(0, c.rest_url.len() as int)
            == c.rest_url,
        update_extra_request(c, id, new_extra).url.subrange(
            c.rest_url.len() as int,
            (c.rest_url.len() + c.site_url.len()) as int,
        ) == c.site_url,
        update_extra_request(c, id, new_extra).url.subrange(
            (c.rest_url.len() + c.site_url.len()) as int,
            (c.rest_url.len() + c.site_url.len() + id.len()) as int,
        ) == id,
        update_extra_request(c, id, new_extra).url.subrange(
            (c.rest_url.len() + c.site_url.len() + id.len()) as int,
            update_extra_request(c, id, new_extra).url.len() as int,
        ) == "/updateExtra"@,
        update_extra_request(c, id, new_extra).method == HttpMethod::Put,
        update_extra_request(c, id, new_extra).query.len() == 0,
        update_extra_request(c, id, new_extra).json_body == Some(new_extra),
{
    let url = update_extra_request(c, id, new_extra).url;
    let a = c.rest_url.len() as int;
    let b = a + c.site_url.len();
    let e = b + id.len();
    assert(url.subrange(0, a) =~= c.rest_url);
    assert(url.subrange(a, b) =~= c.site_url);
    assert(url.subrange(b, e) =~= id);
    assert(url.subrange(e, url.len() as int) =~= "/updateExtra"@);
}

/// Updates of two different pages never go to the same URL: the URL determines the page id.
pub proof fn lemma_update_extra_urls_differ(
    c: CommunicatorView,
    id1: Seq<char>,
    id2: Seq<char>,
    extra1: Seq<char>,
    extra2: Seq<char>,
)
    ensures
        update_extra_request(c, id1, extra1).url == update_extra_request(c, id2, extra2).url
            ==> id1 == id2,
{
    lemma_update_extra_url(c, id1, extra1);
    lemma_update_extra_url(c, id2, extra2);
}

/// A request for a page goes to `rest_url + site_url + "getPage"`, the same URL for every
/// page, as a GET without body, and its only query parameter is `id` with the whole id.
pub proof fn lemma_get_page_query(c: CommunicatorView, id: Seq<char>)
    ensures
        get_page_request(c, id).method == HttpMethod::Get,
        get_page_request(c, id).url == c.rest_url + c.site_url + "getPage"@,
        get_page_request(c, id).query.len() == 1,
        get_page_request(c, id).query[0].0 == "id"@,
        get_page_request(c, id).query[0].1 == id,
        get_page_request(c, id).json_body is None,
{
}

/// Requests for two different pages are never the same request: the request determines the
/// page id.
pub proof fn lemma_get_page_requests_differ(c: CommunicatorView, id1: Seq<char>, id2: Seq<char>)
    ensures
        get_page_request(c, id1) == get_page_request(c, id2) ==> id1 == id2,
{
    lemma_get_page_query(c, id1);
    lemma_get_page_query(c, id2);
}

impl Communicator {
    /// A communicator for the REST API at `rest_url`, for the site `site_url`, authoring as
    /// `user_id` with `user_token`.
    pub fn new(
        rest_url: String,
        site_url: String,
        user_id: String,
        user_token: String,
        is_test_environment: bool,
    ) -> (c: Communicator)
        ensures
            c@.rest_url == rest_url@,
            c@.site_url == site_url@,
            c@.user_id == user_id@,
            c@.user_token == user_token@,
            c@.is_test_environment == is_test_environment,
    {
        Communicator { rest_url, site_url, user_id, user_token, is_test_environment }
    }

    /// Whether invalid certificates are to be accepted.
    pub fn is_test_environment(&self) -> (b: bool)
        ensures
            b == self@.is_test_environment,
    {
        self.is_test_environment
    }

    /// The request that fully replaces the `extra` part of the page `id` with `new_extra`
    /// (a JSON document). It should be used by first getting `extra`, changing it, and then
    /// sending it back.
    pub fn update_extra(&self, id: &str, new_extra: String) -> (r: HttpRequest)
        ensures
            r@ == update_extra_request(self@, id@, new_extra@),
    {
        let base = concat(self.rest_url.as_str(), self.site_url.as_str());
        let with_id = concat(base.as_str(), id);
        let url = concat(with_id.as_str(), "/updateExtra");
        let query: Vec<(String, String)> = Vec::new();
        let r = HttpRequest { method: HttpMethod::Put, url, query, json_body: Some(new_extra) };
        assert(r@.query =~= Seq::<(Seq<char>, Seq<char>)>::empty());
        r
    }

    /// The request for the information of the page `id`, like its content.
    pub fn get_page(&self, id: &str) -> (r: HttpRequest)
        ensures
            r@ == get_page_request(self@, id@),
    {
        let base = concat(self.rest_url.as_str(), self.site_url.as_str());
        let url = concat(base.as_str(), "getPage");
        let query: Vec<(String, String)> = vec![("id".to_owned(), id.to_owned())];
        let r = HttpRequest { method: HttpMethod::Get, url, query, json_body: None };
        assert(r@.query =~= seq![("id"@, id@)]);
        r
    }

    /// The request that starts the session.
    pub fn start_session(&self) -> (r: HttpRequest)
        ensures
            r@ == start_session_request(self@),
    {
        let url = concat(self.rest_url.as_str(), "startSession");
        let query: Vec<(String, String)> = vec![
            ("user_id".to_owned(), self.user_id.clone()),
            ("token".to_owned(), self.user_token.clone()),
        ];
        let r = HttpRequest { method: HttpMethod::Put, url, query, json_body: None };
        assert(r@.query =~= seq![("user_id"@, self@.user_id), ("token"@, self@.user_token)]);
        r
    }

    /// The request that closes the session.
    pub fn close_session(&self) -> (r: HttpRequest)
        ensures
            r@ == close_session_request(self@),
    {
        let url = concat(self.rest_url.as_str(), "closeSession");
        let query: Vec<(String, String)> = Vec::new();
        let r = HttpRequest { method: HttpMethod::Put, url, query, json_body: None };
        assert(r@.query =~= Seq::<(Seq<char>, Seq<char>)>::empty());
        r
    }
}

} // verus!

//! Requests to a Paperless-ngx server: the request and response records, the
//! `Transport` that carries them, and the `ApiClient` that builds requests
//! and reads JSON answers.
use vstd::prelude::*;

use crate::error::AppError;
use crate::json::{
    decode_json, entries_get, json_array, json_decoding, json_get, json_str, JsonValue,
};
use crate::text::{chars_equal, chars_of, string_of};

verus! {

broadcast use vstd::string::group_string_axioms;

#[derive(Clone, Copy, Debug, PartialEq, Eq, Structural)]
pub enum HttpMethod {
    Get,
    Post,
    Patch,
    Put,
    Delete,
}

/// Where a request goes: a path below the API root, or a full URL (as the
/// server hands out for the next page of a listing).
pub enum Endpoint {
    Relative(String),
    Absolute(String),
}

pub struct RequestData {
    pub method: HttpMethod,
    pub endpoint: Endpoint,
    pub query: Vec<(String, String)>,
    pub json_body: Option<JsonValue>,
    /// A multipart form to send instead of a JSON body.
    pub form: Option<UploadForm>,
}

/// A multipart form: text fields and the local file to attach as
/// `document`.
pub struct UploadForm {
    pub fields: Vec<(String, String)>,
    pub file_path: String,
}

#[derive(Debug)]
pub struct ResponseData {
    pub status: u16,
    pub url: String,
    /// Header names (lower case) and values; no name occurs twice.
    pub headers: Vec<(String, String)>,
    pub body: Vec<u8>,
}

/// The texts of a list of pairs of strings.
pub open spec fn pairs_view(pairs: Seq<(String, String)>) -> Seq<(Seq<char>, Seq<char>)> {
    pairs.map_values(|p: (String, String)| (p.0@, p.1@))
}

/// The value of the first header with the given name.
pub open spec fn header_value(headers: Seq<(String, String)>, name: Seq<char>) -> Option<Seq<char>>
    decreases headers.len(),
{
    if headers.len() == 0 {
        None
    } else if headers[0].0@ == name {
        Some(headers[0].1@)
    } else {
        header_value(headers.drop_first(), name)
    }
}

/// Looks a header up by name.
pub fn find_header(headers: &Vec<(String, String)>, name: &str) -> (res: Option<String>)
    ensures
        match res {
            Some(v) => header_value(headers@, name@) == Some(v@),
            None => header_value(headers@, name@) is None,
        },
{
    let key = chars_of(name);
    let mut i: usize = 0;
    assert(headers@.skip(0) =~= headers@);
    while i < headers.len()
        invariant
            i <= headers@.len(),
            key@ == name@,
            header_value(headers@, name@) == header_value(headers@.skip(i as int), name@),
        decreases headers@.len() - i,
    {
        let ghost rest = headers@.skip(i as int);
        assert(rest[0] == headers@[i as int]);
        let candidate = chars_of(headers[i].0.as_str());
        if chars_equal(candidate.as_slice(), key.as_slice()) {
            let value = chars_of(headers[i].1.as_str());
            return Some(string_of(value.as_slice()));
        }
        assert(rest.drop_first() =~= headers@.skip(i + 1));
        i = i + 1;
    }
    None
}

/// Carries requests to a server and brings back its answers. A transport
/// reports error statuses as `AppError::Http`.
pub trait Transport {
    /// Whether `res` is an answer that this transport may give to `request`.
    spec fn answers(&self, request: RequestData, res: Result<ResponseData, AppError>) -> bool;

    fn send(&self, request: RequestData) -> (res: Result<ResponseData, AppError>)
        ensures
            self.answers(request, res),
    ;
}

/// `r` is a request of `method` to `path` below the API root, with the
/// query pairs and JSON body given.
pub open spec fn is_request_to(
    r: RequestData,
    method: HttpMethod,
    path: Seq<char>,
    query: Seq<(Seq<char>, Seq<char>)>,
    body: Option<JsonValue>,
) -> bool {
    &&& r.method == method
    &&& r.endpoint matches Endpoint::Relative(p) && p@ == path
    &&& pairs_view(r.query@) == query
    &&& r.json_body == body
    &&& r.form is None
}

/// `r` is the upload of the file at `file` with the form fields given, to
/// `path` below the API root.
pub open spec fn is_upload_to(
    r: RequestData,
    path: Seq<char>,
    fields: Seq<(Seq<char>, Seq<char>)>,
    file: Seq<char>,
) -> bool {
    &&& r.method == HttpMethod::Post
    &&& r.endpoint matches Endpoint::Relative(p) && p@ == path
    &&& r.query@.len() == 0
    &&& r.json_body is None
    &&& r.form matches Some(f) && pairs_view(f.fields@) == fields && f.file_path@ == file
}

/// `res` is what the transport answered to such an upload.
pub open spec fn sent_upload<T: Transport>(
    t: T,
    path: Seq<char>,
    fields: Seq<(Seq<char>, Seq<char>)>,
    file: Seq<char>,
    res: Result<ResponseData, AppError>,
) -> bool {
    exists|r: RequestData| #[trigger] is_upload_to(r, path, fields, file) && t.answers(r, res)
}

/// `res` is the JSON that the answer to such an upload holds.
pub open spec fn upload_reply<T: Transport>(
    t: T,
    path: Seq<char>,
    fields: Seq<(Seq<char>, Seq<char>)>,
    file: Seq<char>,
    res: Result<JsonValue, AppError>,
) -> bool {
    match res {
        Ok(v) => exists|r: ResponseData|
            #[trigger] sent_upload(t, path, fields, file, Ok(r)) && json_decoding(r.body@) == Some(v),
        Err(e) => sent_upload(t, path, fields, file, Err(e)) || exists|r: ResponseData|
            #[trigger] sent_upload(t, path, fields, file, Ok(r)) && json_decoding(r.body@) is None
                && e is Json,
    }
}

/// `res` is what the transport answered to a request of `method` to `path`.
pub open spec fn sent<T: Transport>(
    t: T,
    method: HttpMethod,
    path: Seq<char>,
    query: Seq<(Seq<char>, Seq<char>)>,
    body: Option<JsonValue>,
    res: Result<ResponseData, AppError>,
) -> bool {
    exists|r: RequestData| #[trigger] is_request_to(r, method, path, query, body) && t.answers(r, res)
}

/// `res` is the JSON that the answer to such a request holds: the decoded
/// body of a successful answer, the transport's error, or the error of a
/// body that is no JSON.
pub open spec fn json_reply<T: Transport>(
    t: T,
    method: HttpMethod,
    path: Seq<char>,
    query: Seq<(Seq<char>, Seq<char>)>,
    body: Option<JsonValue>,
    res: Result<JsonValue, AppError>,
) -> bool {
    match res {
        Ok(v) => exists|r: ResponseData|
            #[trigger] sent(t, method, path, query, body, Ok(r)) && json_decoding(r.body@) == Some(v),
        Err(e) => sent(t, method, path, query, body, Err(e)) || exists|r: ResponseData|
            #[trigger] sent(t, method, path, query, body, Ok(r)) && json_decoding(r.body@) is None
                && e is Json,
    }
}

/// Success or failure as the transport answered such a request, the body
/// of the answer set aside.
pub open spec fn unit_reply<T: Transport>(
    t: T,
    method: HttpMethod,
    path: Seq<char>,
    res: Result<(), AppError>,
) -> bool {
    match res {
        Ok(_) => exists|r: ResponseData| #[trigger] sent(t, method, path, Seq::empty(), None, Ok(r)),
        Err(e) => sent(t, method, path, Seq::empty(), None, Err(e)),
    }
}

/// The items of one page of a listing: the elements of an array answer, or
/// the `results` array of a paginated answer.
pub open spec fn page_items_spec(page: JsonValue) -> Seq<JsonValue> {
    match page {
        JsonValue::Array(items) => items@,
        _ => match json_array(json_get(page, "results"@)) {
            Some(items) => items,
            None => Seq::empty(),
        },
    }
}

/// The URL of the next page of a paginated answer.
pub open spec fn next_page_spec(page: JsonValue) -> Option<Seq<char>> {
    json_str(json_get(page, "next"@))
}

/// Moves the value stored under `key` out of a list of object entries.
fn take_entry(entries: &mut Vec<(String, JsonValue)>, key: &str) -> (res: Option<JsonValue>)
    ensures
        res == entries_get(old(entries)@, key@),
{
    let k = chars_of(key);
    let mut i: usize = 0;
    assert(entries@.skip(0) =~= entries@);
    while i < entries.len()
        invariant
            i <= entries@.len(),
            k@ == key@,
            entries@ == old(entries)@,
            entries_get(entries@, key@) == entries_get(entries@.skip(i as int), key@),
        decreases entries@.len() - i,
    {
        let ghost rest = entries@.skip(i as int);
        assert(rest[0] == entries@[i as int]);
        let name = chars_of(entries[i].0.as_str());
        if chars_equal(name.as_slice(), k.as_slice()) {
            let (_, v) = entries.remove(i);
            return Some(v);
        }
        assert(rest.drop_first() =~= entries@.skip(i + 1));
        i = i + 1;
    }
    None
}

/// Splits one page of a listing into its items and the URL of the next page.
pub fn split_page(page: JsonValue) -> (res: (Vec<JsonValue>, Option<String>))
    ensures
        res.0@ == page_items_spec(page),
        match res.1 {
            Some(url) => next_page_spec(page) == Some(url@),
            None => next_page_spec(page) is None,
        },
{
    match page {
        JsonValue::Array(items) => (items, None),
        JsonValue::Object(entries) => {
            let next = find_string_entry(&entries, "next");
            let mut entries = entries;
            let items = match take_entry(&mut entries, "results") {
                Some(JsonValue::Array(items)) => items,
                _ => Vec::new(),
            };
            (items, next)
        },
        _ => (Vec::new(), None),
    }
}

/// The text of the string stored under `key`, copied.
fn find_string_entry(entries: &Vec<(String, JsonValue)>, key: &str) -> (res: Option<String>)
    ensures
        match entries_get(entries@, key@) {
            Some(JsonValue::String(s)) => res matches Some(t) && t@ == s@,
            _ => res is None,
        },
{
    let obj_key = chars_of(key);
    let mut i: usize = 0;
    assert(entries@.skip(0) =~= entries@);
    while i < entries.len()
        invariant
            i <= entries@.len(),
            obj_key@ == key@,
            entries_get(entries@, key@) == entries_get(entries@.skip(i as int), key@),
        decreases entries@.len() - i,
    {
        let ghost rest = entries@.skip(i as int);
        assert(rest[0] == entries@[i as int]);
        let name = chars_of(entries[i].0.as_str());
        if chars_equal(name.as_slice(), obj_key.as_slice()) {
            return match &entries[i].1 {
                JsonValue::String(s) => {
                    let cs = chars_of(s.as_str());
                    Some(string_of(cs.as_slice()))
                },
                _ => None,
            };
        }
        assert(rest.drop_first() =~= entries@.skip(i + 1));
        i = i + 1;
    }
    None
}


/// A client of the Paperless-ngx REST API over some transport.
pub struct ApiClient<T: Transport> {
    pub transport: T,
}

impl<T: Transport> ApiClient<T> {
    pub fn new(transport: T) -> (client: Self)
        ensures
            client.transport == transport,
    {
        ApiClient { transport }
    }

    /// Sends a request to a path below the API root.
    pub fn request(
        &self,
        method: HttpMethod,
        path: &str,
        query: Vec<(String, String)>,
        json_body: Option<JsonValue>,
    ) -> (res: Result<ResponseData, AppError>)
        ensures
            sent(self.transport, method, path@, pairs_view(query@), json_body, res),
    {
        let p = chars_of(path);
        let request = RequestData {
            method,
            endpoint: Endpoint::Relative(string_of(p.as_slice())),
            query,
            json_body,
            form: None,
        };
        let ghost r = request;
        assert(is_request_to(r, method, path@, pairs_view(query@), json_body));
        self.transport.send(request)
    }

    /// The raw answer to a GET request.
    pub fn get_raw(&self, path: &str, query: Vec<(String, String)>) -> (res: Result<ResponseData, AppError>)
        ensures
            sent(self.transport, HttpMethod::Get, path@, pairs_view(query@), None, res),
    {
        self.request(HttpMethod::Get, path, query, None)
    }

    /// The JSON of an answer.
    fn json_of(
        response: Result<ResponseData, AppError>,
        Ghost(t): Ghost<T>,
        Ghost(method): Ghost<HttpMethod>,
        Ghost(path): Ghost<Seq<char>>,
        Ghost(query): Ghost<Seq<(Seq<char>, Seq<char>)>>,
        Ghost(body): Ghost<Option<JsonValue>>,
    ) -> (res: Result<JsonValue, AppError>)
        requires
            sent(t, method, path, query, body, response),
        ensures
            json_reply(t, method, path, query, body, res),
    {
        match response {
            Ok(r) => {
                let ghost raw = r;
                let decoded = decode_json(r.body.as_slice());
                assert(sent(t, method, path, query, body, Ok(raw)));
                decoded
            },
            Err(e) => Err(e),
        }
    }

    /// The JSON answer to a GET request.
    pub fn get_json(&self, path: &str, query: Vec<(String, String)>) -> (res: Result<
        JsonValue,
        AppError,
    >)
        ensures
            json_reply(self.transport, HttpMethod::Get, path@, pairs_view(query@), None, res),
    {
        let ghost q = pairs_view(query@);
        let response = self.get_raw(path, query);
        Self::json_of(response, Ghost(self.transport), Ghost(HttpMethod::Get), Ghost(path@), Ghost(q), Ghost(None))
    }

    /// The raw answer to a POST request with a JSON body.
    pub fn post_json_raw(&self, path: &str, body: JsonValue) -> (res: Result<ResponseData, AppError>)
        ensures
            sent(self.transport, HttpMethod::Post, path@, Seq::empty(), Some(body), res),
    {
        let query: Vec<(String, String)> = Vec::new();
        assert(pairs_view(query@) =~= Seq::<(Seq<char>, Seq<char>)>::empty());
        self.request(HttpMethod::Post, path, query, Some(body))
    }

    /// The JSON answer to a POST request with a JSON body.
    pub fn post_json(&self, path: &str, body: JsonValue) -> (res: Result<JsonValue, AppError>)
        ensures
            json_reply(self.transport, HttpMethod::Post, path@, Seq::empty(), Some(body), res),
    {
        let ghost b = body;
        let response = self.post_json_raw(path, body);
        Self::json_of(
            response,
            Ghost(self.transport),
            Ghost(HttpMethod::Post),
            Ghost(path@),
            Ghost(Seq::empty()),
            Ghost(Some(b)),
        )
    }

    /// The JSON answer to a PATCH request with a JSON body.
    pub fn patch_json(&self, path: &str, body: JsonValue) -> (res: Result<JsonValue, AppError>)
        ensures
            json_reply(self.transport, HttpMethod::Patch, path@, Seq::empty(), Some(body), res),
    {
        let ghost b = body;
        let query: Vec<(String, String)> = Vec::new();
        assert(pairs_view(query@) =~= Seq::<(Seq<char>, Seq<char>)>::empty());
        let response = self.request(HttpMethod::Patch, path, query, Some(body));
        Self::json_of(
            response,
            Ghost(self.transport),
            Ghost(HttpMethod::Patch),
            Ghost(path@),
            Ghost(Seq::empty()),
            Ghost(Some(b)),
        )
    }

    /// A DELETE request; its answer carries no data.
    pub fn delete(&self, path: &str) -> (res: Result<(), AppError>)
        ensures
            unit_reply(self.transport, HttpMethod::Delete, path@, res),
    {
        let query: Vec<(String, String)> = Vec::new();
        assert(pairs_view(query@) =~= Seq::<(Seq<char>, Seq<char>)>::empty());
        match self.request(HttpMethod::Delete, path, query, None) {
            Ok(r) => {
                let ghost raw = r;
                assert(sent(self.transport, HttpMethod::Delete, path@, Seq::empty(), None, Ok(raw)));
                Ok(())
            },
            Err(e) => Err(e),
        }
    }

    /// The JSON answer to a multipart upload of a local file with form fields.
    pub fn post_multipart(&self, path: &str, fields: Vec<(String, String)>, file_path: String) -> (res:
        Result<JsonValue, AppError>)
        ensures
            upload_reply(self.transport, path@, pairs_view(fields@), file_path@, res),
    {
        let ghost fv = pairs_view(fields@);
        let ghost file = file_path@;
        let p = chars_of(path);
        let query: Vec<(String, String)> = Vec::new();
        let request = RequestData {
            method: HttpMethod::Post,
            endpoint: Endpoint::Relative(string_of(p.as_slice())),
            query,
            json_body: None,
            form: Some(UploadForm { fields, file_path }),
        };
        let ghost r = request;
        assert(is_upload_to(r, path@, fv, file));
        match self.transport.send(request) {
            Ok(response) => {
                let ghost raw = response;
                assert(sent_upload(self.transport, path@, fv, file, Ok(raw)));
                decode_json(response.body.as_slice())
            },
            Err(e) => Err(e),
        }
    }

    /// The server's status (`GET status/`), which also checks the credentials.
    pub fn ping(&self, _base_url: &str) -> (res: Result<JsonValue, AppError>)
        ensures
            json_reply(self.transport, HttpMethod::Get, "status/"@, Seq::empty(), None, res),
    {
        let query: Vec<(String, String)> = Vec::new();
        assert(pairs_view(query@) =~= Seq::<(Seq<char>, Seq<char>)>::empty());
        self.get_json("status/", query)
    }

    /// Every item of a listing: the items of the first page, then of each page
    /// that the previous one names as `next`. Stops with an error, rather than
    /// run without end, if a server hands out `usize::MAX` next pages.
    pub fn paginate(&self, path: &str, query: Vec<(String, String)>) -> (res: Result<
        Vec<JsonValue>,
        AppError,
    >)
        ensures
            match res {
                Ok(items) => listed(self.transport, path@, pairs_view(query@), items@),
                Err(e) => listing_error(self.transport, path@, pairs_view(query@), e),
            },
    {
        let ghost q = pairs_view(query@);
        let ghost t = self.transport;
        let first = match self.get_json(path, query) {
            Ok(v) => v,
            Err(e) => {
                return Err(e);
            },
        };
        let ghost v0 = first;
        assert(first_page(t, path@, q, v0));
        let (mut items, mut next) = split_page(first);
        let ghost mut urls: Seq<Seq<char>> = Seq::empty();
        let ghost mut pages: Seq<JsonValue> = seq![v0];
        assert(pages.drop_last() =~= Seq::<JsonValue>::empty());
        assert(chain_items(Seq::<JsonValue>::empty()) =~= Seq::<JsonValue>::empty());
        assert(chain_items(pages) =~= page_items_spec(v0));
        let mut pages_left: usize = usize::MAX;
        loop
            invariant
                t == self.transport,
                q == pairs_view(query@),
                page_chain(t, path@, q, urls, pages),
                items@ == chain_items(pages),
                text_view(next) == next_page_spec(pages.last()),
                pages_left + urls.len() == usize::MAX,
            decreases pages_left,
        {
            match next {
                None => {
                    assert(listed(t, path@, q, items@));
                    return Ok(items);
                },
                Some(url) => {
                    if pages_left == 0 {
                        assert(page_chain(t, path@, q, urls, pages));
                        return Err(
                            AppError::Message(string_of(chars_of("Pagination did not end.").as_slice())),
                        );
                    }
                    pages_left = pages_left - 1;
                    let ghost url_view = url@;
                    let ghost before = items@;
                    let request = RequestData {
                        method: HttpMethod::Get,
                        endpoint: Endpoint::Absolute(url),
                        query: Vec::new(),
                        json_body: None,
                        form: None,
                    };
                    let ghost r = request;
                    assert(is_page_request(r, url_view));
                    assert(page_chain(t, path@, q, urls, pages));
                    let response = match self.transport.send(request) {
                        Ok(response) => response,
                        Err(e) => {
                            assert(page_failed(t, url_view, e));
                            return Err(e);
                        },
                    };
                    let ghost raw = response;
                    let page = match decode_json(response.body.as_slice()) {
                        Ok(page) => page,
                        Err(e) => {
                            assert(t.answers(r, Ok(raw)));
                            assert(page_failed(t, url_view, e));
                            return Err(e);
                        },
                    };
                    let ghost v = page;
                    assert(t.answers(r, Ok(raw)));
                    assert(page_at(t, url_view, v));
                    let (mut page_items, page_next) = split_page(page);
                    items.append(&mut page_items);
                    next = page_next;
                    proof {
                        let old_pages = pages;
                        let old_urls = urls;
                        urls = urls.push(url_view);
                        pages = pages.push(v);
                        assert(pages.drop_last() =~= old_pages);
                        assert forall|i: int| 0 <= i < urls.len() implies next_page_spec(#[trigger] pages[i])
                            == Some(urls[i]) && page_at(t, urls[i], pages[i + 1]) by {
                            if i < old_urls.len() {
                                assert(pages[i] == old_pages[i]);
                                assert(pages[i + 1] == old_pages[i + 1]);
                                assert(next_page_spec(old_pages[i]) == Some(old_urls[i]));
                            } else {
                                assert(pages[i] == old_pages.last());
                            }
                        }
                    }
                },
            }
        }
    }
}

/// The text of an optional string.
pub open spec fn text_view(s: Option<String>) -> Option<Seq<char>> {
    match s {
        Some(x) => Some(x@),
        None => None,
    }
}

/// `r` is a GET request for the full URL `url`, with nothing else.
pub open spec fn is_page_request(r: RequestData, url: Seq<char>) -> bool {
    &&& r.method == HttpMethod::Get
    &&& r.endpoint matches Endpoint::Absolute(u) && u@ == url
    &&& r.query@.len() == 0
    &&& r.json_body is None
    &&& r.form is None
}

/// The JSON of the answer to a GET request for a full URL.
pub open spec fn page_at<T: Transport>(t: T, url: Seq<char>, v: JsonValue) -> bool {
    exists|r: RequestData, res: ResponseData|
        #![trigger is_page_request(r, url), t.answers(r, Ok(res))]
        is_page_request(r, url) && t.answers(r, Ok(res)) && json_decoding(res.body@) == Some(v)
}

/// The GET request for the full URL `url` failed with `e`: the transport
/// answered `e`, or its answer held no JSON.
pub open spec fn page_failed<T: Transport>(t: T, url: Seq<char>, e: AppError) -> bool {
    exists|r: RequestData|
        #[trigger] is_page_request(r, url) && (t.answers(r, Err(e)) || exists|res: ResponseData|
            #[trigger] t.answers(r, Ok(res)) && json_decoding(res.body@) is None && e is Json)
}

/// The message of a listing stopped after `usize::MAX` next pages.
pub open spec fn endless_listing_message() -> Seq<char> {
    "Pagination did not end."@
}

/// Why a listing at `path` stopped: the request for the first page failed;
/// or, after a chain of pages, the request for the next page that the last
/// one names failed; or the chain grew to `usize::MAX` next pages and its
/// last page still names another.
pub open spec fn listing_error<T: Transport>(
    t: T,
    path: Seq<char>,
    query: Seq<(Seq<char>, Seq<char>)>,
    e: AppError,
) -> bool {
    ||| json_reply(t, HttpMethod::Get, path, query, None, Err(e))
    ||| exists|urls: Seq<Seq<char>>, pages: Seq<JsonValue>, url: Seq<char>|
        #![trigger page_chain(t, path, query, urls, pages), page_failed(t, url, e)]
        page_chain(t, path, query, urls, pages) && next_page_spec(pages.last()) == Some(url)
            && page_failed(t, url, e)
    ||| exists|urls: Seq<Seq<char>>, pages: Seq<JsonValue>|
        #[trigger] page_chain(t, path, query, urls, pages) && urls.len() == usize::MAX
            && next_page_spec(pages.last()) is Some && (e matches AppError::Message(m)
            && m@ == endless_listing_message())
}

/// The pages of a listing at `path`: the first answers the request for it,
/// and each other one answers a GET of the URL that the page before names
/// as `next`.
pub open spec fn page_chain<T: Transport>(
    t: T,
    path: Seq<char>,
    query: Seq<(Seq<char>, Seq<char>)>,
    urls: Seq<Seq<char>>,
    pages: Seq<JsonValue>,
) -> bool {
    &&& pages.len() == urls.len() + 1
    &&& first_page(t, path, query, pages[0])
    &&& forall|i: int|
        0 <= i < urls.len() ==> next_page_spec(#[trigger] pages[i]) == Some(urls[i]) && page_at(
            t,
            urls[i],
            pages[i + 1],
        )
}

/// The items of the pages, one page after the other.
pub open spec fn chain_items(pages: Seq<JsonValue>) -> Seq<JsonValue>
    decreases pages.len(),
{
    if pages.len() == 0 {
        Seq::empty()
    } else {
        chain_items(pages.drop_last()) + page_items_spec(pages.last())
    }
}

/// `items` are every item of a listing at `path`: the items of a chain of
/// pages whose last page names no next page.
pub open spec fn listed<T: Transport>(
    t: T,
    path: Seq<char>,
    query: Seq<(Seq<char>, Seq<char>)>,
    items: Seq<JsonValue>,
) -> bool {
    exists|urls: Seq<Seq<char>>, pages: Seq<JsonValue>|
        #[trigger] page_chain(t, path, query, urls, pages) && items == chain_items(pages)
            && next_page_spec(pages.last()) is None
}

/// The first page of a listing: the JSON of the answer to the request for
/// it.
pub open spec fn first_page<T: Transport>(
    t: T,
    path: Seq<char>,
    query: Seq<(Seq<char>, Seq<char>)>,
    v: JsonValue,
) -> bool {
    exists|r: ResponseData| #[trigger]
        sent(t, HttpMethod::Get, path, query, None, Ok(r)) && json_decoding(r.body@) == Some(v)
}

} // verus!

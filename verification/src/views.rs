//! The benchmark endpoints that answer from the request alone or from the
//! shared state: plain text sums, upload sizes, the JSON dataset, static
//! assets, and the responses that several endpoints share.

use vstd::prelude::*;
use vstd::utf8::encode_utf8;
use crate::request::{Request, query_i64, spec_query_i64_default};
use crate::response::{Response, JsonReply, response, text_response, headers_view, base_headers, OK, NOT_FOUND, INTERNAL_SERVER_ERROR, SERVICE_UNAVAILABLE};
use crate::strings::{decimal_text, format_i64, format_u64, parse_body_i64, spec_body_i64};
use crate::models::{DatasetItem, ProcessedItem, JsonResponse, RatingOut};
use crate::services::ArenaState;
use crate::static_files::{safe_static_path, spec_safe_static_path, content_type, spec_content_type};

verus! {

/// Whether `r` is a `text/plain` response with status `status` and body `text`.
pub open spec fn is_text_response(r: Response, status: u16, text: Seq<char>) -> bool {
    &&& r.status == status
    &&& headers_view(r.headers@) == base_headers("text/plain"@)
    &&& r.body@ == encode_utf8(text)
}

/// `200 ok`.
pub fn pipeline() -> (r: Response)
    ensures
        is_text_response(r, 200, "ok"@),
{
    text_response(OK, "ok")
}

/// The value of query parameter `key`, 0 where it is missing or not an integer.
pub open spec fn query_value(request: Request, key: Seq<char>) -> i64 {
    spec_query_i64_default(request.query_params@, key, 0)
}

/// Whether `a + b + body_value` can be computed in `i64`, left to right.
pub open spec fn sum_fits(request: Request, body_value: i64) -> bool {
    let a = query_value(request, "a"@);
    let b = query_value(request, "b"@);
    &&& i64::MIN <= a + b <= i64::MAX
    &&& i64::MIN <= a + b + body_value <= i64::MAX
}

/// `200` with the sum of query parameters `a` and `b` and `body_value`.
pub fn sum_response(request: &Request, body_value: i64) -> (r: Response)
    requires
        sum_fits(*request, body_value),
    ensures
        is_text_response(
            r,
            200,
            decimal_text(query_value(*request, "a"@) + query_value(*request, "b"@) + body_value),
        ),
{
    let a = query_i64(request, "a");
    let b = query_i64(request, "b");
    let total = a + b + body_value;
    let text = format_i64(total);
    text_response(OK, text.as_str())
}

/// `GET /baseline11`: the sum of query parameters `a` and `b`.
pub fn baseline11(request: &Request) -> (r: Response)
    requires
        sum_fits(*request, 0),
    ensures
        is_text_response(r, 200, decimal_text(query_value(*request, "a"@) + query_value(*request, "b"@))),
{
    sum_response(request, 0)
}

/// `POST /baseline11`: the sum of query parameters `a` and `b` and of the
/// integer in the body (0 where the body holds none).
pub fn baseline11_post(request: &Request) -> (r: Response)
    requires
        sum_fits(*request, spec_body_i64(request.body@)),
    ensures
        is_text_response(
            r,
            200,
            decimal_text(
                query_value(*request, "a"@) + query_value(*request, "b"@) + spec_body_i64(request.body@),
            ),
        ),
{
    let body_value = parse_body_i64(request.body.as_slice());
    sum_response(request, body_value)
}

/// `GET /baseline2`: the sum of query parameters `a` and `b`.
pub fn baseline2(request: &Request) -> (r: Response)
    requires
        sum_fits(*request, 0),
    ensures
        is_text_response(r, 200, decimal_text(query_value(*request, "a"@) + query_value(*request, "b"@))),
{
    sum_response(request, 0)
}

/// `POST /upload`: the number of bytes received.
pub fn upload(request: &Request) -> (r: Response)
    ensures
        is_text_response(r, 200, decimal_text(request.body@.len() as int)),
{
    let text = format_u64(request.body.len() as u64);
    text_response(OK, text.as_str())
}

/// `404 Not Found`.
pub fn not_found_response() -> (r: Response)
    ensures
        is_text_response(r, 404, "Not Found"@),
{
    text_response(NOT_FOUND, "Not Found")
}

/// `400 Bad Request`, the answer to a path parameter or a JSON body that
/// does not parse.
pub fn bad_request_response() -> (r: Response)
    ensures
        is_text_response(r, 400, "Bad Request"@),
{
    text_response(400, "Bad Request")
}

/// `503 Database unavailable`.
pub fn unavailable_response() -> (r: Response)
    ensures
        is_text_response(r, 503, "Database unavailable"@),
{
    text_response(SERVICE_UNAVAILABLE, "Database unavailable")
}

/// `500 Database error`, the answer to any failed database operation.
pub fn database_error_response() -> (r: Response)
    ensures
        is_text_response(r, 500, "Database error"@),
{
    text_response(INTERNAL_SERVER_ERROR, "Database error")
}

/// An `application/json` response with the given encoded body.
pub fn json_body_response(status: u16, body: Vec<u8>) -> (r: Response)
    ensures
        r.status == status,
        headers_view(r.headers@) == base_headers("application/json"@),
        r.body@ == body@,
{
    response(status, "application/json", body)
}

// ---------------------------------------------------------------------------
// GET /json/{count}

/// The multiplier of the totals: query parameter `m`, at least 1.
pub open spec fn json_multiplier(request: Request) -> i64 {
    let m = query_value(request, "m"@);
    if m < 1 {
        1
    } else {
        m
    }
}

/// How many dataset entries the endpoint sends for path parameter `count`.
pub open spec fn json_count(count: usize, dataset_len: nat) -> nat {
    if count < dataset_len {
        count as nat
    } else {
        dataset_len
    }
}

/// Whether the totals of the first `n` entries fit in `i64`.
pub open spec fn totals_fit(dataset: Seq<DatasetItem>, n: nat, m: i64) -> bool {
    forall|i: int|
        0 <= i < n ==> {
            &&& i64::MIN <= #[trigger] dataset[i].price * dataset[i].quantity <= i64::MAX
            &&& i64::MIN <= dataset[i].price * dataset[i].quantity * m <= i64::MAX
        }
}

/// Whether `p` is dataset entry `d` as the endpoint sends it, with multiplier `m`.
pub open spec fn processed_from(p: ProcessedItem, d: DatasetItem, m: i64) -> bool {
    &&& p.id == d.id
    &&& p.name@ == d.name@
    &&& p.category@ == d.category@
    &&& p.price == d.price
    &&& p.quantity == d.quantity
    &&& p.active == d.active
    &&& p.tags@ == d.tags@
    &&& p.rating.score == d.rating.score
    &&& p.rating.count == d.rating.count
    &&& p.total == d.price * d.quantity * m
}

/// `GET /json/{count}`: `200` with the first `count` dataset entries (all of them where
/// there are fewer), each with its total `price * quantity * m`, where the
/// multiplier `m` is query parameter `m` and at least 1.
pub fn json_endpoint<'a>(state: &'a ArenaState, count: usize, request: &Request) -> (reply: JsonReply<JsonResponse<'a>>)
    requires
        totals_fit(
            state.spec_dataset(),
            json_count(count, state.spec_dataset().len()),
            json_multiplier(*request),
        ),
    ensures
        reply.status == 200,
        reply.payload.count == json_count(count, state.spec_dataset().len()),
        reply.payload.items@.len() == reply.payload.count,
        forall|i: int|
            0 <= i < reply.payload.items@.len() ==> processed_from(
                #[trigger] reply.payload.items@[i],
                state.spec_dataset()[i],
                json_multiplier(*request),
            ),
{
    let m = query_i64(request, "m");
    let multiplier = if m < 1 { 1 } else { m };
    let dataset = state.dataset();
    let n = if count < dataset.len() { count } else { dataset.len() };
    let mut items: Vec<ProcessedItem<'a>> = Vec::new();
    let mut i: usize = 0;
    while i < n
        invariant
            i <= n <= dataset@.len(),
            dataset@ == state.spec_dataset(),
            multiplier == json_multiplier(*request),
            totals_fit(dataset@, n as nat, multiplier),
            items@.len() == i,
            forall|k: int| 0 <= k < i ==> processed_from(#[trigger] items@[k], dataset@[k], multiplier),
        decreases n - i,
    {
        let item = &dataset[i];
        assert(i64::MIN <= dataset@[i as int].price * dataset@[i as int].quantity <= i64::MAX);
        let per_unit = item.price * item.quantity;
        let total = per_unit * multiplier;
        items.push(
            ProcessedItem {
                id: item.id,
                name: item.name.as_str(),
                category: item.category.as_str(),
                price: item.price,
                quantity: item.quantity,
                active: item.active,
                tags: item.tags.as_slice(),
                rating: RatingOut { score: item.rating.score, count: item.rating.count },
                total,
            },
        );
        i = i + 1;
    }
    JsonReply { status: OK, payload: JsonResponse { items, count: n } }
}

// ---------------------------------------------------------------------------
// GET /static/{path}

/// `GET /static/{path}`: the file to send and its content type, or `404 Not
/// Found` where the path would leave the static directory.
pub fn static_file(state: &ArenaState, path: &str) -> (r: Result<(String, &'static str), Response>)
    ensures
        r matches Ok((file, ct)) ==> spec_safe_static_path(state.spec_static_dir(), path@) == Some(file@)
            && ct@ == spec_content_type(file@),
        r matches Err(resp) ==> spec_safe_static_path(state.spec_static_dir(), path@) is None
            && is_text_response(resp, 404, "Not Found"@),
{
    match safe_static_path(state.static_dir(), path) {
        None => Err(not_found_response()),
        Some(file) => {
            let ct = content_type(file.as_str());
            Ok((file, ct))
        },
    }
}

/// The response for a static file with content type `content_type`, given
/// what reading it gave: `200` with its bytes, or `404 Not Found` where it
/// could not be read.
pub fn static_file_response(content_type: &str, read: Option<Vec<u8>>) -> (r: Response)
    ensures
        read matches Some(body) ==> r.status == 200 && headers_view(r.headers@) == base_headers(content_type@)
            && r.body@ == body@,
        read is None ==> is_text_response(r, 404, "Not Found"@),
{
    match read {
        Some(body) => response(OK, content_type, body),
        None => not_found_response(),
    }
}

/// Law: the multiplier of `/json` is query parameter `m` where it is at
/// least 1, else 1.
pub proof fn lemma_json_multiplier(request: Request)
    ensures
        query_value(request, "m"@) >= 1 ==> json_multiplier(request) == query_value(request, "m"@),
        query_value(request, "m"@) < 1 ==> json_multiplier(request) == 1,
        json_multiplier(request) >= 1,
{
}

/// Law: `/json` sends all entries where the path asks for at least as many,
/// else exactly as many as it asks for.
pub proof fn lemma_json_count(count: usize, dataset_len: nat)
    ensures
        count >= dataset_len ==> json_count(count, dataset_len) == dataset_len,
        count < dataset_len ==> json_count(count, dataset_len) == count,
{
}

} // verus!

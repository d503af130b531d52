//! The endpoints backed by the database: filtered listing, the CRUD
//! endpoints with their cache, and the fortunes page.
//!
//! Each endpoint is a step function from what the application has learned
//! so far (an event) to what it is to do next (an action); the application
//! performs the database, cache and encoding work and reports back.

use vstd::prelude::*;
use vstd::utf8::encode_utf8;
use vstd::string::StrSliceExecFns;
use crate::request::{Request, lookup, query_i64_default, spec_query_i64_default};
use crate::response::{Response, JsonReply, headers_view, base_headers, OK, CREATED};
use crate::models::{Item, DbItem, DbResponse, CrudCreate, CrudUpdate, QueryValue, db_item_fields, db_tags, option_view};
use crate::views::{json_body_response, not_found_response, unavailable_response, database_error_response, bad_request_response, is_text_response};
use crate::fortunes::{Fortune, fortunes_html, fortunes_page, sort_fortunes, extra_message};

verus! {

/// The items as the database endpoints send them.
pub open spec fn db_items(items: Seq<Item>, out: Seq<DbItem>) -> bool {
    &&& out.len() == items.len()
    &&& forall|i: int|
        0 <= i < items.len() ==> db_item_fields(
            #[trigger] items[i],
            out[i],
            db_tags(option_view(items[i].tags)),
        )
}

/// The stored items as the database endpoints send them.
pub fn db_items_from(items: &Vec<Item>) -> (r: Vec<DbItem>)
    ensures
        db_items(items@, r@),
{
    let mut out: Vec<DbItem> = Vec::new();
    let mut i: usize = 0;
    while i < items.len()
        invariant
            i <= items@.len(),
            out@.len() == i,
            forall|k: int|
                0 <= k < i ==> db_item_fields(
                    #[trigger] items@[k],
                    out@[k],
                    db_tags(option_view(items@[k].tags)),
                ),
        decreases items@.len() - i,
    {
        out.push(DbItem::from(&items[i]));
        i = i + 1;
    }
    out
}

/// How a database operation went.
pub enum DbOutcome<T> {
    /// There is no database connection.
    Unavailable,
    /// The operation failed.
    Failed,
    /// The operation gave this.
    Done(T),
}


/// An endpoint's answer: a finished response or a payload to encode as JSON.
pub enum Reply<P> {
    Finished(Response),
    Json(JsonReply<P>),
}

// ---------------------------------------------------------------------------
// GET /async-db

/// The filter of `GET /async-db`: items priced from `min` to `max`, at most `limit`.
pub struct PriceQuery {
    pub min: i64,
    pub max: i64,
    pub limit: usize,
}

pub open spec fn clamp(v: i64, lo: i64, hi: i64) -> i64 {
    if v < lo {
        lo
    } else if v > hi {
        hi
    } else {
        v
    }
}

/// `GET /async-db`: the filter that query parameters `min` (default 10),
/// `max` (default 50) and `limit` (default 50, kept within 1..=50) give.
pub fn async_db_query(request: &Request) -> (q: PriceQuery)
    ensures
        q.min == spec_query_i64_default(request.query_params@, "min"@, 10),
        q.max == spec_query_i64_default(request.query_params@, "max"@, 50),
        q.limit == clamp(spec_query_i64_default(request.query_params@, "limit"@, 50), 1, 50),
{
    let min = query_i64_default(request, "min", 10);
    let max = query_i64_default(request, "max", 50);
    let raw = query_i64_default(request, "limit", 50);
    let limit = if raw < 1 { 1 } else if raw > 50 { 50 } else { raw };
    PriceQuery { min, max, limit: limit as usize }
}

/// `GET /async-db`: `503` with no items without a database, `500` where the
/// query failed, and the items found otherwise.
pub fn async_db(outcome: DbOutcome<Vec<Item>>) -> (r: Reply<DbResponse>)
    ensures
        outcome is Unavailable ==> (r matches Reply::Json(j) && j.status == 503 && j.payload.items@.len() == 0
            && j.payload.count == 0),
        outcome is Failed ==> (r matches Reply::Finished(resp) && is_text_response(resp, 500, "Database error"@)),
        outcome matches DbOutcome::Done(items) ==> (r matches Reply::Json(j) && j.status == 200 && db_items(
            items@,
            j.payload.items@,
        ) && j.payload.count == items@.len()),
{
    match outcome {
        DbOutcome::Unavailable => Reply::Json(
            JsonReply { status: 503, payload: DbResponse { items: Vec::new(), count: 0 } },
        ),
        DbOutcome::Failed => Reply::Finished(database_error_response()),
        DbOutcome::Done(items) => {
            let out = db_items_from(&items);
            let count = out.len();
            Reply::Json(JsonReply { status: OK, payload: DbResponse { items: out, count } })
        },
    }
}

// ---------------------------------------------------------------------------
// GET /crud/items

/// The page of `GET /crud/items`: items of `category` ordered by id,
/// `limit` of them from `offset` on.
pub struct CrudListQuery {
    pub category: String,
    pub page: i64,
    pub limit: i64,
    pub offset: i64,
}

pub open spec fn list_page(request: Request) -> i64 {
    let p = spec_query_i64_default(request.query_params@, "page"@, 1);
    if p < 1 {
        1
    } else {
        p
    }
}

pub open spec fn list_limit(request: Request) -> i64 {
    clamp(spec_query_i64_default(request.query_params@, "limit"@, 10), 1, 50)
}

/// Whether the offset of the page fits in `i64`.
pub open spec fn list_offset_fits(request: Request) -> bool {
    (list_page(request) - 1) * list_limit(request) <= i64::MAX
}

/// `GET /crud/items`: the page that query parameters `category` (default
/// "electronics"), `page` (default 1, at least 1) and `limit` (default 10,
/// kept within 1..=50) select.
pub fn crud_list_query(request: &Request) -> (q: CrudListQuery)
    requires
        list_offset_fits(*request),
    ensures
        q.category@ == (match lookup(request.query_params@, "category"@) {
            Some(c) => c,
            None => "electronics"@,
        }),
        q.page == list_page(*request),
        q.limit == list_limit(*request),
        q.offset == (q.page - 1) * q.limit,
        q.offset >= 0,
{
    let category = match request.query_params.get("category") {
        Some(c) => c.clone(),
        None => "electronics".to_owned(),
    };
    let raw_page = query_i64_default(request, "page", 1);
    let page = if raw_page < 1 { 1 } else { raw_page };
    let raw_limit = query_i64_default(request, "limit", 10);
    let limit = if raw_limit < 1 { 1 } else if raw_limit > 50 { 50 } else { raw_limit };
    assert(0 <= (page - 1) * limit) by (nonlinear_arith)
        requires
            page >= 1,
            limit >= 1,
    ;
    let offset = (page - 1) * limit;
    CrudListQuery { category, page, limit, offset }
}

/// One page of the listing as the endpoint sends it.
pub struct CrudListPage {
    pub total: usize,
    pub items: Vec<DbItem>,
    pub page: i64,
    pub limit: i64,
}

/// `GET /crud/items`: `503` without a database, `500` where the query
/// failed, and the page of items found otherwise.
pub fn crud_list(query: &CrudListQuery, outcome: DbOutcome<Vec<Item>>) -> (r: Reply<CrudListPage>)
    ensures
        outcome is Unavailable ==> (r matches Reply::Finished(resp) && is_text_response(
            resp,
            503,
            "Database unavailable"@,
        )),
        outcome is Failed ==> (r matches Reply::Finished(resp) && is_text_response(resp, 500, "Database error"@)),
        outcome matches DbOutcome::Done(items) ==> (r matches Reply::Json(j) && j.status == 200 && db_items(
            items@,
            j.payload.items@,
        ) && j.payload.total == items@.len() && j.payload.page == query.page && j.payload.limit
            == query.limit),
{
    match outcome {
        DbOutcome::Unavailable => Reply::Finished(unavailable_response()),
        DbOutcome::Failed => Reply::Finished(database_error_response()),
        DbOutcome::Done(items) => {
            let out = db_items_from(&items);
            let total = out.len();
            Reply::Json(
                JsonReply {
                    status: OK,
                    payload: CrudListPage { total, items: out, page: query.page, limit: query.limit },
                },
            )
        },
    }
}

// ---------------------------------------------------------------------------
// GET /crud/items/{id}

/// What the application has learned while answering a read.
pub enum ReadEvent {
    /// The request arrived.
    Start,
    /// The cache holds this body for the item.
    CacheHit(Vec<u8>),
    /// The cache holds nothing for the item.
    CacheMiss,
    /// Loading the item from the database went so.
    Loaded(DbOutcome<Vec<Item>>),
    /// The item was encoded as this JSON body.
    Encoded(Vec<u8>),
}

/// What the application is to do next for a read.
pub enum ReadAction {
    /// Look item `id` up in the cache.
    LookupCache { id: i64 },
    /// Load item `id` from the database.
    Load { id: i64 },
    /// Encode this item as JSON and report the body.
    Encode(DbItem),
    /// Cache `body` for item `id`, then send `response`.
    StoreAndRespond { id: i64, body: Vec<u8>, response: Response },
    /// Send this response.
    Respond(Response),
}

/// Whether `r` is the `200` JSON response with body `body` and cache status `cache`.
pub open spec fn is_item_response(r: Response, body: Seq<u8>, cache: Seq<char>) -> bool {
    &&& r.status == 200
    &&& headers_view(r.headers@) == base_headers("application/json"@).push(("X-Cache"@, cache))
    &&& r.body@ == body
}

/// The read endpoint for item `id`: answer from the cache where it holds the
/// item (cache status `HIT`); else load the item (`503` without a database,
/// `500` on a failure, `404` where there is none), encode it, cache the body
/// under `id` and send it (cache status `MISS`).
pub fn crud_read(id: i64, event: ReadEvent) -> (a: ReadAction)
    ensures
        event is Start ==> (a matches ReadAction::LookupCache { id: i } && i == id),
        event matches ReadEvent::CacheHit(body) ==> (a matches ReadAction::Respond(r) && is_item_response(
            r,
            body@,
            "HIT"@,
        )),
        event is CacheMiss ==> (a matches ReadAction::Load { id: i } && i == id),
        event matches ReadEvent::Loaded(o) ==> (match o {
            DbOutcome::Unavailable => a matches ReadAction::Respond(r) && is_text_response(
                r,
                503,
                "Database unavailable"@,
            ),
            DbOutcome::Failed => a matches ReadAction::Respond(r) && is_text_response(r, 500, "Database error"@),
            DbOutcome::Done(items) => if items@.len() == 0 {
                a matches ReadAction::Respond(r) && is_text_response(r, 404, "Not Found"@)
            } else {
                a matches ReadAction::Encode(d) && db_item_fields(items@[0], d, db_tags(option_view(items@[0].tags)))
            },
        }),
        event matches ReadEvent::Encoded(body) ==> (a matches ReadAction::StoreAndRespond { id: i, body: b, response: r }
            && i == id && b@ == body@ && is_item_response(r, body@, "MISS"@)),
{
    match event {
        ReadEvent::Start => ReadAction::LookupCache { id },
        ReadEvent::CacheHit(body) => ReadAction::Respond(
            json_body_response(OK, body).with_header("X-Cache", "HIT"),
        ),
        ReadEvent::CacheMiss => ReadAction::Load { id },
        ReadEvent::Loaded(DbOutcome::Unavailable) => ReadAction::Respond(unavailable_response()),
        ReadEvent::Loaded(DbOutcome::Failed) => ReadAction::Respond(database_error_response()),
        ReadEvent::Loaded(DbOutcome::Done(items)) => {
            if items.len() == 0 {
                ReadAction::Respond(not_found_response())
            } else {
                ReadAction::Encode(DbItem::from(&items[0]))
            }
        },
        ReadEvent::Encoded(body) => {
            let copy = vstd::slice::slice_to_vec(body.as_slice());
            ReadAction::StoreAndRespond {
                id,
                body: copy,
                response: json_body_response(OK, body).with_header("X-Cache", "MISS"),
            }
        },
    }
}

// ---------------------------------------------------------------------------
// POST /crud/items and PUT /crud/items/{id}

/// The statement that stores a created item, replacing one with its id.
pub fn crud_create_sql() -> (r: &'static str)
    ensures
        r@ == crud_create_sql_text(),
{
    "INSERT INTO items (id, name, category, price, quantity, active, tags, rating_score, rating_count) VALUES ($1, $2, $3, $4, $5, $6, CAST($7 AS JSONB), $8, $9) ON CONFLICT (id) DO UPDATE SET name = EXCLUDED.name, category = EXCLUDED.category, price = EXCLUDED.price, quantity = EXCLUDED.quantity, active = EXCLUDED.active, tags = EXCLUDED.tags"
}

/// The statement that stores an updated item.
pub fn crud_update_sql() -> (r: &'static str)
    ensures
        r@ == crud_update_sql_text(),
{
    "UPDATE items SET name = $2, category = $3, price = $4, quantity = $5 WHERE id = $1"
}

/// The parameter values of an item as text and integers.
pub open spec fn int_param(v: QueryValue, n: i64) -> bool {
    v matches QueryValue::Int(x) && x == n
}

pub open spec fn text_param(v: QueryValue, s: Seq<char>) -> bool {
    v matches QueryValue::String(x) && x@ == s
}

pub open spec fn bool_param(v: QueryValue, b: bool) -> bool {
    v matches QueryValue::Bool(x) && x == b
}

/// The item that a create request describes: its fields, its tags text, and
/// a rating of 0 from 0 votes.
pub fn crud_create_item(input: CrudCreate) -> (item: Item)
    ensures
        item.id == input.id,
        item.name@ == input.name@,
        item.category@ == input.category@,
        item.price == input.price,
        item.quantity == input.quantity,
        item.active == input.active,
        option_view(item.tags) == Some(input.tags@),
        item.rating_score == 0,
        item.rating_count == 0,
{
    Item {
        id: input.id,
        name: input.name,
        category: input.category,
        price: input.price,
        quantity: input.quantity,
        active: input.active,
        tags: Some(input.tags),
        rating_score: 0,
        rating_count: 0,
    }
}

/// `POST /crud/items`: the item that the request body describes, where it
/// parsed as a create request (`parsed`), else `400 Bad Request`.
pub fn crud_create_from_body(parsed: Option<CrudCreate>) -> (r: Result<Item, Response>)
    ensures
        parsed matches Some(input) ==> (r matches Ok(item) && item.id == input.id && item.name@ == input.name@
            && item.category@ == input.category@ && item.price == input.price && item.quantity == input.quantity
            && item.active == input.active && option_view(item.tags) == Some(input.tags@) && item.rating_score == 0
            && item.rating_count == 0),
        parsed is None ==> (r matches Err(resp) && is_text_response(resp, 400, "Bad Request"@)),
{
    match parsed {
        Some(input) => Ok(crud_create_item(input)),
        None => Err(bad_request_response()),
    }
}

/// `PUT /crud/items/{id}`: the update that the request body describes, where
/// it parsed as an update request (`parsed`), else `400 Bad Request`.
pub fn crud_update_from_body(parsed: Option<CrudUpdate>) -> (r: Result<CrudUpdate, Response>)
    ensures
        parsed matches Some(input) ==> (r matches Ok(u) && u == input),
        parsed is None ==> (r matches Err(resp) && is_text_response(resp, 400, "Bad Request"@)),
{
    match parsed {
        Some(input) => Ok(input),
        None => Err(bad_request_response()),
    }
}

/// The parameters of `crud_create_sql` for `item`, whose tags text is `tags`.
pub fn crud_create_params(item: &Item, tags: &str) -> (p: Vec<QueryValue>)
    ensures
        p@.len() == 9,
        int_param(p@[0], item.id),
        text_param(p@[1], item.name@),
        text_param(p@[2], item.category@),
        int_param(p@[3], item.price),
        int_param(p@[4], item.quantity),
        bool_param(p@[5], item.active),
        text_param(p@[6], tags@),
        int_param(p@[7], item.rating_score),
        int_param(p@[8], item.rating_count),
{
    let mut p: Vec<QueryValue> = Vec::new();
    p.push(QueryValue::Int(item.id));
    p.push(QueryValue::String(item.name.clone()));
    p.push(QueryValue::String(item.category.clone()));
    p.push(QueryValue::Int(item.price));
    p.push(QueryValue::Int(item.quantity));
    p.push(QueryValue::Bool(item.active));
    p.push(QueryValue::String(tags.to_owned()));
    p.push(QueryValue::Int(item.rating_score));
    p.push(QueryValue::Int(item.rating_count));
    p
}

/// What the application has learned while answering a create.
pub enum CreateEvent {
    /// The request arrived.
    Start,
    /// Storing the item went so.
    Stored(DbOutcome<()>),
}

/// What the application is to do next for a create.
pub enum CreateAction {
    /// Run `sql` with `params`.
    Store { sql: &'static str, params: Vec<QueryValue> },
    /// Drop the cached body of the item, then answer with `reply` (a JSON payload).
    InvalidateAndReply { id: i64, reply: JsonReply<DbItem> },
    Respond(Response),
}

/// The tags text that a created item is stored with: its tags, `[]` where
/// it has none.
pub open spec fn tags_text(tags: Option<Seq<char>>) -> Seq<char> {
    match tags {
        Some(t) => t,
        None => "[]"@,
    }
}

/// The create endpoint for `item` (made by `crud_create_item`): store the
/// item; `503` without a database, `500` where storing failed, else drop the
/// item's cached body and answer `201` with the item.
pub fn crud_create(item: &Item, event: CreateEvent) -> (a: CreateAction)
    ensures
        event is Start ==> (a matches CreateAction::Store { sql, params } && sql@ == crud_create_sql_text()
            && params@.len() == 9 && int_param(params@[0], item.id) && text_param(params@[1], item.name@)
            && text_param(params@[2], item.category@) && int_param(params@[3], item.price) && int_param(
            params@[4],
            item.quantity,
        ) && bool_param(params@[5], item.active) && text_param(params@[6], tags_text(option_view(item.tags))) && int_param(
            params@[7],
            item.rating_score,
        ) && int_param(params@[8], item.rating_count)),
        event matches CreateEvent::Stored(o) ==> (match o {
            DbOutcome::Unavailable => a matches CreateAction::Respond(r) && is_text_response(
                r,
                503,
                "Database unavailable"@,
            ),
            DbOutcome::Failed => a matches CreateAction::Respond(r) && is_text_response(r, 500, "Database error"@),
            DbOutcome::Done(_) => a matches CreateAction::InvalidateAndReply { id, reply } && id == item.id
                && reply.status == 201 && db_item_fields(*item, reply.payload, db_tags(option_view(item.tags))),
        }),
{
    match event {
        CreateEvent::Start => {
            let params = match &item.tags {
                Some(tags) => crud_create_params(item, tags.as_str()),
                None => crud_create_params(item, "[]"),
            };
            CreateAction::Store { sql: crud_create_sql(), params }
        },
        CreateEvent::Stored(DbOutcome::Unavailable) => CreateAction::Respond(unavailable_response()),
        CreateEvent::Stored(DbOutcome::Failed) => CreateAction::Respond(database_error_response()),
        CreateEvent::Stored(DbOutcome::Done(_)) => CreateAction::InvalidateAndReply {
            id: item.id,
            reply: JsonReply { status: CREATED, payload: DbItem::from(item) },
        },
    }
}

pub open spec fn crud_create_sql_text() -> Seq<char> {
    "INSERT INTO items (id, name, category, price, quantity, active, tags, rating_score, rating_count) VALUES ($1, $2, $3, $4, $5, $6, CAST($7 AS JSONB), $8, $9) ON CONFLICT (id) DO UPDATE SET name = EXCLUDED.name, category = EXCLUDED.category, price = EXCLUDED.price, quantity = EXCLUDED.quantity, active = EXCLUDED.active, tags = EXCLUDED.tags"@
}

pub open spec fn crud_update_sql_text() -> Seq<char> {
    "UPDATE items SET name = $2, category = $3, price = $4, quantity = $5 WHERE id = $1"@
}

/// `item` with the fields that `input` gives replaced.
pub open spec fn updated(item: Item, input: CrudUpdate, out: Item) -> bool {
    &&& out.id == item.id
    &&& out.name@ == (match input.name {
        Some(n) => n@,
        None => item.name@,
    })
    &&& out.category@ == (match input.category {
        Some(c) => c@,
        None => item.category@,
    })
    &&& out.price == (match input.price {
        Some(p) => p,
        None => item.price,
    })
    &&& out.quantity == (match input.quantity {
        Some(q) => q,
        None => item.quantity,
    })
    &&& out.active == item.active
    &&& option_view(out.tags) == option_view(item.tags)
    &&& out.rating_score == item.rating_score
    &&& out.rating_count == item.rating_count
}

/// `item` with the fields that `input` gives replaced; the others stay.
pub fn apply_crud_update(item: Item, input: &CrudUpdate) -> (out: Item)
    ensures
        updated(item, *input, out),
{
    let mut out = item;
    match &input.name {
        Some(name) => {
            out.name = name.clone();
        },
        None => {},
    }
    match &input.category {
        Some(category) => {
            out.category = category.clone();
        },
        None => {},
    }
    match input.price {
        Some(price) => {
            out.price = price;
        },
        None => {},
    }
    match input.quantity {
        Some(quantity) => {
            out.quantity = quantity;
        },
        None => {},
    }
    out
}

/// The parameters of `crud_update_sql` for item `id` with the fields of `item`.
pub fn crud_update_params(id: i64, item: &Item) -> (p: Vec<QueryValue>)
    ensures
        p@.len() == 5,
        int_param(p@[0], id),
        text_param(p@[1], item.name@),
        text_param(p@[2], item.category@),
        int_param(p@[3], item.price),
        int_param(p@[4], item.quantity),
{
    let mut p: Vec<QueryValue> = Vec::new();
    p.push(QueryValue::Int(id));
    p.push(QueryValue::String(item.name.clone()));
    p.push(QueryValue::String(item.category.clone()));
    p.push(QueryValue::Int(item.price));
    p.push(QueryValue::Int(item.quantity));
    p
}

/// What the application has learned while answering an update.
pub enum UpdateEvent {
    Start,
    /// Loading the item went so.
    Loaded(DbOutcome<Vec<Item>>),
    /// Storing `item` went so.
    Stored { item: Item, outcome: DbOutcome<()> },
}

/// What the application is to do next for an update.
pub enum UpdateAction {
    /// Load item `id` from the database.
    Load { id: i64 },
    /// Run `sql` with `params`, then report how it went together with `item`.
    Store { sql: &'static str, params: Vec<QueryValue>, item: Item },
    /// Drop the cached body of the item, then answer with `reply`.
    InvalidateAndReply { id: i64, reply: JsonReply<DbItem> },
    Respond(Response),
}

/// The update endpoint for item `id`: load it (`503` without a database,
/// `500` on a failure, `404` where there is none), replace the fields that
/// `input` gives, store it (`500` where that failed), then drop the item's
/// cached body and answer `200` with the updated item.
pub fn crud_update(id: i64, input: &CrudUpdate, event: UpdateEvent) -> (a: UpdateAction)
    ensures
        event is Start ==> (a matches UpdateAction::Load { id: i } && i == id),
        event matches UpdateEvent::Loaded(o) ==> (match o {
            DbOutcome::Unavailable => a matches UpdateAction::Respond(r) && is_text_response(
                r,
                503,
                "Database unavailable"@,
            ),
            DbOutcome::Failed => a matches UpdateAction::Respond(r) && is_text_response(r, 500, "Database error"@),
            DbOutcome::Done(items) => if items@.len() == 0 {
                a matches UpdateAction::Respond(r) && is_text_response(r, 404, "Not Found"@)
            } else {
                a matches UpdateAction::Store { sql, params, item } && sql@ == crud_update_sql_text()
                    && updated(items@[0], *input, item) && params@.len() == 5 && int_param(params@[0], id)
                    && text_param(params@[1], item.name@) && text_param(params@[2], item.category@)
                    && int_param(params@[3], item.price) && int_param(params@[4], item.quantity)
            },
        }),
        event matches UpdateEvent::Stored { item, outcome } ==> (match outcome {
            DbOutcome::Done(_) => a matches UpdateAction::InvalidateAndReply { id: i, reply } && i == id
                && reply.status == 200 && db_item_fields(item, reply.payload, db_tags(option_view(item.tags))),
            _ => a matches UpdateAction::Respond(r) && is_text_response(r, 500, "Database error"@),
        }),
{
    match event {
        UpdateEvent::Start => UpdateAction::Load { id },
        UpdateEvent::Loaded(DbOutcome::Unavailable) => UpdateAction::Respond(unavailable_response()),
        UpdateEvent::Loaded(DbOutcome::Failed) => UpdateAction::Respond(database_error_response()),
        UpdateEvent::Loaded(DbOutcome::Done(items)) => {
            let mut items = items;
            if items.len() == 0 {
                UpdateAction::Respond(not_found_response())
            } else {
                    let found = items.remove(0);
                let item = apply_crud_update(found, input);
                let params = crud_update_params(id, &item);
                UpdateAction::Store { sql: crud_update_sql(), params, item }
            }
        },
        UpdateEvent::Stored { item, outcome: DbOutcome::Done(_) } => UpdateAction::InvalidateAndReply {
            id,
            reply: JsonReply { status: OK, payload: DbItem::from(&item) },
        },
        UpdateEvent::Stored { item: _, outcome: _ } => UpdateAction::Respond(database_error_response()),
    }
}

// ---------------------------------------------------------------------------
// GET /fortunes

/// `GET /fortunes`: `503` without a database, `500` where loading failed;
/// otherwise `200` with the page that lists the stored fortunes and one added
/// at request time, ordered by message.
pub fn fortunes(outcome: DbOutcome<Vec<Fortune>>) -> (r: Response)
    ensures
        outcome is Unavailable ==> is_text_response(r, 503, "Database unavailable"@),
        outcome is Failed ==> is_text_response(r, 500, "Database error"@),
        outcome matches DbOutcome::Done(stored) ==> {
            &&& r.status == 200
            &&& headers_view(r.headers@) == base_headers("text/html; charset=utf-8"@)
            &&& exists|extra: Fortune|
                extra.id == 0 && extra.message@ == extra_message() && r.body@ == encode_utf8(
                    fortunes_page(sort_fortunes(stored@.push(extra))),
                )
        },
{
    match outcome {
        DbOutcome::Unavailable => unavailable_response(),
        DbOutcome::Failed => database_error_response(),
        DbOutcome::Done(stored) => {
            let (_, html) = fortunes_html(stored);
            crate::response::response(OK, "text/html; charset=utf-8", html.as_str().as_bytes_vec())
        },
    }
}

/// Law: the listing's limit is the requested one (default 10) kept within
/// 1..=50, and its page the requested one (default 1), at least 1.
pub proof fn lemma_list_page_and_limit(request: Request)
    ensures
        ({
            let l = spec_query_i64_default(request.query_params@, "limit"@, 10);
            &&& l > 50 ==> list_limit(request) == 50
            &&& l < 1 ==> list_limit(request) == 1
            &&& 1 <= l <= 50 ==> list_limit(request) == l
            &&& 1 <= list_limit(request) <= 50
        }),
        ({
            let p = spec_query_i64_default(request.query_params@, "page"@, 1);
            &&& p < 1 ==> list_page(request) == 1
            &&& p >= 1 ==> list_page(request) == p
        }),
{
}

/// Law: the `/async-db` limit is the requested one (default 50) kept
/// within 1..=50.
pub proof fn lemma_price_query_limit(request: Request)
    ensures
        ({
            let l = spec_query_i64_default(request.query_params@, "limit"@, 50);
            &&& l > 50 ==> clamp(l, 1, 50) == 50
            &&& l < 1 ==> clamp(l, 1, 50) == 1
            &&& 1 <= l <= 50 ==> clamp(l, 1, 50) == l
        }),
{
}

} // verus!

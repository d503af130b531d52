use httparena_reinhardt::request::{query_i64, query_i64_default, QueryParams, Request};
use httparena_reinhardt::views::{baseline11, baseline11_post, pipeline, sum_response, upload, not_found_response, database_error_response, unavailable_response};
use httparena_reinhardt::html::escape_html_into;
use httparena_reinhardt::compression::{negotiate_compression, Compression};
use httparena_reinhardt::urls::{resolve, server_url_patterns, Method, match_path};
use httparena_reinhardt::dispatch::{route, Route};

fn request(query: &str, body: &[u8]) -> Request {
    Request { query_params: QueryParams::parse(query), body: body.to_vec() }
}

fn header(r: &httparena_reinhardt::response::Response, name: &str) -> Option<String> {
    r.headers.iter().find(|(n, _)| n == name).map(|(_, v)| v.clone())
}

#[test]
fn query_parameters_by_key() {
    let r = request("a=1&b=x&&c&a=5&d=7=8", b"");
    assert_eq!(query_i64(&r, "a"), 5);
    assert_eq!(query_i64(&r, "b"), 0);
    assert_eq!(query_i64(&r, "missing"), 0);
    assert_eq!(query_i64_default(&r, "missing", 10), 10);
    assert_eq!(query_i64_default(&r, "c", 3), 3);
    assert_eq!(r.query_params.get("c").map(|s| s.as_str()), Some(""));
    assert_eq!(r.query_params.get("d").map(|s| s.as_str()), Some("7=8"));
}

#[test]
fn sums_of_query_and_body() {
    let r = baseline11(&request("a=13&b=42", b""));
    assert_eq!(r.status, 200);
    assert_eq!(r.body, b"55".to_vec());
    assert_eq!(header(&r, "Content-Type").as_deref(), Some("text/plain"));
    assert_eq!(header(&r, "Server").as_deref(), Some("reinhardt"));
    let r = baseline11_post(&request("a=1&b=2", b" 3 "));
    assert_eq!(r.body, b"6".to_vec());
    let r = sum_response(&request("a=-10", b""), 4);
    assert_eq!(r.body, b"-6".to_vec());
    assert_eq!(pipeline().body, b"ok".to_vec());
    assert_eq!(upload(&request("", &[0u8; 1234])).body, b"1234".to_vec());
}

#[test]
fn shared_error_responses() {
    let r = not_found_response();
    assert_eq!((r.status, r.body), (404, b"Not Found".to_vec()));
    let r = database_error_response();
    assert_eq!((r.status, r.body), (500, b"Database error".to_vec()));
    let r = unavailable_response();
    assert_eq!((r.status, r.body), (503, b"Database unavailable".to_vec()));
}

#[test]
fn html_escaping() {
    let mut out = String::from("x");
    escape_html_into("<a href=\"q\">Tom & Jerry's</a>", &mut out);
    assert_eq!(out, "x&lt;a href=&quot;q&quot;&gt;Tom &amp; Jerry&#39;s&lt;/a&gt;");
    let mut plain = String::new();
    escape_html_into("フォーチュン", &mut plain);
    assert_eq!(plain, "フォーチュン");
}

#[test]
fn compression_by_accept_encoding() {
    assert_eq!(negotiate_compression(Some(b"gzip, deflate, BR")), Compression::Brotli);
    assert_eq!(negotiate_compression(Some(b"GZip")), Compression::Gzip);
    assert_eq!(negotiate_compression(Some(b"deflate")), Compression::Identity);
    assert_eq!(negotiate_compression(Some(&[b'b', b'r', 0x80])), Compression::Identity);
    assert_eq!(negotiate_compression(None), Compression::Identity);
}

#[test]
fn routing_selects_the_registered_endpoint() {
    let router = server_url_patterns();
    assert_eq!(router.endpoints.len(), 13);
    let (i, params) = resolve(&router, Method::Get, "/json/25").unwrap();
    assert_eq!(router.endpoints[i].name, "json");
    assert_eq!(params, vec!["25".to_string()]);
    let (i, _) = resolve(&router, Method::Post, "/baseline11").unwrap();
    assert_eq!(router.endpoints[i].name, "baseline11-post");
    let (i, params) = resolve(&router, Method::Put, "/crud/items/9").unwrap();
    assert_eq!(router.endpoints[i].name, "crud-update");
    assert_eq!(params, vec!["9".to_string()]);
    assert!(resolve(&router, Method::Put, "/crud/items").is_none());
    assert!(resolve(&router, Method::Get, "/json/").is_none());
    assert!(match_path("/static/{path}", "/static/a/b").is_none());
}

#[test]
fn requests_are_routed_with_their_parameters() {
    let router = server_url_patterns();
    assert!(matches!(route(&router, Some(Method::Get), "/json/7"), Route::Json { count: 7 }));
    assert!(matches!(route(&router, Some(Method::Get), "/json/x"), Route::BadRequest));
    assert!(matches!(route(&router, Some(Method::Get), "/crud/items/-4"), Route::CrudRead { id: -4 }));
    assert!(matches!(route(&router, Some(Method::Put), "/crud/items/abc"), Route::BadRequest));
    assert!(matches!(route(&router, Some(Method::Post), "/crud/items"), Route::CrudCreate));
    assert!(matches!(route(&router, Some(Method::Get), "/static/app.js"), Route::Static { path } if path == "app.js"));
    assert!(matches!(route(&router, Some(Method::Put), "/fortunes"), Route::NotFound));
    assert!(matches!(route(&router, None, "/pipeline"), Route::NotFound));
    assert!(matches!(route(&router, Some(Method::Get), "/pipeline"), Route::Pipeline));
}

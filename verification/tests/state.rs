use httparena_reinhardt::crud::{
    apply_crud_update, async_db_query, async_db, crud_create_from_body, crud_create_item, crud_update_from_body, crud_create, crud_list_query,
    crud_read, crud_update, fortunes, CreateAction, CreateEvent, DbOutcome, ReadAction,
    ReadEvent, Reply, UpdateAction, UpdateEvent,
};
use httparena_reinhardt::fortunes::{fortunes_html, sort_by_message, Fortune};
use httparena_reinhardt::models::{CrudCreate, CrudUpdate, DatasetItem, DbItem, Item, QueryValue, Rating};
use httparena_reinhardt::request::{QueryParams, Request};
use httparena_reinhardt::services::{initialize_state, state, ArenaState, CrudCache, StateSlot};
use httparena_reinhardt::views::{json_endpoint, static_file};
use httparena_reinhardt::config::{settings_plan, SettingsSource};

fn item(id: i64, tags: Option<&str>) -> Item {
    Item {
        id,
        name: format!("item {id}"),
        category: "electronics".to_string(),
        price: 10,
        quantity: 3,
        active: true,
        tags: tags.map(|t| t.to_string()),
        rating_score: 4,
        rating_count: 2,
    }
}

fn request(query: &str) -> Request {
    Request { query_params: QueryParams::parse(query), body: Vec::new() }
}

#[test]
fn tags_are_reencoded_as_compact_json() {
    let d = DbItem::from(&item(1, Some(" [ \"a\" , \"b\" ] ")));
    assert_eq!(d.tags, "[\"a\",\"b\"]");
    assert_eq!(DbItem::from(&item(1, Some("not json"))).tags, "[]");
    assert_eq!(DbItem::from(&item(1, None)).tags, "[]");
    assert_eq!((d.rating.score, d.rating.count), (4, 2));
}

#[test]
fn cache_reads_back_writes() {
    let mut cache = CrudCache::new();
    assert_eq!(cache.get(1), None);
    cache.set(1, b"one".to_vec());
    cache.set(2, b"two".to_vec());
    assert_eq!(cache.get(1), Some(b"one".to_vec()));
    cache.delete(1);
    assert_eq!(cache.get(1), None);
    assert_eq!(cache.get(2), Some(b"two".to_vec()));
}

#[test]
fn state_is_set_once() {
    let mut slot = StateSlot::new();
    assert!(initialize_state(&mut slot, ArenaState::new(Vec::new(), "/a".to_string())).is_ok());
    assert!(initialize_state(&mut slot, ArenaState::new(Vec::new(), "/b".to_string())).is_err());
    assert_eq!(state(&slot).static_dir(), "/a");
}

#[test]
fn read_uses_the_cache_first() {
    assert!(matches!(crud_read(5, ReadEvent::Start), ReadAction::LookupCache { id: 5 }));
    match crud_read(5, ReadEvent::CacheHit(b"{}".to_vec())) {
        ReadAction::Respond(r) => {
            assert_eq!(r.status, 200);
            assert!(r.headers.contains(&("X-Cache".to_string(), "HIT".to_string())));
        }
        _ => panic!("expected a response"),
    }
    assert!(matches!(crud_read(5, ReadEvent::CacheMiss), ReadAction::Load { id: 5 }));
    match crud_read(5, ReadEvent::Loaded(DbOutcome::Done(Vec::new()))) {
        ReadAction::Respond(r) => assert_eq!(r.status, 404),
        _ => panic!("expected 404"),
    }
    match crud_read(5, ReadEvent::Loaded(DbOutcome::Unavailable)) {
        ReadAction::Respond(r) => assert_eq!(r.status, 503),
        _ => panic!("expected 503"),
    }
    match crud_read(5, ReadEvent::Loaded(DbOutcome::Done(vec![item(5, None)]))) {
        ReadAction::Encode(d) => assert_eq!(d.id, 5),
        _ => panic!("expected encoding"),
    }
    match crud_read(5, ReadEvent::Encoded(b"{\"id\":5}".to_vec())) {
        ReadAction::StoreAndRespond { id, body, response } => {
            assert_eq!(id, 5);
            assert_eq!(body, response.body);
            assert!(response.headers.contains(&("X-Cache".to_string(), "MISS".to_string())));
        }
        _ => panic!("expected store"),
    }
}

#[test]
fn update_changes_only_given_fields() {
    let input = CrudUpdate { name: Some("new".to_string()), category: None, price: Some(99), quantity: None };
    let out = apply_crud_update(item(3, Some("[]")), &input);
    assert_eq!((out.name.as_str(), out.category.as_str(), out.price, out.quantity), ("new", "electronics", 99, 3));
    assert!(matches!(crud_update(3, &input, UpdateEvent::Start), UpdateAction::Load { id: 3 }));
    match crud_update(3, &input, UpdateEvent::Loaded(DbOutcome::Done(vec![item(3, None)]))) {
        UpdateAction::Store { params, item, .. } => {
            assert_eq!(item.price, 99);
            assert!(matches!(params[0], QueryValue::Int(3)));
            assert!(matches!(&params[1], QueryValue::String(s) if s == "new"));
        }
        _ => panic!("expected store"),
    }
    match crud_update(3, &input, UpdateEvent::Stored { item: item(3, None), outcome: DbOutcome::Failed }) {
        UpdateAction::Respond(r) => assert_eq!(r.status, 500),
        _ => panic!("expected 500"),
    }
    match crud_update(3, &input, UpdateEvent::Stored { item: item(3, None), outcome: DbOutcome::Done(()) }) {
        UpdateAction::InvalidateAndReply { id, reply } => assert_eq!((id, reply.status), (3, 200)),
        _ => panic!("expected reply"),
    }
}

#[test]
fn create_stores_then_invalidates() {
    let input = CrudCreate {
        id: 8,
        name: "n".to_string(),
        category: "c".to_string(),
        price: 1,
        quantity: 2,
        active: false,
        tags: "[\"x\"]".to_string(),
    };
    let item = crud_create_item(input);
    assert_eq!((item.rating_score, item.rating_count), (0, 0));
    match crud_create(&item, CreateEvent::Start) {
        CreateAction::Store { params, .. } => {
            assert_eq!(params.len(), 9);
            assert!(matches!(&params[6], QueryValue::String(s) if s == "[\"x\"]"));
        }
        _ => panic!("expected store"),
    }
    match crud_create(&item, CreateEvent::Stored(DbOutcome::Done(()))) {
        CreateAction::InvalidateAndReply { id, reply } => assert_eq!((id, reply.status), (8, 201)),
        _ => panic!("expected reply"),
    }
    let mut untagged = crud_create_item(CrudCreate {
        id: 9,
        name: "n".to_string(),
        category: "c".to_string(),
        price: 1,
        quantity: 2,
        active: true,
        tags: "[]".to_string(),
    });
    untagged.tags = None;
    match crud_create(&untagged, CreateEvent::Start) {
        CreateAction::Store { params, .. } => assert!(matches!(&params[6], QueryValue::String(s) if s == "[]")),
        _ => panic!("expected store"),
    }
    match crud_create(&item, CreateEvent::Stored(DbOutcome::Unavailable)) {
        CreateAction::Respond(r) => assert_eq!(r.status, 503),
        _ => panic!("expected 503"),
    }
}

#[test]
fn list_and_filter_parameters() {
    let q = async_db_query(&request("min=5&limit=500"));
    assert_eq!((q.min, q.max, q.limit), (5, 50, 50));
    let q = async_db_query(&request("limit=-3"));
    assert_eq!(q.limit, 1);
    let q = crud_list_query(&request("page=3&limit=20"));
    assert_eq!((q.category.as_str(), q.page, q.limit, q.offset), ("electronics", 3, 20, 40));
    let q = crud_list_query(&request("category=books&page=0"));
    assert_eq!((q.category.as_str(), q.page, q.limit, q.offset), ("books", 1, 10, 0));
    match async_db(DbOutcome::Done(vec![item(1, None), item(2, None)])) {
        Reply::Json(j) => assert_eq!((j.status, j.payload.count), (200, 2)),
        _ => panic!("expected json"),
    }
    match async_db(DbOutcome::Unavailable) {
        Reply::Json(j) => assert_eq!((j.status, j.payload.count), (503, 0)),
        _ => panic!("expected json"),
    }
}

#[test]
fn json_endpoint_totals() {
    let data = vec![
        DatasetItem {
            id: 1,
            name: "a".to_string(),
            category: "c".to_string(),
            price: 5,
            quantity: 4,
            active: true,
            tags: vec!["t".to_string()],
            rating: Rating { score: 1, count: 2 },
        },
        DatasetItem {
            id: 2,
            name: "b".to_string(),
            category: "c".to_string(),
            price: 7,
            quantity: 3,
            active: false,
            tags: Vec::new(),
            rating: Rating { score: 3, count: 4 },
        },
    ];
    let st = ArenaState::new(data, "/data/static".to_string());
    let reply = json_endpoint(&st, 10, &request("m=3"));
    assert_eq!(reply.status, 200);
    let r = reply.payload;
    assert_eq!(r.count, 2);
    assert_eq!(r.items[0].total, 60);
    assert_eq!(r.items[1].total, 63);
    let r = json_endpoint(&st, 1, &request("m=0")).payload;
    assert_eq!((r.count, r.items[0].total), (1, 20));
    assert_eq!((r.items[0].name, r.items[0].rating.score), ("a", 1));
    let (file, ct) = static_file(&st, "app.js").ok().unwrap();
    assert_eq!((file.as_str(), ct), ("/data/static/app.js", "application/javascript"));
    assert_eq!(static_file(&st, "..").err().map(|r| r.status), Some(404));
}

#[test]
fn fortunes_are_sorted_by_message_bytes() {
    let stored = vec![
        Fortune { id: 1, message: "fortune: No such file or directory".to_string() },
        Fortune { id: 2, message: "<script>alert(1)</script>".to_string() },
        Fortune { id: 3, message: "A bad random number".to_string() },
        Fortune { id: 4, message: "A bad random number".to_string() },
    ];
    let (sorted, html) = fortunes_html(stored);
    let ids: Vec<i64> = sorted.iter().map(|f| f.id).collect();
    assert_eq!(ids, vec![2, 3, 4, 0, 1]);
    assert!(html.starts_with("<!DOCTYPE html>"));
    assert!(html.contains("<tr><td class=\"fortune-id\">2</td><td class=\"fortune-message\">&lt;script&gt;alert(1)&lt;/script&gt;</td></tr>"));
    assert!(html.ends_with("</tbody></table></body></html>"));
    let r = fortunes(DbOutcome::Done(Vec::new()));
    assert_eq!(r.status, 200);
    assert!(String::from_utf8(r.body).unwrap().contains("Additional fortune added at request time."));
    let again = sort_by_message(vec![
        Fortune { id: 9, message: "b".to_string() },
        Fortune { id: 8, message: "a".to_string() },
    ]);
    assert_eq!(again.iter().map(|f| f.id).collect::<Vec<_>>(), vec![8, 9]);
}

#[test]
fn settings_sources() {
    let plan = settings_plan(None, "/srv/settings");
    assert_eq!(plan.profile, "local");
    assert!(matches!(&plan.sources[1], SettingsSource::TomlFile(f) if f == "/srv/settings/base.toml"));
    assert!(matches!(&plan.sources[2], SettingsSource::TomlFile(f) if f == "/srv/settings/local.toml"));
    assert!(matches!(&plan.sources[3], SettingsSource::Environment(p) if p == "REINHARDT_"));
}

#[test]
fn request_bodies_that_do_not_parse_are_refused() {
    assert_eq!(crud_create_from_body(None).err().map(|r| (r.status, r.body)), Some((400, b"Bad Request".to_vec())));
    assert_eq!(crud_update_from_body(None).err().map(|r| r.status), Some(400));
    let input = CrudUpdate { name: None, category: None, price: Some(1), quantity: None };
    assert_eq!(crud_update_from_body(Some(input)).ok().and_then(|u| u.price), Some(1));
}

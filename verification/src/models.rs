//! The records of the benchmark: stored items and fortunes, dataset entries,
//! and the payloads of the JSON endpoints.

use vstd::prelude::*;

verus! {

/// A row of the `items` table.
pub struct Item {
    pub id: i64,
    pub name: String,
    pub category: String,
    pub price: i64,
    pub quantity: i64,
    pub active: bool,
    /// The tags as JSON text, where the row has any.
    pub tags: Option<String>,
    pub rating_score: i64,
    pub rating_count: i64,
}

/// The rating of a dataset entry.
pub struct Rating {
    pub score: i64,
    pub count: i64,
}

/// One entry of the JSON dataset that the `/json` endpoint serves.
pub struct DatasetItem {
    pub id: i64,
    pub name: String,
    pub category: String,
    pub price: i64,
    pub quantity: i64,
    pub active: bool,
    pub tags: Vec<String>,
    pub rating: Rating,
}

/// A rating as the endpoints send it.
pub struct RatingOut {
    pub score: i64,
    pub count: i64,
}

/// A dataset entry as the `/json` endpoint sends it, with its total.
pub struct ProcessedItem<'a> {
    pub id: i64,
    pub name: &'a str,
    pub category: &'a str,
    pub price: i64,
    pub quantity: i64,
    pub active: bool,
    pub tags: &'a [String],
    pub rating: RatingOut,
    pub total: i64,
}

/// The payload of the `/json` endpoint.
pub struct JsonResponse<'a> {
    pub items: Vec<ProcessedItem<'a>>,
    pub count: usize,
}

/// A stored item as the database endpoints send it.
pub struct DbItem {
    pub id: i64,
    pub name: String,
    pub category: String,
    pub price: i64,
    pub quantity: i64,
    pub active: bool,
    /// The tags as compact JSON text.
    pub tags: String,
    pub rating: RatingOut,
}

/// The payload of the `/async-db` endpoint.
pub struct DbResponse {
    pub items: Vec<DbItem>,
    pub count: usize,
}

/// The body of a create request.
pub struct CrudCreate {
    pub id: i64,
    pub name: String,
    pub category: String,
    pub price: i64,
    pub quantity: i64,
    pub active: bool,
    /// The tags as compact JSON text (`[]` where the request gives none).
    pub tags: String,
}

/// The body of an update request: the fields to change.
pub struct CrudUpdate {
    pub name: Option<String>,
    pub category: Option<String>,
    pub price: Option<i64>,
    pub quantity: Option<i64>,
}

/// What `serde_json` makes of a JSON text: parsed as a `serde_json::Value`
/// and written back in compact form; `None` where it is not JSON.
pub uninterp spec fn json_reencoded(text: Seq<char>) -> Option<Seq<char>>;

/// `serde_json::from_str::<serde_json::Value>`, the value written back as
/// compact text. Nothing is claimed of the text beyond its name.
#[verifier::external_body]
fn reencode_json(text: &str) -> (r: Option<String>)
    ensures
        r matches Some(t) ==> json_reencoded(text@) == Some(t@),
        r is None ==> json_reencoded(text@) is None,
{
    match serde_json::from_str::<serde_json::Value>(text) {
        Ok(value) => Some(value.to_string()),
        Err(_) => None,
    }
}

/// The tags text that a stored item is sent with: its tags re-encoded as
/// compact JSON, or `[]` where it has none or they are not JSON.
pub open spec fn db_tags(tags: Option<Seq<char>>) -> Seq<char> {
    match tags {
        Some(t) => match json_reencoded(t) {
            Some(j) => j,
            None => "[]"@,
        },
        None => "[]"@,
    }
}

/// The fields of `item` as the database endpoints send them, with `tags`
/// the given tags text.
pub open spec fn db_item_fields(item: Item, d: DbItem, tags: Seq<char>) -> bool {
    &&& d.id == item.id
    &&& d.name@ == item.name@
    &&& d.category@ == item.category@
    &&& d.price == item.price
    &&& d.quantity == item.quantity
    &&& d.active == item.active
    &&& d.tags@ == tags
    &&& d.rating.score == item.rating_score
    &&& d.rating.count == item.rating_count
}

pub open spec fn option_view(o: Option<String>) -> Option<Seq<char>> {
    match o {
        Some(s) => Some(s@),
        None => None,
    }
}

impl DbItem {
    /// A stored item as the database endpoints send it.
    pub fn from(item: &Item) -> (d: DbItem)
        ensures
            db_item_fields(*item, d, db_tags(option_view(item.tags))),
    {
        let reencoded = match &item.tags {
            Some(encoded) => reencode_json(encoded.as_str()),
            None => None,
        };
        DbItem::from_reencoded(item, reencoded)
    }

    /// A stored item as the database endpoints send it, where `reencoded` is
    /// what re-encoding its tags as JSON gave (`None` for no tags or tags
    /// that are not JSON).
    pub fn from_reencoded(item: &Item, reencoded: Option<String>) -> (d: DbItem)
        ensures
            db_item_fields(
                *item,
                d,
                match reencoded {
                    Some(t) => t@,
                    None => "[]"@,
                },
            ),
    {
        let tags = match reencoded {
            Some(t) => t,
            None => "[]".to_owned(),
        };
        DbItem {
            id: item.id,
            name: item.name.clone(),
            category: item.category.clone(),
            price: item.price,
            quantity: item.quantity,
            active: item.active,
            tags,
            rating: RatingOut { score: item.rating_score, count: item.rating_count },
        }
    }
}

/// A value bound to a parameter of an SQL statement.
pub enum QueryValue {
    Int(i64),
    String(String),
    Bool(bool),
}

} // verus!

//! Which endpoint a request is for, with its path parameters read.

use vstd::prelude::*;
use crate::strings::{parse_i64, parse_u64, spec_parse_i64, spec_parse_u64, str_eq};
use crate::urls::{Method, ServerRouter, resolve, answers, endpoints_view, path_params};

verus! {

/// The endpoint that serves a request, with its path parameters.
pub enum Route {
    Pipeline,
    Baseline11,
    Baseline11Post,
    Baseline2,
    Upload,
    Json { count: usize },
    Static { path: String },
    AsyncDb,
    CrudList,
    CrudRead { id: i64 },
    CrudCreate,
    CrudUpdate { id: i64 },
    Fortunes,
    /// A path parameter does not parse: answered with `400 Bad Request`.
    BadRequest,
    /// No endpoint answers: answered with `404 Not Found`.
    NotFound,
}

/// The first path parameter (empty where there is none).
pub open spec fn first_param(params: Seq<Seq<char>>) -> Seq<char> {
    if params.len() > 0 {
        params[0]
    } else {
        Seq::empty()
    }
}

/// What `str::parse::<usize>` gives a text.
pub open spec fn spec_parse_usize(s: Seq<char>) -> Option<usize> {
    match spec_parse_u64(s) {
        Some(c) => if c <= usize::MAX {
            Some(c as usize)
        } else {
            None
        },
        None => None,
    }
}

/// Whether `r` is the route of the endpoint named `name` with path
/// parameters `params`: an integer parameter that does not parse gives
/// `BadRequest`, an unknown name `NotFound`.
pub open spec fn is_route(name: Seq<char>, params: Seq<Seq<char>>, r: Route) -> bool {
    if name == "pipeline"@ {
        r is Pipeline
    } else if name == "baseline11"@ {
        r is Baseline11
    } else if name == "baseline11-post"@ {
        r is Baseline11Post
    } else if name == "baseline2"@ {
        r is Baseline2
    } else if name == "upload"@ {
        r is Upload
    } else if name == "json"@ {
        match spec_parse_usize(first_param(params)) {
            Some(c) => r matches Route::Json { count } && count == c,
            None => r is BadRequest,
        }
    } else if name == "static"@ {
        r matches Route::Static { path } && path@ == first_param(params)
    } else if name == "async-db"@ {
        r is AsyncDb
    } else if name == "crud-list"@ {
        r is CrudList
    } else if name == "crud-read"@ {
        match spec_parse_i64(first_param(params)) {
            Some(i) => r matches Route::CrudRead { id } && id == i,
            None => r is BadRequest,
        }
    } else if name == "crud-create"@ {
        r is CrudCreate
    } else if name == "crud-update"@ {
        match spec_parse_i64(first_param(params)) {
            Some(i) => r matches Route::CrudUpdate { id } && id == i,
            None => r is BadRequest,
        }
    } else if name == "fortunes"@ {
        r is Fortunes
    } else {
        r is NotFound
    }
}

/// The route of a request with method `method` (`None` for a method that no
/// endpoint answers) on `path`: that of the first registered endpoint that
/// answers it, `NotFound` where none does.
pub fn route(router: &ServerRouter, method: Option<Method>, path: &str) -> (r: Route)
    ensures
        method is None ==> r is NotFound,
        method matches Some(m) ==> {
            let ev = endpoints_view(router.endpoints@);
            &&& (forall|k: int| 0 <= k < ev.len() ==> !answers(#[trigger] ev[k], m, path@)) ==> r is NotFound
            &&& forall|i: int|
                0 <= i < ev.len() && answers(#[trigger] ev[i], m, path@) && (forall|k: int|
                    0 <= k < i ==> !answers(#[trigger] ev[k], m, path@)) ==> is_route(
                    ev[i].2,
                    path_params(ev[i].1, path@),
                    r,
                )
        },
{
    let m = match method {
        Some(m) => m,
        None => {
            return Route::NotFound;
        },
    };
    let ghost ev = endpoints_view(router.endpoints@);
    let (index, params) = match resolve(router, m, path) {
        Some(found) => found,
        None => {
            return Route::NotFound;
        },
    };
    let ghost pv = params@.map_values(|s: String| s@);
    proof {
        assert forall|i: int|
            0 <= i < ev.len() && answers(#[trigger] ev[i], m, path@) && (forall|k: int|
                0 <= k < i ==> !answers(#[trigger] ev[k], m, path@)) implies i == index by {
            if i < index {
            } else if i > index {
                assert(answers(ev[index as int], m, path@));
            }
        }
    }
    let name = router.endpoints[index].name;
    assert(ev[index as int].2 == name@);
    let first: String = if params.len() > 0 {
        params[0].clone()
    } else {
        String::new()
    };
    assert(first@ == first_param(pv)) by {
        if params@.len() > 0 {
            assert(pv[0] == params@[0]@);
        }
    }
    if str_eq(name, "pipeline") {
        Route::Pipeline
    } else if str_eq(name, "baseline11") {
        Route::Baseline11
    } else if str_eq(name, "baseline11-post") {
        Route::Baseline11Post
    } else if str_eq(name, "baseline2") {
        Route::Baseline2
    } else if str_eq(name, "upload") {
        Route::Upload
    } else if str_eq(name, "json") {
        match parse_u64(first.as_str()) {
            Some(c) => {
                if c <= (usize::MAX as u64) {
                    Route::Json { count: c as usize }
                } else {
                    Route::BadRequest
                }
            },
            None => Route::BadRequest,
        }
    } else if str_eq(name, "static") {
        Route::Static { path: first }
    } else if str_eq(name, "async-db") {
        Route::AsyncDb
    } else if str_eq(name, "crud-list") {
        Route::CrudList
    } else if str_eq(name, "crud-read") {
        match parse_i64(first.as_str()) {
            Some(id) => Route::CrudRead { id },
            None => Route::BadRequest,
        }
    } else if str_eq(name, "crud-create") {
        Route::CrudCreate
    } else if str_eq(name, "crud-update") {
        match parse_i64(first.as_str()) {
            Some(id) => Route::CrudUpdate { id },
            None => Route::BadRequest,
        }
    } else if str_eq(name, "fortunes") {
        Route::Fortunes
    } else {
        Route::NotFound
    }
}

} // verus!

use vstd::prelude::*;

verus! {

/// Whether `routefinder` accepts a route text and can match with it without
/// panicking: ASCII only (its parser looks characters up by byte
/// position), no wildcard `*`, and every `:` opens a named parameter.
pub open spec fn plain_route(r: Seq<char>) -> bool {
    &&& forall|i: int| 0 <= i < r.len() ==> (r[i] as u32) < 0x80
    &&& forall|i: int| 0 <= i < r.len() ==> r[i] != '*'
    &&& forall|i: int|
        0 <= i < r.len() && #[trigger] r[i] == ':' ==> i + 1 < r.len() && r[i + 1] != '/' && r[i + 1] != '.'
}

/// The outcome of `routefinder::Router::best_match` on a router built by
/// adding `routes` in order, each with its position as handler: the
/// position of the best matching route and the named captures of the
/// match, in order.
pub uninterp spec fn routefinder_best_match(routes: Seq<Seq<char>>, path: Seq<char>) -> Option<(int, Seq<(Seq<char>, Seq<char>)>)>;

pub open spec fn route_texts(routes: Seq<String>) -> Seq<Seq<char>> {
    routes.map_values(|r: String| r@)
}

pub open spec fn capture_texts(c: Seq<(String, String)>) -> Seq<(Seq<char>, Seq<char>)> {
    c.map_values(|p: (String, String)| (p.0@, p.1@))
}

pub open spec fn match_view(m: Option<(usize, Vec<(String, String)>)>) -> Option<(int, Seq<(Seq<char>, Seq<char>)>)> {
    match m {
        Some((i, c)) => Some((i as int, capture_texts(c@))),
        None => None,
    }
}

/// Builds a `routefinder::Router` from the routes (handler = position) and
/// calls `best_match` on the path. The contract names the outcome and
/// states only that a matched handler is one of the positions given; which
/// route wins is left to the crate.
#[verifier::external_body]
pub(crate) fn best_route(routes: &Vec<String>, path: &str) -> (r: Option<(usize, Vec<(String, String)>)>)
    requires
        forall|i: int| 0 <= i < routes@.len() ==> plain_route(#[trigger] routes@[i]@),
    ensures
        match_view(r) == routefinder_best_match(route_texts(routes@), path@),
        r matches Some(m) ==> m.0 < routes@.len(),
{
    let mut router = routefinder::Router::new();
    for (i, route) in routes.iter().enumerate() {
        let _ = router.add(route.as_str(), i);
    }
    router.best_match(path).map(|m| {
        let captures = m.captures();
        let pairs = captures.iter().map(|(k, v)| (k.to_string(), v.to_string())).collect();
        (*m.handler(), pairs)
    })
}

} // verus!

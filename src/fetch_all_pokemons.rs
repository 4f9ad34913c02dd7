use vstd::prelude::*;
use crate::entities::{string_views, tags_of_types, Pokemon};
use crate::repository::{lists_store, FetchAllError, Repository, StoreView};

verus! {

/// Why the records could not be listed.
#[derive(Debug, Clone, Copy, PartialEq, Eq, Structural)]
pub enum Error {
    /// The backend failed.
    Unknown,
}

/// The fields of one kept record.
pub struct Response {
    pub number: u16,
    pub name: String,
    pub types: Vec<String>,
}

/// The response gives the fields of record `p`, with its categories as tags.
pub open spec fn responds_with(resp: Response, p: Pokemon) -> bool {
    resp.number == p@.0 && resp.name@ == p@.1 && string_views(resp.types@) == tags_of_types(p@.2)
}

/// `rs` gives the fields of each record of `m` once, in some order.
pub open spec fn lists_responses(rs: Seq<Response>, m: StoreView) -> bool {
    &&& forall|i: int|
        0 <= i < rs.len() ==> m.contains_key((#[trigger] rs[i]).number) && rs[i].name@ == m[rs[i].number].0
            && string_views(rs[i].types@) == tags_of_types(m[rs[i].number].1)
    &&& forall|i: int, j: int| 0 <= i < j < rs.len() ==> (#[trigger] rs[i]).number != (#[trigger] rs[j]).number
    &&& forall|k: u16| #[trigger] m.contains_key(k) ==> exists|i: int| 0 <= i < rs.len() && (#[trigger] rs[i]).number == k
}

/// Turns what the backend listed into the answer to the caller: one response
/// for each record, in the same order, or `Unknown` when the backend failed.
pub fn respond(r: Result<Vec<Pokemon>, FetchAllError>) -> (out: Result<Vec<Response>, Error>)
    ensures
        r is Err <==> out is Err,
        r is Err ==> out == Err::<Vec<Response>, Error>(Error::Unknown),
        r matches Ok(v) ==> out matches Ok(rs) && rs@.len() == v@.len() && forall|i: int|
            0 <= i < v@.len() ==> responds_with(#[trigger] rs@[i], v@[i]),
{
    match r {
        Ok(pokemons) => {
            let mut rs: Vec<Response> = Vec::new();
            let mut i: usize = 0;
            while i < pokemons.len()
                invariant
                    i <= pokemons.len(),
                    rs@.len() == i,
                    forall|j: int| 0 <= j < i ==> responds_with(#[trigger] rs@[j], pokemons@[j]),
                decreases pokemons.len() - i,
            {
                let p = &pokemons[i];
                rs.push(
                    Response {
                        number: p.number.value(),
                        name: p.name.duplicate().into_string(),
                        types: p.types.duplicate().into_tags(),
                    },
                );
                i = i + 1;
            }
            Ok(rs)
        },
        Err(FetchAllError::Unknown) => Err(Error::Unknown),
    }
}

/// Lists every kept record as plain fields. A backend that never fails gives
/// the list, so an empty store gives an empty list, not an error; one that
/// always fails gives `Unknown`.
pub fn execute<R: Repository>(repo: &R) -> (r: Result<Vec<Response>, Error>)
    requires
        repo.inv(),
    ensures
        r matches Ok(rs) ==> lists_responses(rs@, repo.stored()),
        repo.reliable() ==> r is Ok,
        repo.broken() ==> r == Err::<Vec<Response>, Error>(Error::Unknown),
{
    let fetched = repo.fetch_all();
    let ghost f = fetched;
    let out = respond(fetched);
    proof {
        if let Ok(v) = f {
            let rs = out->Ok_0@;
            let m = repo.stored();
            let w = v@;
            assert forall|i: int| 0 <= i < rs.len() implies m.contains_key((#[trigger] rs[i]).number)
                && rs[i].name@ == m[rs[i].number].0 && string_views(rs[i].types@) == tags_of_types(
                m[rs[i].number].1,
            ) by {
                assert(responds_with(rs[i], w[i]));
                assert(m.contains_key(w[i]@.0));
            }
            assert forall|i: int, j: int| 0 <= i < j < rs.len() implies (#[trigger] rs[i]).number != (
            #[trigger] rs[j]).number by {
                assert(responds_with(rs[i], w[i]) && responds_with(rs[j], w[j]));
                assert(w[i]@.0 != w[j]@.0);
            }
            assert forall|k: u16| #[trigger] m.contains_key(k) implies exists|i: int|
                0 <= i < rs.len() && (#[trigger] rs[i]).number == k by {
                let i = choose|i: int| 0 <= i < w.len() && (#[trigger] w[i])@.0 == k;
                assert(responds_with(rs[i], w[i]));
            }
        }
    }
    out
}

} // verus!

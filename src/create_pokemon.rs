use vstd::prelude::*;
use crate::entities::{
    lemma_tags_round_trip, string_views, tags_of_types, types_of_tags, valid_number, valid_tags,
    Pokemon, PokemonName, PokemonNumber, PokemonTypes,
};
use crate::repository::{inserted, InsertError, Repository};

verus! {

/// The raw fields of a record to create, as a caller hands them over.
pub struct Request {
    pub number: u16,
    pub name: String,
    pub types: Vec<String>,
}

/// The fields of the record that was kept.
pub struct Response {
    pub number: u16,
    pub name: String,
    pub types: Vec<String>,
}

/// Why a record was not created.
#[derive(Debug, Clone, Copy, PartialEq, Eq, Structural)]
pub enum Error {
    /// A field breaks its rule.
    BadRequest,
    /// A record with that number is already kept.
    Conflict,
    /// The backend failed.
    Unknown,
}

/// Every field of the request keeps its rule.
pub open spec fn valid_request(number: u16, name: Seq<char>, tags: Seq<Seq<char>>) -> bool {
    valid_number(number) && name.len() > 0 && valid_tags(tags)
}

/// The response gives back the record `(n, name, types)`, with its categories as tags.
pub open spec fn responds_with(
    resp: Response,
    n: u16,
    name: Seq<char>,
    types: Seq<crate::entities::PokemonType>,
) -> bool {
    resp.number == n && resp.name@ == name && string_views(resp.types@) == tags_of_types(types)
}

/// Turns what the backend answered to an insert into the answer to the caller:
/// the kept record's fields on success, and the matching error otherwise.
pub fn respond(r: Result<Pokemon, InsertError>) -> (out: Result<Response, Error>)
    ensures
        r matches Ok(p) ==> out matches Ok(resp) && responds_with(resp, p@.0, p@.1, p@.2),
        r == Err::<Pokemon, InsertError>(InsertError::Conflict) ==> out == Err::<Response, Error>(
            Error::Conflict,
        ),
        r == Err::<Pokemon, InsertError>(InsertError::Unknown) ==> out == Err::<Response, Error>(
            Error::Unknown,
        ),
{
    match r {
        Ok(p) => {
            let Pokemon { number, name, types } = p;
            Ok(Response { number: number.value(), name: name.into_string(), types: types.into_tags() })
        },
        Err(InsertError::Conflict) => Err(Error::Conflict),
        Err(InsertError::Unknown) => Err(Error::Unknown),
    }
}

/// Creates a record from raw fields. Every field is validated; if any breaks
/// its rule the backend is not touched and the answer is `BadRequest`.
/// Otherwise the record is handed to the backend once, and its answer decides:
/// the record as given, `Conflict` when the number is already kept, or
/// `Unknown` when the backend failed. A backend that never fails gives the
/// record when its number is new and `Conflict` otherwise; one that always
/// fails gives `Unknown`.
pub fn execute<R: Repository>(repo: &mut R, req: Request) -> (r: Result<Response, Error>)
    requires
        old(repo).inv(),
    ensures
        final(repo).inv(),
        !valid_request(req.number, req.name@, string_views(req.types@)) ==> r == Err::<
            Response,
            Error,
        >(Error::BadRequest) && final(repo).stored() == old(repo).stored(),
        valid_request(req.number, req.name@, string_views(req.types@)) ==> r != Err::<
            Response,
            Error,
        >(Error::BadRequest),
        r matches Ok(resp) ==> resp.number == req.number && resp.name@ == req.name@ && string_views(
            resp.types@,
        ) == string_views(req.types@) && !old(repo).stored().contains_key(req.number)
            && final(repo).stored() == inserted(
            old(repo).stored(),
            req.number,
            req.name@,
            types_of_tags(string_views(req.types@)),
        ),
        r == Err::<Response, Error>(Error::Conflict) ==> old(repo).stored().contains_key(req.number)
            && final(repo).stored() == old(repo).stored(),
        r == Err::<Response, Error>(Error::Unknown) ==> final(repo).stored() == old(repo).stored(),
        valid_request(req.number, req.name@, string_views(req.types@)) && old(repo).reliable()
            && !old(repo).stored().contains_key(req.number) ==> r is Ok,
        valid_request(req.number, req.name@, string_views(req.types@)) && old(repo).reliable()
            && old(repo).stored().contains_key(req.number) ==> r == Err::<Response, Error>(
            Error::Conflict,
        ),
        valid_request(req.number, req.name@, string_views(req.types@)) && old(repo).broken() ==> r
            == Err::<Response, Error>(Error::Unknown),
        final(repo).reliable() == old(repo).reliable(),
        final(repo).broken() == old(repo).broken(),
{
    let ghost tags = string_views(req.types@);
    let Request { number, name, types } = req;
    match (PokemonNumber::try_from(number), PokemonName::try_from(name), PokemonTypes::try_from(types)) {
        (Ok(number), Ok(name), Ok(types)) => {
            proof {
                lemma_tags_round_trip(tags);
            }
            respond(repo.insert(number, name, types))
        },
        _ => Err(Error::BadRequest),
    }
}

} // verus!

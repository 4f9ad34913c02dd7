use pokedex::create_pokemon;
use pokedex::entities::{Pokemon, PokemonName, PokemonNumber, PokemonTypes};
use pokedex::fetch_all_pokemons::{execute, respond, Error};
use pokedex::repository::{FetchAllError, InMemoryRepository, InsertError, Repository};

#[test]
fn fresh_backend_lists_nothing() {
    let repo = InMemoryRepository::new();
    let all = execute(&repo).ok().unwrap();
    assert!(all.is_empty());
}

#[test]
fn one_insert_then_list() {
    let mut repo = InMemoryRepository::new();
    let req = create_pokemon::Request {
        number: 25,
        name: String::from("Pikachu"),
        types: vec![String::from("Electric")],
    };
    assert!(create_pokemon::execute(&mut repo, req).is_ok());
    let all = execute(&repo).ok().unwrap();
    assert_eq!(all.len(), 1);
    assert_eq!(all[0].number, 25);
    assert_eq!(all[0].name, String::from("Pikachu"));
    assert_eq!(all[0].types, vec![String::from("Electric")]);
}

#[test]
fn failing_backend_lists_unknown() {
    let repo = InMemoryRepository::new().with_error();
    assert!(matches!(execute(&repo), Err(Error::Unknown)));
}

#[test]
fn in_memory_backend_answers() {
    let mut repo = InMemoryRepository::new();
    let make = |n: u16, s: &str| {
        (
            PokemonNumber::try_from(n).unwrap(),
            PokemonName::try_from(String::from(s)).unwrap(),
            PokemonTypes::try_from(vec![String::from("Fire")]).unwrap(),
        )
    };
    let (n, s, t) = make(4, "Charmander");
    let kept = repo.insert(n, s, t).unwrap();
    assert_eq!(kept.number.value(), 4);
    let (n, s, t) = make(4, "Other");
    assert_eq!(repo.insert(n, s, t).unwrap_err(), InsertError::Conflict);
    let (n, s, t) = make(5, "Charmeleon");
    assert!(repo.insert(n, s, t).is_ok());
    let all = repo.fetch_all().unwrap();
    assert_eq!(all.len(), 2);
    let mut failing = repo.with_error();
    let (n, s, t) = make(6, "Charizard");
    assert_eq!(failing.insert(n, s, t).unwrap_err(), InsertError::Unknown);
    assert_eq!(failing.fetch_all().unwrap_err(), FetchAllError::Unknown);
}

#[test]
fn respond_keeps_order() {
    assert!(matches!(respond(Err(FetchAllError::Unknown)), Err(Error::Unknown)));
    let p = |n: u16, s: &str, t: &str| {
        Pokemon::new(
            PokemonNumber::try_from(n).unwrap(),
            PokemonName::try_from(String::from(s)).unwrap(),
            PokemonTypes::try_from(vec![String::from(t)]).unwrap(),
        )
    };
    let rs = respond(Ok(vec![p(7, "Squirtle", "Electric"), p(1, "Bulbasaur", "Fire")]))
        .ok()
        .unwrap();
    assert_eq!(rs.len(), 2);
    assert_eq!(rs[0].number, 7);
    assert_eq!(rs[0].name, String::from("Squirtle"));
    assert_eq!(rs[0].types, vec![String::from("Electric")]);
    assert_eq!(rs[1].number, 1);
    assert_eq!(rs[1].types, vec![String::from("Fire")]);
}

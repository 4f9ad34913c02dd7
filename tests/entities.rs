use pokedex::entities::{PokemonName, PokemonNumber, PokemonType, PokemonTypes, ValueError};

#[test]
fn number_bounds() {
    assert_eq!(PokemonNumber::try_from(0).unwrap_err(), ValueError::InvalidNumber);
    assert_eq!(u16::from(PokemonNumber::try_from(1).unwrap()), 1);
    assert_eq!(u16::from(PokemonNumber::try_from(898).unwrap()), 898);
    assert_eq!(PokemonNumber::try_from(899).unwrap_err(), ValueError::InvalidNumber);
    assert_eq!(PokemonNumber::try_from(u16::MAX).unwrap_err(), ValueError::InvalidNumber);
}

#[test]
fn every_valid_number_round_trips() {
    for n in 1u16..899 {
        assert_eq!(PokemonNumber::try_from(n).unwrap().value(), n);
    }
}

#[test]
fn empty_name_is_refused() {
    assert_eq!(PokemonName::try_from(String::new()).unwrap_err(), ValueError::InvalidName);
}

#[test]
fn name_round_trips_without_trimming() {
    for s in ["Pikachu", " ", "  Mr. Mime  "] {
        let name = PokemonName::try_from(String::from(s)).unwrap();
        assert_eq!(name.into_string(), String::from(s));
    }
}

#[test]
fn types_are_validated() {
    assert_eq!(PokemonTypes::try_from(vec![]).unwrap_err(), ValueError::InvalidTypes);
    assert_eq!(
        PokemonTypes::try_from(vec![String::from("Bogus")]).unwrap_err(),
        ValueError::InvalidTypes
    );
    assert!(PokemonTypes::try_from(vec![String::from("Electric")]).is_ok());
    assert_eq!(
        PokemonTypes::try_from(vec![String::from("Electric"), String::from("Bogus")]).unwrap_err(),
        ValueError::InvalidTypes
    );
}

#[test]
fn types_round_trip_with_repeats() {
    let tags = vec![String::from("Electric"), String::from("Fire"), String::from("Electric")];
    let types = PokemonTypes::try_from(tags.clone()).unwrap();
    assert_eq!(types.into_tags(), tags);
}

#[test]
fn single_tags() {
    assert_eq!(PokemonType::try_from(&String::from("Electric")), Ok(PokemonType::Electric));
    assert_eq!(PokemonType::try_from(&String::from("Fire")), Ok(PokemonType::Fire));
    assert_eq!(PokemonType::try_from(&String::from("fire")), Err(ValueError::InvalidTypes));
    assert_eq!(PokemonType::Fire.to_tag(), String::from("Fire"));
    assert_eq!(PokemonType::Electric.to_tag(), String::from("Electric"));
}

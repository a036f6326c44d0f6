use adventure::scenario::{SceneType, SceneTypeRandom};

#[test]
fn classify_round_trips() {
    assert_eq!(SceneType::parse("monster|goblin"), SceneType::Monster(String::from("goblin")));
    assert_eq!(SceneType::parse(""), SceneType::Select);
    assert_eq!(SceneType::parse("weird"), SceneType::Unknown(String::from("weird")));
    assert_eq!(SceneType::parse("random|any"), SceneType::Random(SceneTypeRandom::Any));
}

#[test]
fn classify_is_idempotent_on_samples() {
    let samples = ["", "quit", "select", "monster|goblin", "potion| x ", "weird|a|b", "RAND|MONSTER"];
    for s in samples {
        assert_eq!(SceneType::parse(s), SceneType::parse(s));
    }
}

#[test]
fn classify_lowers_and_trims_arguments() {
    assert_eq!(SceneType::parse("QUIT"), SceneType::Quit);
    assert_eq!(SceneType::parse("Potion|  Elixir "), SceneType::Potion(String::from("elixir")));
    assert_eq!(SceneType::parse("pot|p1"), SceneType::Potion(String::from("p1")));
    assert_eq!(SceneType::parse("weap|sword"), SceneType::Weapon(String::from("sword")));
    assert_eq!(SceneType::parse("weapon|sword"), SceneType::Weapon(String::from("sword")));
    assert_eq!(SceneType::parse("rand|weapon"), SceneType::Random(SceneTypeRandom::Weapon));
    assert_eq!(SceneType::parse("random|potion"), SceneType::Random(SceneTypeRandom::Potion));
    assert_eq!(SceneType::parse("random|monster"), SceneType::Random(SceneTypeRandom::Monster));
}

#[test]
fn classify_unknown_shapes() {
    assert_eq!(SceneType::parse("a|b|c"), SceneType::Unknown(String::from("a|b|c")));
    assert_eq!(
        SceneType::parse("blorb|x"),
        SceneType::Unknown(String::from("blorb|x"))
    );
    assert_eq!(
        SceneType::parse("random|dragon"),
        SceneType::Random(SceneTypeRandom::Unknown(String::from("dragon")))
    );
}

#[test]
fn random_kind_parses_exactly() {
    assert_eq!(SceneTypeRandom::parse("any"), SceneTypeRandom::Any);
    assert_eq!(SceneTypeRandom::parse("monster"), SceneTypeRandom::Monster);
    assert_eq!(SceneTypeRandom::parse("weapon"), SceneTypeRandom::Weapon);
    assert_eq!(SceneTypeRandom::parse("potion"), SceneTypeRandom::Potion);
    assert_eq!(SceneTypeRandom::parse("Any"), SceneTypeRandom::Unknown(String::from("Any")));
}

use adventure::entities::{Entity, Potion, Weapon};
use adventure::scenario::{GameOption, Scenario, Scene, SceneType, ValidationError};

fn scene(id: &str, s_type: &str, options: Vec<GameOption>, next: Option<&str>) -> Scene {
    Scene {
        id: String::from(id),
        desc: format!("You are at {}", id),
        options,
        next: next.map(String::from),
        s_type: String::from(s_type),
    }
}

fn small_scenario() -> Scenario {
    Scenario {
        version: String::from("1"),
        player: Entity::new(String::from("Hero"), 10),
        monsters: vec![Entity::from_parts(String::from("g1"), String::from("Goblin"), 7, Vec::new())],
        weapons: vec![Weapon { id: String::from("w1"), name: String::from("Sword"), damage: 3 }],
        potions: vec![Potion { id: String::from("p1"), name: String::from("Elixir"), health: 5 }],
        scenes: vec![
            scene("start", "", vec![GameOption::new("n", "North", "end")], None),
            scene("end", "quit", vec![], None),
        ],
    }
}

#[test]
fn lookups_find_first_match_by_id() {
    let s = small_scenario();
    assert_eq!(s.start().unwrap().id, "start");
    assert_eq!(s.get_scene("end").unwrap().s_type, "quit");
    assert!(s.get_scene("nowhere").is_none());
    assert_eq!(s.get_monster("g1").unwrap().name(), "Goblin");
    assert!(s.get_monster("g2").is_none());
    assert_eq!(s.get_weapon("w1").unwrap().damage, 3);
    assert!(s.get_weapon("w2").is_none());
    assert_eq!(s.get_potions("p1").unwrap().health, 5);
    assert!(s.get_potions("p2").is_none());
    assert_eq!(s.scene_index("end"), Some(1));
    assert_eq!(s.monster_index("g1"), Some(0));
}

#[test]
fn get_scene_mut_hands_back_the_position() {
    let mut s = small_scenario();
    assert_eq!(s.get_scene_mut("start"), Some(0));
    assert_eq!(s.get_scene_mut("missing"), None);
}

#[test]
fn scene_option_lookup_and_type() {
    let s = small_scenario();
    let start = s.start().unwrap();
    assert_eq!(start.get_option("n").unwrap().action, "end");
    assert!(start.get_option("x").is_none());
    assert_eq!(start.scene_type(), SceneType::Select);
    assert!(!start.is_quit());
    let end = s.get_scene("end").unwrap();
    assert!(end.is_quit());
    assert_eq!(end.scene_type(), SceneType::Quit);
}

#[test]
fn default_scene_is_blank() {
    let d = Scene::default();
    assert_eq!(d.id, "");
    assert_eq!(d.desc, "");
    assert!(d.options.is_empty());
    assert!(d.next.is_none());
    assert_eq!(d.s_type, "");
}

#[test]
fn valid_scenario_passes_validation() {
    assert!(small_scenario().validate().is_ok());
}

#[test]
fn option_to_absent_scene_fails_validation() {
    let mut s = small_scenario();
    s.scenes[0].options.push(GameOption::new("x", "Nowhere", "missing"));
    match s.validate() {
        Err(ValidationError::MissingOptionTarget { scene, target }) => {
            assert_eq!(scene, "start");
            assert_eq!(target, "missing");
        }
        other => panic!("expected a missing option target, got {:?}", other),
    }
}

#[test]
fn duplicate_ids_fail_validation() {
    let mut s = small_scenario();
    s.scenes.push(scene("start", "", vec![], None));
    assert!(matches!(s.validate(), Err(ValidationError::DuplicateSceneId(id)) if id == "start"));

    let mut s = small_scenario();
    s.monsters.push(Entity::from_parts(String::from("g1"), String::from("Gnoll"), 2, Vec::new()));
    assert!(matches!(s.validate(), Err(ValidationError::DuplicateMonsterId(id)) if id == "g1"));

    let mut s = small_scenario();
    s.weapons.push(Weapon { id: String::from("w1"), name: String::from("Axe"), damage: 9 });
    assert!(matches!(s.validate(), Err(ValidationError::DuplicateWeaponId(id)) if id == "w1"));

    let mut s = small_scenario();
    s.potions.push(Potion { id: String::from("p1"), name: String::from("Brew"), health: 1 });
    assert!(matches!(s.validate(), Err(ValidationError::DuplicatePotionId(id)) if id == "p1"));
}

#[test]
fn typed_scene_arguments_must_resolve() {
    let mut s = small_scenario();
    s.scenes[0].s_type = String::from("monster|ghost");
    assert!(matches!(
        s.validate(),
        Err(ValidationError::MissingMonster { scene, id }) if scene == "start" && id == "ghost"
    ));

    let mut s = small_scenario();
    s.scenes[0].s_type = String::from("weapon|club");
    assert!(matches!(
        s.validate(),
        Err(ValidationError::MissingWeapon { scene, id }) if scene == "start" && id == "club"
    ));

    let mut s = small_scenario();
    s.scenes[0].s_type = String::from("potion|brew");
    assert!(matches!(
        s.validate(),
        Err(ValidationError::MissingPotion { scene, id }) if scene == "start" && id == "brew"
    ));

    let mut s = small_scenario();
    s.scenes[0].s_type = String::from("monster|g1");
    assert!(s.validate().is_ok());
}

#[test]
fn game_option_new_copies_fields() {
    let g = GameOption::new("y", "Yes", "exit");
    assert_eq!(g, GameOption { id: String::from("y"), name: String::from("Yes"), action: String::from("exit") });
}

#[test]
fn option_lookup_ignores_letter_case() {
    let sc = scene("start", "", vec![GameOption::new("N", "North", "end")], None);
    assert_eq!(sc.get_option("n").unwrap().action, "end");
    assert_eq!(sc.get_option("N").unwrap().action, "end");
    let sc = scene("start", "", vec![GameOption::new("y", "Yes", "end")], None);
    assert_eq!(sc.get_option("Y").unwrap().action, "end");
    assert!(sc.get_option("x").is_none());
}

#[test]
fn quit_detection_goes_by_classification() {
    assert!(scene("end", "QUIT", vec![], None).is_quit());
    assert!(scene("end", "Quit", vec![], None).is_quit());
    assert!(scene("end", "quit", vec![], None).is_quit());
    // classification splits and matches whole segments: these are not quits
    assert!(!scene("end", " quit", vec![], None).is_quit());
    assert!(!scene("end", "quit|x", vec![], None).is_quit());
    assert!(!scene("end", "", vec![], None).is_quit());
}

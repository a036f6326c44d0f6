use adventure::actions::UserAction;
use adventure::engine::{EndReason, Engine, EngineError, StepResult};
use adventure::entities::{Entity, Potion, Weapon};
use adventure::scenario::{GameOption, Scenario, Scene};

fn scene(id: &str, s_type: &str, options: Vec<GameOption>, next: Option<&str>) -> Scene {
    Scene {
        id: String::from(id),
        desc: format!("You are at {}", id),
        options,
        next: next.map(String::from),
        s_type: String::from(s_type),
    }
}

fn base(scenes: Vec<Scene>) -> Scenario {
    Scenario {
        version: String::from("1"),
        player: Entity::new(String::from("Hero"), 10),
        monsters: Vec::new(),
        weapons: Vec::new(),
        potions: Vec::new(),
        scenes,
    }
}

fn select(id: &str) -> UserAction {
    UserAction::Select(String::from(id))
}

#[test]
fn two_scene_scenario_plays_to_the_end() {
    let scenario = base(vec![
        scene("start", "", vec![GameOption::new("n", "North", "end")], None),
        scene("end", "quit", vec![], None),
    ]);
    let mut eng = Engine::new(scenario).unwrap();
    assert_eq!(eng.scenario.scenes[eng.current].id, "start");

    let r = eng.step(&select("n"), 0);
    assert!(matches!(r, StepResult::Ended(EndReason::SceneQuit)));
    assert_eq!(eng.scenario.scenes[eng.current].id, "end");
    assert_eq!(eng.previous.as_deref(), Some("start"));
    assert_eq!(eng.ended, Some(EndReason::SceneQuit));

    // a finished session only repeats why it ended
    let r = eng.step(&select("n"), 0);
    assert!(matches!(r, StepResult::Ended(EndReason::SceneQuit)));
}

#[test]
fn engine_needs_scenes_and_a_valid_graph() {
    assert!(matches!(Engine::new(base(vec![])), Err(EngineError::NoScenes)));

    let broken = base(vec![scene(
        "start",
        "",
        vec![GameOption::new("n", "North", "missing")],
        None,
    )]);
    assert!(matches!(Engine::new(broken), Err(EngineError::Invalid(_))));
}

#[test]
fn engine_starts_on_first_scene_without_start_id() {
    let scenario = base(vec![scene("intro", "", vec![], None), scene("other", "", vec![], None)]);
    let eng = Engine::new(scenario).unwrap();
    assert_eq!(eng.scenario.scenes[eng.current].id, "intro");
}

#[test]
fn selection_is_case_insensitive_and_checked() {
    let scenario = base(vec![
        scene("start", "", vec![GameOption::new("N", "North", "end")], None),
        scene("end", "quit", vec![], None),
    ]);
    let mut eng = Engine::new(scenario).unwrap();

    let r = eng.step(&select("x"), 0);
    assert!(matches!(r, StepResult::InvalidOption(s) if s == "x"));
    assert_eq!(eng.scenario.scenes[eng.current].id, "start");

    let r = eng.step(&select("n"), 0);
    assert!(matches!(r, StepResult::Ended(EndReason::SceneQuit)));
}

#[test]
fn informational_actions_change_nothing() {
    let scenario = base(vec![scene("start", "", vec![], None)]);
    let mut eng = Engine::new(scenario).unwrap();
    assert!(matches!(eng.step(&UserAction::Empty, 0), StepResult::Idle));
    assert!(matches!(eng.step(&UserAction::Help, 0), StepResult::ShowHelp));
    assert!(matches!(eng.step(&UserAction::Inventory, 0), StepResult::ShowInventory));
    assert!(matches!(eng.step(&UserAction::Player, 0), StepResult::ShowPlayer));
    assert!(matches!(eng.step(&UserAction::Scene, 0), StepResult::Redraw));
    let r = eng.step(&UserAction::Unknown(String::from("dance")), 0);
    assert!(matches!(r, StepResult::UnknownAction(s) if s == "dance"));
    assert_eq!(eng.scenario.scenes[eng.current].id, "start");
    assert!(eng.ended.is_none());

    assert!(matches!(eng.step(&UserAction::Quit, 0), StepResult::Ended(EndReason::PlayerQuit)));
    assert_eq!(eng.ended, Some(EndReason::PlayerQuit));
}

#[test]
fn next_follows_the_declared_scene() {
    let scenario = base(vec![
        scene("start", "", vec![], Some("end")),
        scene("end", "quit", vec![], None),
    ]);
    let mut eng = Engine::new(scenario).unwrap();
    let r = eng.step(&UserAction::Next, 0);
    assert!(matches!(r, StepResult::Ended(EndReason::SceneQuit)));

    let scenario = base(vec![scene("start", "", vec![], None)]);
    let mut eng = Engine::new(scenario).unwrap();
    assert!(matches!(eng.step(&UserAction::Next, 0), StepResult::Idle));
}

#[test]
fn next_to_a_missing_scene_halts_with_the_ids() {
    let scenario = base(vec![scene("start", "", vec![], Some("ghost"))]);
    let mut eng = Engine::new(scenario).unwrap();
    let r = eng.step(&UserAction::Next, 0);
    match r {
        StepResult::Config(adventure::engine::ConfigError::MissingNextScene { scene, target }) => {
            assert_eq!(scene, "start");
            assert_eq!(target, "ghost");
        }
        other => panic!("expected a configuration halt, got {:?}", other),
    }
    assert_eq!(eng.ended, Some(EndReason::ConfigHalt));
}

#[test]
fn potion_scene_heals_the_player() {
    let mut scenario = base(vec![
        scene("start", "", vec![GameOption::new("d", "Drink", "cellar")], None),
        scene("cellar", "potion|p1", vec![], None),
    ]);
    scenario.potions.push(Potion { id: String::from("p1"), name: String::from("Elixir"), health: 5 });
    let mut eng = Engine::new(scenario).unwrap();
    let r = eng.step(&select("d"), 0);
    assert!(matches!(r, StepResult::PotionTaken { id, survived: true } if id == "p1"));
    assert_eq!(eng.scenario.player.health(), 15);
}

#[test]
fn poison_can_end_the_session_in_death() {
    let mut scenario = base(vec![
        scene("start", "", vec![GameOption::new("d", "Drink", "cellar")], None),
        scene("cellar", "potion|p1", vec![], None),
    ]);
    scenario.potions.push(Potion { id: String::from("p1"), name: String::from("Venom"), health: -50 });
    let mut eng = Engine::new(scenario).unwrap();
    let r = eng.step(&select("d"), 0);
    assert!(matches!(r, StepResult::Ended(EndReason::Death)));
    assert_eq!(eng.scenario.player.health(), 0);
    assert_eq!(eng.ended, Some(EndReason::Death));
}

#[test]
fn weapon_scene_arms_the_player() {
    let mut scenario = base(vec![
        scene("start", "", vec![GameOption::new("t", "Take", "armory")], None),
        scene("armory", "weapon|w1", vec![], None),
    ]);
    scenario.weapons.push(Weapon { id: String::from("w1"), name: String::from("Sword"), damage: 3 });
    let mut eng = Engine::new(scenario).unwrap();
    let r = eng.step(&select("t"), 0);
    assert!(matches!(r, StepResult::WeaponTaken(id) if id == "w1"));
    assert_eq!(eng.scenario.player.weapons().len(), 1);
    assert_eq!(eng.scenario.player.weapons()[0].damage, 3);
}

#[test]
fn combat_takes_exactly_the_needed_attacks() {
    // monster health 7, player damage 3: ceil(7 / 3) = 3 attacks
    let mut scenario = base(vec![
        scene("start", "", vec![GameOption::new("f", "Fight", "lair")], None),
        scene("lair", "monster|g1", vec![], Some("after")),
        scene("after", "quit", vec![], None),
    ]);
    scenario.monsters.push(Entity::from_parts(String::from("g1"), String::from("Goblin"), 7, Vec::new()));
    let mut eng = Engine::new(scenario).unwrap();
    let mut player_weapons = Vec::new();
    player_weapons.push(Weapon { id: String::from("w"), name: String::from("Sword"), damage: 3 });
    eng.scenario.player = Entity::from_parts(String::from(""), String::from("Hero"), 10, player_weapons);

    let r = eng.step(&select("f"), 0);
    match r {
        StepResult::Fought { monster, victory, attacks } => {
            assert_eq!(monster, "g1");
            assert!(victory);
            assert_eq!(attacks, 3);
        }
        other => panic!("expected a fight, got {:?}", other),
    }
    // an unarmed monster never strikes back, and the fallen one is flagged dead
    assert_eq!(eng.scenario.player.health(), 10);
    assert_eq!(eng.scenario.monsters[0].health(), 0);
    assert!(!eng.scenario.monsters[0].is_alive());
    // victory proceeds to the declared follow-up scene
    assert_eq!(eng.scenario.scenes[eng.current].id, "after");
}

#[test]
fn an_armed_monster_can_win() {
    let mut scenario = base(vec![
        scene("start", "", vec![GameOption::new("f", "Fight", "lair")], None),
        scene("lair", "monster|g1", vec![], None),
    ]);
    let mut fangs = Vec::new();
    fangs.push(Weapon { id: String::from("fang"), name: String::from("Fang"), damage: 100 });
    scenario.monsters.push(Entity::from_parts(String::from("g1"), String::from("Dragon"), 50, fangs));
    let mut eng = Engine::new(scenario).unwrap();

    let r = eng.step(&select("f"), 0);
    assert!(matches!(r, StepResult::Fought { victory: false, .. }));
    assert_eq!(eng.ended, Some(EndReason::Death));
    assert_eq!(eng.scenario.player.health(), 0);
}

#[test]
fn unknown_scene_type_keeps_the_player_in_place() {
    let scenario = base(vec![
        scene("start", "", vec![GameOption::new("g", "Go", "odd")], None),
        scene("odd", "warp|space", vec![], None),
    ]);
    let mut eng = Engine::new(scenario).unwrap();
    let r = eng.step(&select("g"), 0);
    assert!(matches!(r, StepResult::UnknownSceneType(s) if s == "warp|space"));
    assert_eq!(eng.scenario.scenes[eng.current].id, "start");
    assert!(eng.ended.is_none());
}

#[test]
fn random_potion_draw_uses_the_given_entropy() {
    let mut scenario = base(vec![
        scene("start", "", vec![GameOption::new("r", "Risk", "den")], None),
        scene("den", "random|potion", vec![], None),
    ]);
    scenario.potions.push(Potion { id: String::from("p1"), name: String::from("Small"), health: 1 });
    scenario.potions.push(Potion { id: String::from("p2"), name: String::from("Large"), health: 7 });
    let mut eng = Engine::new(scenario).unwrap();
    let r = eng.step(&select("r"), 3);
    assert!(matches!(r, StepResult::PotionTaken { id, survived: true } if id == "p2"));
    assert_eq!(eng.scenario.player.health(), 17);
}

#[test]
fn random_monster_draw_skips_the_dead() {
    let mut scenario = base(vec![
        scene("start", "", vec![GameOption::new("r", "Risk", "pit")], None),
        scene("pit", "random|monster", vec![], None),
    ]);
    scenario.monsters.push(Entity::from_parts(String::from("dead"), String::from("Bones"), 0, Vec::new()));
    scenario.monsters.push(Entity::from_parts(String::from("g1"), String::from("Goblin"), 2, Vec::new()));
    let mut eng = Engine::new(scenario).unwrap();
    // both draws land on the only living monster
    let r = eng.step(&select("r"), 12);
    assert!(matches!(r, StepResult::Fought { monster, victory: true, .. } if monster == "g1"));
}

#[test]
fn random_draw_from_nothing_halts() {
    let scenario = base(vec![
        scene("start", "", vec![GameOption::new("r", "Risk", "void")], None),
        scene("void", "random|weapon", vec![], None),
    ]);
    let mut eng = Engine::new(scenario).unwrap();
    let r = eng.step(&select("r"), 5);
    assert!(matches!(
        r,
        StepResult::Config(adventure::engine::ConfigError::EmptyRandomPool { scene }) if scene == "void"
    ));
    assert_eq!(eng.ended, Some(EndReason::ConfigHalt));
}

#[test]
fn victory_with_missing_follow_up_halts() {
    let mut scenario = base(vec![
        scene("start", "", vec![GameOption::new("f", "Fight", "lair")], None),
        scene("lair", "monster|g1", vec![], Some("ghost")),
    ]);
    scenario.monsters.push(Entity::from_parts(String::from("g1"), String::from("Goblin"), 1, Vec::new()));
    let mut eng = Engine::new(scenario).unwrap();
    let r = eng.step(&select("f"), 0);
    assert!(matches!(
        r,
        StepResult::Config(adventure::engine::ConfigError::MissingNextScene { scene, target })
            if scene == "lair" && target == "ghost"
    ));
    assert_eq!(eng.ended, Some(EndReason::ConfigHalt));
}

#[test]
fn a_fallen_monster_is_skipped_on_reencounter() {
    let mut scenario = base(vec![
        scene("start", "", vec![GameOption::new("f", "Fight", "lair")], None),
        scene("lair", "monster|g1", vec![], Some("start")),
    ]);
    scenario.monsters.push(Entity::from_parts(String::from("g1"), String::from("Goblin"), 2, Vec::new()));
    let mut eng = Engine::new(scenario).unwrap();

    let r = eng.step(&select("f"), 0);
    assert!(matches!(r, StepResult::Fought { victory: true, attacks: 2, .. }));
    assert_eq!(eng.scenario.scenes[eng.current].id, "start");

    // the monster is flagged dead, not removed: entering again costs no attack
    let r = eng.step(&select("f"), 0);
    assert!(matches!(r, StepResult::Fought { victory: true, attacks: 0, .. }));
    assert_eq!(eng.scenario.monsters.len(), 1);
}

#[test]
fn a_blunt_weapon_still_makes_progress() {
    let mut scenario = base(vec![
        scene("start", "", vec![GameOption::new("f", "Fight", "lair")], None),
        scene("lair", "monster|g1", vec![], None),
    ]);
    scenario.monsters.push(Entity::from_parts(String::from("g1"), String::from("Goblin"), 2, Vec::new()));
    let mut eng = Engine::new(scenario).unwrap();
    let mut blunt = Vec::new();
    blunt.push(Weapon { id: String::from("w"), name: String::from("Pillow"), damage: 0 });
    eng.scenario.player = Entity::from_parts(String::from(""), String::from("Hero"), 10, blunt);

    let r = eng.step(&select("f"), 0);
    assert!(matches!(r, StepResult::Fought { victory: true, attacks: 2, .. }));
}

#[test]
fn random_any_draw_spans_all_pools() {
    let mut scenario = base(vec![
        scene("start", "", vec![GameOption::new("r", "Risk", "cave")], None),
        scene("cave", "random|any", vec![], None),
    ]);
    scenario.monsters.push(Entity::from_parts(String::from("g1"), String::from("Goblin"), 1, Vec::new()));
    scenario.weapons.push(Weapon { id: String::from("w1"), name: String::from("Sword"), damage: 3 });
    scenario.potions.push(Potion { id: String::from("p1"), name: String::from("Elixir"), health: 2 });
    // pool order: living monsters, then weapons, then potions; draw 1 of 3 is the weapon
    let mut eng = Engine::new(scenario).unwrap();
    let r = eng.step(&select("r"), 1);
    assert!(matches!(r, StepResult::WeaponTaken(id) if id == "w1"));

    let mut scenario = base(vec![
        scene("start", "", vec![GameOption::new("r", "Risk", "cave")], None),
        scene("cave", "random|any", vec![], None),
    ]);
    scenario.potions.push(Potion { id: String::from("p1"), name: String::from("Elixir"), health: 2 });
    let mut eng = Engine::new(scenario).unwrap();
    let r = eng.step(&select("r"), 0);
    assert!(matches!(r, StepResult::PotionTaken { id, survived: true } if id == "p1"));
}

use vstd::pervasive::unreached;
use vstd::prelude::*;

use crate::actions::{UserAction, UserActionView};
use crate::entities::{health_after, health_change_ok, Entity, EntityView};
use crate::scenario::{
    classify_spec, find_entity, find_option_ci, find_potion, find_scene, find_weapon,
    valid_scenario, violation_witnessed, GameOption, RandomKindView, Scenario, Scene, SceneType,
    SceneTypeRandom, SceneTypeView, ValidationError,
};
use crate::text::lower_spec;

verus! {

/// Why a play session ended.
#[derive(Clone, Copy, PartialEq, Eq, Structural, Debug)]
pub enum EndReason {
    SceneQuit,
    PlayerQuit,
    Death,
    ConfigHalt,
}

/// A scenario flaw found during play: reported with the ids needed to fix
/// it, and the session halts rather than playing on from a broken scene.
#[derive(Debug)]
pub enum ConfigError {
    MissingNextScene { scene: String, target: String },
    EmptyRandomPool { scene: String },
}

/// What one step of the play loop asks the surrounding program to do.
#[derive(Debug)]
pub enum StepResult {
    Idle,
    Redraw,
    ShowPlayer,
    ShowHelp,
    ShowInventory,
    UnknownAction(String),
    InvalidOption(String),
    UnknownSceneType(String),
    PotionTaken { id: String, survived: bool },
    WeaponTaken(String),
    Fought { monster: String, victory: bool, attacks: u32 },
    Ended(EndReason),
    Config(ConfigError),
}

/// The course of one combat: the healths both sides end with, how many
/// attacks the player made, and who won.  Each round the player strikes
/// first for `pd`; a still-standing monster strikes back for `md`.
pub struct FightSpec {
    pub player_health: int,
    pub monster_health: int,
    pub attacks: int,
    pub victory: bool,
}

/// The round-by-round resolution of a fight, as a function of the two
/// healths and the two damage values.
pub open spec fn fight_spec(ph: int, mh: int, pd: int, md: int) -> FightSpec
    decreases mh,
{
    if mh <= 0 || ph <= 0 || pd <= 0 {
        FightSpec { player_health: ph, monster_health: mh, attacks: 0, victory: mh <= 0 }
    } else if mh <= pd {
        FightSpec { player_health: ph, monster_health: 0, attacks: 1, victory: true }
    } else {
        let ph2 = if ph <= md {
            0
        } else {
            ph - md
        };
        if ph2 <= 0 {
            FightSpec { player_health: 0, monster_health: mh - pd, attacks: 1, victory: false }
        } else {
            let rest = fight_spec(ph2, mh - pd, pd, md);
            FightSpec { attacks: rest.attacks + 1, ..rest }
        }
    }
}

/// Run a fight to its end: the player strikes for `pd` each round, and a
/// monster that still stands strikes back for `md`, until one side's health
/// reaches zero.  Returns whether the player won and how many attacks the
/// player made.
pub fn fight(player: &mut Entity, monster: &mut Entity, pd: u32, md: u32) -> (r: (bool, u32))
    requires
        pd >= 1,
        old(player)@.health >= 1,
        old(monster)@.health >= 1,
    ensures
        ({
            let fs = fight_spec(old(player)@.health as int, old(monster)@.health as int, pd as int, md as int);
            &&& final(player)@ == (EntityView { health: fs.player_health as u32, ..old(player)@ })
            &&& final(monster)@ == (EntityView { health: fs.monster_health as u32, ..old(monster)@ })
            &&& r.0 == fs.victory
            &&& r.1 == fs.attacks
        }),
{
    let ghost fs0 = fight_spec(player@.health as int, monster@.health as int, pd as int, md as int);
    let mut attacks: u32 = 0;
    loop
        invariant
            pd >= 1,
            player@.health >= 1,
            monster@.health >= 1,
            attacks + monster@.health <= old(monster)@.health,
            player@.id == old(player)@.id,
            player@.name == old(player)@.name,
            player@.weapons == old(player)@.weapons,
            monster@.id == old(monster)@.id,
            monster@.name == old(monster)@.name,
            monster@.weapons == old(monster)@.weapons,
            fs0 == fight_spec(old(player)@.health as int, old(monster)@.health as int, pd as int, md as int),
            ({
                let fs = fight_spec(player@.health as int, monster@.health as int, pd as int, md as int);
                fs0 == (FightSpec { attacks: fs.attacks + attacks, ..fs })
            }),
        decreases monster@.health,
    {
        monster.receive_damage(pd);
        attacks = attacks + 1;
        if !monster.is_alive() {
            return (true, attacks);
        }
        player.receive_damage(md);
        if !player.is_alive() {
            return (false, attacks);
        }
    }
}

/// A found option is a member of the option list.
proof fn lemma_find_option_ci_member(opts: Seq<GameOption>, sel: Seq<char>)
    requires
        find_option_ci(opts, sel) is Some,
    ensures
        exists|j: int| 0 <= j < opts.len() && opts[j] == find_option_ci(opts, sel)->Some_0,
    decreases opts.len(),
{
    if opts.len() == 0 {
    } else if lower_spec(opts[0].id@) == lower_spec(sel) {
        assert(opts[0] == find_option_ci(opts, sel)->Some_0);
    } else {
        lemma_find_option_ci_member(opts.drop_first(), sel);
        let j = choose|j: int|
            0 <= j < opts.drop_first().len() && opts.drop_first()[j] == find_option_ci(
                opts.drop_first(),
                sel,
            )->Some_0;
        assert(opts[j + 1] == find_option_ci(opts, sel)->Some_0);
    }
}

/// Two entity rows with the same ids agree on which ids can be found.
proof fn lemma_find_entity_same_ids(a: Seq<Entity>, b: Seq<Entity>, id: Seq<char>)
    requires
        a.len() == b.len(),
        forall|i: int| 0 <= i < a.len() ==> (#[trigger] a[i])@.id == b[i]@.id,
    ensures
        find_entity(a, id) is Some <==> find_entity(b, id) is Some,
    decreases a.len(),
{
    if a.len() != 0 {
        assert(a[0]@.id == b[0]@.id);
        assert forall|i: int| 0 <= i < a.drop_first().len() implies (#[trigger] a.drop_first()[i])@.id
            == b.drop_first()[i]@.id by {
            assert(a.drop_first()[i] == a[i + 1]);
            assert(b.drop_first()[i] == b[i + 1]);
        }
        lemma_find_entity_same_ids(a.drop_first(), b.drop_first(), id);
    }
}

/// A scenario stays valid when only entity healths and the player's
/// equipment move: the graph, the item rows and every id stand still.
proof fn lemma_valid_same_graph(pre: Scenario, post: Scenario)
    requires
        valid_scenario(pre),
        post.scenes == pre.scenes,
        post.weapons == pre.weapons,
        post.potions == pre.potions,
        post.monsters@.len() == pre.monsters@.len(),
        forall|i: int| 0 <= i < pre.monsters@.len() ==> (#[trigger] post.monsters@[i])@.id
            == pre.monsters@[i]@.id,
    ensures
        valid_scenario(post),
{
    assert(crate::scenario::unique_monster_ids(post.monsters@)) by {
        assert forall|a: int, b: int| 0 <= a < b < post.monsters@.len() implies post.monsters@[a]@.id
            != post.monsters@[b]@.id by {
            assert(pre.monsters@[a]@.id != pre.monsters@[b]@.id);
        }
    }
    assert forall|i: int| 0 <= i < post.scenes@.len() implies crate::scenario::scene_refs_resolve(
        post,
        #[trigger] post.scenes@[i],
    ) by {
        assert(crate::scenario::scene_refs_resolve(pre, pre.scenes@[i]));
        match classify_spec(post.scenes@[i].s_type@) {
            SceneTypeView::Monster(id) => {
                lemma_find_entity_same_ids(pre.monsters@, post.monsters@, id);
            },
            _ => {},
        }
    }
}

/// The play-loop state: the validated scenario, where the player stands,
/// where the player last stood, and whether (and why) the session is over.
pub struct Engine {
    pub scenario: Scenario,
    pub current: usize,
    pub previous: Option<String>,
    pub ended: Option<EndReason>,
}

/// A scenario that cannot open a play session.
#[derive(Debug)]
pub enum EngineError {
    NoScenes,
    Invalid(ValidationError),
}

impl Engine {
    /// The state every public operation keeps: the scenario is valid and
    /// the current scene exists.
    pub open spec fn wf(&self) -> bool {
        &&& valid_scenario(self.scenario)
        &&& (self.current as int) < self.scenario.scenes@.len()
    }

    /// The scene the player stands on.
    pub open spec fn cur_scene(&self) -> Scene {
        self.scenario.scenes@[self.current as int]
    }

    /// Open a play session: validate the scenario and stand the player on
    /// the scene with id `start`, or on the first declared scene when no
    /// `start` exists.  A scenario with no scenes at all, or one that fails
    /// validation, is refused.
    pub fn new(scenario: Scenario) -> (r: Result<Engine, EngineError>)
        ensures
            r is Ok <==> (scenario.scenes@.len() > 0 && valid_scenario(scenario)),
            (match r {
                Ok(e) => e.wf() && e.scenario == scenario && e.ended is None && e.previous is None
                    && (match find_scene(scenario.scenes@, "start"@) {
                    Some(s) => scenario.scenes@[e.current as int] == s,
                    None => e.current == 0,
                }),
                Err(EngineError::NoScenes) => scenario.scenes@.len() == 0,
                Err(EngineError::Invalid(v)) => !valid_scenario(scenario) && violation_witnessed(
                    scenario,
                    v,
                ),
            }),
    {
        if scenario.scenes.len() == 0 {
            return Err(EngineError::NoScenes);
        }
        match scenario.validate() {
            Err(v) => return Err(EngineError::Invalid(v)),
            Ok(()) => {},
        }
        let current = match scenario.scene_index("start") {
            Some(i) => i,
            None => 0,
        };
        Ok(Engine { scenario, current, previous: None, ended: None })
    }

    /// Record a transition: remember the scene being left and stand on the
    /// scene at `idx`.
    fn commit_move(&mut self, idx: usize)
        requires
            (old(self).current as int) < old(self).scenario.scenes@.len(),
        ensures
            *final(self) == (Engine {
                current: idx,
                previous: Some(old(self).cur_scene().id),
                ..*old(self)
            }),
    {
        let prev = self.scenario.scenes[self.current].id.clone();
        self.previous = Some(prev);
        self.current = idx;
    }
}

/// Entering a plain scene: the player moves there, and nothing else changes.
pub open spec fn select_rel(pre: Engine, idx: int, post: Engine, r: StepResult) -> bool {
    &&& post == (Engine { current: idx as usize, previous: Some(pre.cur_scene().id), ..pre })
    &&& r == StepResult::Redraw
}

/// Entering a quit scene: the player moves there and the session ends.
pub open spec fn quit_rel(pre: Engine, idx: int, post: Engine, r: StepResult) -> bool {
    &&& post == (Engine {
        current: idx as usize,
        previous: Some(pre.cur_scene().id),
        ended: Some(EndReason::SceneQuit),
        ..pre
    })
    &&& r == StepResult::Ended(EndReason::SceneQuit)
}

/// Entering a potion scene: the player moves there and drinks the named
/// potion; a drink that leaves no health ends the session in death.
pub open spec fn potion_rel(pre: Engine, idx: int, pid: Seq<char>, post: Engine, r: StepResult) -> bool {
    let p = find_potion(pre.scenario.potions@, pid)->Some_0;
    let ph2 = health_after(pre.scenario.player@.health as int, p.health as int) as u32;
    &&& post.scenario == (Scenario { player: post.scenario.player, ..pre.scenario })
    &&& post.scenario.player@ == (EntityView { health: ph2, ..pre.scenario.player@ })
    &&& post.current as int == idx
    &&& post.previous == Some(pre.cur_scene().id)
    &&& if ph2 == 0 {
        &&& post.ended == Some(EndReason::Death)
        &&& r == StepResult::Ended(EndReason::Death)
    } else {
        &&& post.ended is None
        &&& (r matches StepResult::PotionTaken { id, survived } && id@ == pid && survived
            == health_change_ok(pre.scenario.player@.health as int, p.health as int))
    }
}

/// Entering a weapon scene: the player moves there and takes the named
/// weapon into the equipment list.
pub open spec fn weapon_rel(pre: Engine, idx: int, wid: Seq<char>, post: Engine, r: StepResult) -> bool {
    let w = find_weapon(pre.scenario.weapons@, wid)->Some_0;
    &&& post.scenario == (Scenario { player: post.scenario.player, ..pre.scenario })
    &&& post.scenario.player@ == (EntityView {
        weapons: pre.scenario.player@.weapons.push(w),
        ..pre.scenario.player@
    })
    &&& post.current as int == idx
    &&& post.previous == Some(pre.cur_scene().id)
    &&& post.ended is None
    &&& (r matches StepResult::WeaponTaken(s) && s@ == wid)
}

impl Engine {
    /// Drink the potion a scene names, having moved onto that scene.
    fn handle_potion(&mut self, idx: usize, pid: &str) -> (r: StepResult)
        requires
            old(self).wf(),
            old(self).ended is None,
            idx < old(self).scenario.scenes@.len(),
            find_potion(old(self).scenario.potions@, pid@) is Some,
        ensures
            final(self).wf(),
            potion_rel(*old(self), idx as int, pid@, *final(self), r),
    {
        self.commit_move(idx);
        let ph = match self.scenario.get_potions(pid) {
            Some(p) => p.health(),
            None => unreached(),
        };
        let ok = self.scenario.player.add_health(ph);
        if !self.scenario.player.is_alive() {
            self.ended = Some(EndReason::Death);
            StepResult::Ended(EndReason::Death)
        } else {
            StepResult::PotionTaken { id: pid.to_owned(), survived: ok }
        }
    }

    /// Take the weapon a scene names, having moved onto that scene.
    fn handle_weapon(&mut self, idx: usize, wid: &str) -> (r: StepResult)
        requires
            old(self).wf(),
            old(self).ended is None,
            idx < old(self).scenario.scenes@.len(),
            find_weapon(old(self).scenario.weapons@, wid@) is Some,
        ensures
            final(self).wf(),
            weapon_rel(*old(self), idx as int, wid@, *final(self), r),
    {
        self.commit_move(idx);
        let w = match self.scenario.get_weapon(wid) {
            Some(w) => w.clone(),
            None => unreached(),
        };
        self.scenario.player.grant_weapon(w);
        StepResult::WeaponTaken(wid.to_owned())
    }
}

/// The damage one player attack deals: the first carried weapon's damage,
/// with bare hands — or a blunt weapon — still landing a minimal blow of
/// one, so that combat always makes progress.
pub open spec fn player_damage(p: EntityView) -> int {
    if p.weapons.len() > 0 && p.weapons[0].damage >= 1 {
        p.weapons[0].damage as int
    } else {
        1
    }
}

/// The damage a monster strikes back with: its first weapon's damage, or
/// nothing when it carries none.
pub open spec fn monster_damage(m: EntityView) -> int {
    if m.weapons.len() > 0 {
        m.weapons[0].damage as int
    } else {
        0
    }
}

/// A found entity carries the id it was found by.
proof fn lemma_find_entity_found(ms: Seq<Entity>, id: Seq<char>)
    requires
        find_entity(ms, id) is Some,
    ensures
        (find_entity(ms, id)->Some_0)@.id == id,
    decreases ms.len(),
{
    if ms.len() != 0 && ms[0]@.id != id {
        lemma_find_entity_found(ms.drop_first(), id);
    }
}

/// The positions of the monsters that still live, in order.
pub open spec fn alive_indices(ms: Seq<Entity>) -> Seq<int>
    decreases ms.len(),
{
    if ms.len() == 0 {
        Seq::empty()
    } else {
        let rest = alive_indices(ms.drop_last());
        if ms[ms.len() - 1]@.health != 0 {
            rest.push(ms.len() - 1)
        } else {
            rest
        }
    }
}

/// Every listed position is in range and names a living monster.
proof fn lemma_alive_indices_bounds(ms: Seq<Entity>)
    ensures
        forall|k: int| 0 <= k < alive_indices(ms).len() ==> 0 <= #[trigger] alive_indices(ms)[k]
            < ms.len() && ms[alive_indices(ms)[k]]@.health != 0,
    decreases ms.len(),
{
    if ms.len() != 0 {
        let d = ms.drop_last();
        let rest = alive_indices(d);
        lemma_alive_indices_bounds(d);
        assert(forall|j: int| 0 <= j < d.len() ==> #[trigger] d[j] == ms[j]);
        assert forall|k: int| 0 <= k < alive_indices(ms).len() implies 0 <= #[trigger] alive_indices(
            ms,
        )[k] < ms.len() && ms[alive_indices(ms)[k]]@.health != 0 by {
            if ms[ms.len() - 1]@.health != 0 {
                assert(alive_indices(ms) == rest.push(ms.len() - 1));
                if k < rest.len() {
                    assert(alive_indices(ms)[k] == rest[k]);
                } else {
                    assert(alive_indices(ms)[k] == ms.len() - 1);
                }
            } else {
                assert(alive_indices(ms) == rest);
            }
        }
    }
}

/// Collect the positions of the monsters that still live.
fn alive_monster_indices(ms: &Vec<Entity>) -> (r: Vec<usize>)
    ensures
        r@.map_values(|x: usize| x as int) == alive_indices(ms@),
{
    let n = ms.len();
    let mut v: Vec<usize> = Vec::new();
    let mut i: usize = 0;
    proof {
        assert(ms@.take(0) =~= Seq::<Entity>::empty());
    }
    while i < n
        invariant
            0 <= i <= n,
            n == ms@.len(),
            v@.map_values(|x: usize| x as int) =~= alive_indices(ms@.take(i as int)),
        decreases n - i,
    {
        proof {
            assert(ms@.take(i as int + 1).drop_last() =~= ms@.take(i as int));
            assert(ms@.take(i as int + 1)[i as int] == ms@[i as int]);
        }
        if ms[i].is_alive() {
            v.push(i);
        }
        i = i + 1;
        proof {
            assert(v@.map_values(|x: usize| x as int) =~= alive_indices(ms@.take(i as int)));
        }
    }
    proof {
        assert(ms@.take(n as int) =~= ms@);
    }
    v
}

/// Fighting the monster at `mi` from the scene the player stands on: the
/// fight runs per `fight_spec`; a victory proceeds to the scene's declared
/// follow-up scene when there is one, a defeat ends the session in death,
/// and a follow-up id that names no scene halts the session.  The follow-up
/// scene is entered plainly — its own typed effect, if any, waits for the
/// player's next move, so a cycle of scenes cannot replay itself without
/// input.
pub open spec fn combat_core_rel(pre: Engine, mi: int, post: Engine, r: StepResult) -> bool {
    let m0 = pre.scenario.monsters@[mi];
    let fs = fight_spec(
        pre.scenario.player@.health as int,
        m0@.health as int,
        player_damage(pre.scenario.player@),
        monster_damage(m0@),
    );
    &&& post.scenario == (Scenario {
        player: post.scenario.player,
        monsters: post.scenario.monsters,
        ..pre.scenario
    })
    &&& post.scenario.monsters@ == pre.scenario.monsters@.update(mi, post.scenario.monsters@[mi])
    &&& post.scenario.monsters@[mi]@ == (EntityView { health: fs.monster_health as u32, ..m0@ })
    &&& post.scenario.player@ == (EntityView {
        health: fs.player_health as u32,
        ..pre.scenario.player@
    })
    &&& post.previous == pre.previous
    &&& if !fs.victory {
        &&& post.current == pre.current
        &&& post.ended == Some(EndReason::Death)
        &&& (r matches StepResult::Fought { monster, victory, attacks } && monster@ == m0@.id
            && victory == false && attacks == fs.attacks)
    } else {
        match pre.cur_scene().next {
            None => {
                &&& post.current == pre.current
                &&& post.ended is None
                &&& (r matches StepResult::Fought { monster, victory, attacks } && monster@
                    == m0@.id && victory == true && attacks == fs.attacks)
            },
            Some(nid) => match find_scene(pre.scenario.scenes@, nid@) {
                None => {
                    &&& post.current == pre.current
                    &&& post.ended == Some(EndReason::ConfigHalt)
                    &&& r == StepResult::Config(ConfigError::MissingNextScene {
                        scene: pre.cur_scene().id,
                        target: nid,
                    })
                },
                Some(_) => {
                    &&& (exists|ni: int| 0 <= ni < pre.scenario.scenes@.len()
                        && find_scene(pre.scenario.scenes@, nid@) == Some(pre.scenario.scenes@[ni])
                        && post.current as int == ni)
                    &&& post.ended is None
                    &&& (r matches StepResult::Fought { monster, victory, attacks } && monster@
                        == m0@.id && victory == true && attacks == fs.attacks)
                },
            },
        }
    }
}

/// Taking the weapon at `k` on the scene the player stands on.
pub open spec fn weapon_take_rel(pre: Engine, k: int, post: Engine, r: StepResult) -> bool {
    let w = pre.scenario.weapons@[k];
    &&& post.scenario == (Scenario { player: post.scenario.player, ..pre.scenario })
    &&& post.scenario.player@ == (EntityView {
        weapons: pre.scenario.player@.weapons.push(w),
        ..pre.scenario.player@
    })
    &&& post.current == pre.current
    &&& post.previous == pre.previous
    &&& post.ended == pre.ended
    &&& (r matches StepResult::WeaponTaken(s) && s@ == w.id@)
}

/// Drinking the potion at `k` on the scene the player stands on.
pub open spec fn potion_core_rel(pre: Engine, k: int, post: Engine, r: StepResult) -> bool {
    let p = pre.scenario.potions@[k];
    let ph2 = health_after(pre.scenario.player@.health as int, p.health as int) as u32;
    &&& post.scenario == (Scenario { player: post.scenario.player, ..pre.scenario })
    &&& post.scenario.player@ == (EntityView { health: ph2, ..pre.scenario.player@ })
    &&& post.current == pre.current
    &&& post.previous == pre.previous
    &&& if ph2 == 0 {
        &&& post.ended == Some(EndReason::Death)
        &&& r == StepResult::Ended(EndReason::Death)
    } else {
        &&& post.ended == pre.ended
        &&& (r matches StepResult::PotionTaken { id, survived } && id@ == p.id@ && survived
            == health_change_ok(pre.scenario.player@.health as int, p.health as int))
    }
}

/// A random draw found nothing to draw from: the session halts on a
/// configuration error naming the scene.
pub open spec fn pool_empty_rel(pre: Engine, idx: int, post: Engine, r: StepResult) -> bool {
    &&& post == (Engine {
        current: idx as usize,
        previous: Some(pre.cur_scene().id),
        ended: Some(EndReason::ConfigHalt),
        ..pre
    })
    &&& r == StepResult::Config(ConfigError::EmptyRandomPool {
        scene: pre.scenario.scenes@[idx].id,
    })
}

/// Entering a random scene: the draw picks uniformly — by reducing `draw`
/// modulo the pool size — a living monster, a weapon, a potion, or any of
/// the three, and the matching handler runs; an unknown kind keeps the
/// player where it stands.
pub open spec fn random_rel(
    pre: Engine,
    idx: int,
    kind: RandomKindView,
    draw: u64,
    post: Engine,
    r: StepResult,
) -> bool {
    let moved = (Engine { current: idx as usize, previous: Some(pre.cur_scene().id), ..pre });
    let ai = alive_indices(pre.scenario.monsters@);
    let na = ai.len() as int;
    let nw = pre.scenario.weapons@.len() as int;
    let np = pre.scenario.potions@.len() as int;
    match kind {
        RandomKindView::Unknown(s) => post == pre && (r matches StepResult::UnknownSceneType(u)
            && u@ == s),
        RandomKindView::Monster => if na == 0 {
            pool_empty_rel(pre, idx, post, r)
        } else {
            combat_core_rel(moved, ai[(draw as int) % na], post, r)
        },
        RandomKindView::Weapon => if nw == 0 {
            pool_empty_rel(pre, idx, post, r)
        } else {
            weapon_take_rel(moved, (draw as int) % nw, post, r)
        },
        RandomKindView::Potion => if np == 0 {
            pool_empty_rel(pre, idx, post, r)
        } else {
            potion_core_rel(moved, (draw as int) % np, post, r)
        },
        RandomKindView::Any => {
            let total = na + nw + np;
            if total == 0 {
                pool_empty_rel(pre, idx, post, r)
            } else {
                let k = (draw as int) % total;
                if k < na {
                    combat_core_rel(moved, ai[k], post, r)
                } else if k < na + nw {
                    weapon_take_rel(moved, k - na, post, r)
                } else {
                    potion_core_rel(moved, k - na - nw, post, r)
                }
            }
        },
    }
}

/// Entering the scene at `idx`: its declared type decides what happens, as
/// the scene-type table says.
pub open spec fn enter_rel(pre: Engine, idx: int, draw: u64, post: Engine, r: StepResult) -> bool {
    let moved = (Engine { current: idx as usize, previous: Some(pre.cur_scene().id), ..pre });
    match classify_spec(pre.scenario.scenes@[idx].s_type@) {
        SceneTypeView::Unknown(name) => post == pre && (r matches StepResult::UnknownSceneType(u)
            && u@ == name),
        SceneTypeView::Quit => quit_rel(pre, idx, post, r),
        SceneTypeView::Select => select_rel(pre, idx, post, r),
        SceneTypeView::Potion(pid) => potion_rel(pre, idx, pid, post, r),
        SceneTypeView::Weapon(wid) => weapon_rel(pre, idx, wid, post, r),
        SceneTypeView::Monster(mid) => exists|mi: int|
            0 <= mi < pre.scenario.monsters@.len() && (#[trigger] pre.scenario.monsters@[mi])@.id
                == mid && combat_core_rel(moved, mi, post, r),
        SceneTypeView::Random(kind) => random_rel(pre, idx, kind, draw, post, r),
    }
}

/// One turn of the play loop: a finished session only repeats why it ended;
/// otherwise the player's command decides, as the dispatch table says —
/// informational commands change nothing, `quit` ends the session, `next`
/// follows the scene's declared follow-up, and a selection enters the
/// chosen option's target scene.
pub open spec fn step_rel(pre: Engine, a: UserActionView, draw: u64, post: Engine, r: StepResult) -> bool {
    match pre.ended {
        Some(reason) => post == pre && r == StepResult::Ended(reason),
        None => match a {
            UserActionView::Empty => post == pre && r == StepResult::Idle,
            UserActionView::Help => post == pre && r == StepResult::ShowHelp,
            UserActionView::Inventory => post == pre && r == StepResult::ShowInventory,
            UserActionView::Player => post == pre && r == StepResult::ShowPlayer,
            UserActionView::Scene => post == pre && r == StepResult::Redraw,
            UserActionView::Unknown(x) => post == pre && (r matches StepResult::UnknownAction(u)
                && u@ == x),
            UserActionView::Quit => post == (Engine { ended: Some(EndReason::PlayerQuit), ..pre })
                && r == StepResult::Ended(EndReason::PlayerQuit),
            UserActionView::Next => match pre.cur_scene().next {
                None => post == pre && r == StepResult::Idle,
                Some(nid) => match find_scene(pre.scenario.scenes@, nid@) {
                    None => post == (Engine { ended: Some(EndReason::ConfigHalt), ..pre }) && r
                        == StepResult::Config(ConfigError::MissingNextScene {
                        scene: pre.cur_scene().id,
                        target: nid,
                    }),
                    Some(_) => exists|ti: int|
                        0 <= ti < pre.scenario.scenes@.len() && find_scene(
                            pre.scenario.scenes@,
                            nid@,
                        ) == Some(#[trigger] pre.scenario.scenes@[ti]) && enter_rel(
                            pre,
                            ti,
                            draw,
                            post,
                            r,
                        ),
                },
            },
            UserActionView::Select(sel) => match find_option_ci(pre.cur_scene().options@, sel) {
                None => post == pre && (r matches StepResult::InvalidOption(s) && s@ == sel),
                Some(g) => exists|ti: int|
                    0 <= ti < pre.scenario.scenes@.len() && find_scene(
                        pre.scenario.scenes@,
                        g.action@,
                    ) == Some(#[trigger] pre.scenario.scenes@[ti]) && enter_rel(
                        pre,
                        ti,
                        draw,
                        post,
                        r,
                    ),
            },
        },
    }
}

impl Engine {
    /// Resolve the fight with the monster at `mi`, standing on the scene
    /// that called for it.
    fn combat_core(&mut self, mi: usize) -> (r: StepResult)
        requires
            old(self).wf(),
            old(self).ended is None,
            mi < old(self).scenario.monsters@.len(),
        ensures
            final(self).wf(),
            combat_core_rel(*old(self), mi as int, *final(self), r),
    {
        let ghost monsters0 = self.scenario.monsters@;
        let pd: u32 = {
            let pw = self.scenario.player.weapons();
            if pw.len() > 0 {
                let d = pw[0].damage;
                if d >= 1 {
                    d
                } else {
                    1
                }
            } else {
                1
            }
        };
        let mut m = self.scenario.monsters.remove(mi);
        let mid = m.id().to_owned();
        let md: u32 = {
            let mw = m.weapons();
            if mw.len() > 0 {
                mw[0].damage
            } else {
                0
            }
        };
        let mh = m.health();
        let ph = self.scenario.player.health();
        let fight_result: (bool, u32) = if mh == 0 {
            (true, 0)
        } else if ph == 0 {
            (false, 0)
        } else {
            fight(&mut self.scenario.player, &mut m, pd, md)
        };
        let victory = fight_result.0;
        let attacks = fight_result.1;
        self.scenario.monsters.insert(mi, m);
        proof {
            assert(self.scenario.monsters@ =~= monsters0.update(
                mi as int,
                self.scenario.monsters@[mi as int],
            ));
            lemma_valid_same_graph(old(self).scenario, self.scenario);
        }
        if victory {
            let nxt: Option<String> = match &self.scenario.scenes[self.current].next {
                Some(s) => Some(s.clone()),
                None => None,
            };
            match nxt {
                None => StepResult::Fought { monster: mid, victory: true, attacks },
                Some(nid) => match self.scenario.scene_index(nid.as_str()) {
                    Some(ni) => {
                        self.current = ni;
                        StepResult::Fought { monster: mid, victory: true, attacks }
                    },
                    None => {
                        self.ended = Some(EndReason::ConfigHalt);
                        StepResult::Config(ConfigError::MissingNextScene {
                            scene: self.scenario.scenes[self.current].id.clone(),
                            target: nid,
                        })
                    },
                },
            }
        } else {
            self.ended = Some(EndReason::Death);
            StepResult::Fought { monster: mid, victory: false, attacks }
        }
    }

    /// Take the weapon at `k` into the player's equipment.
    fn take_weapon_at(&mut self, k: usize) -> (r: StepResult)
        requires
            old(self).wf(),
            k < old(self).scenario.weapons@.len(),
        ensures
            final(self).wf(),
            weapon_take_rel(*old(self), k as int, *final(self), r),
    {
        let w = self.scenario.weapons[k].clone();
        let wid = self.scenario.weapons[k].id.clone();
        self.scenario.player.grant_weapon(w);
        StepResult::WeaponTaken(wid)
    }

    /// Let the player drink the potion at `k`.
    fn apply_potion_at(&mut self, k: usize) -> (r: StepResult)
        requires
            old(self).wf(),
            k < old(self).scenario.potions@.len(),
        ensures
            final(self).wf(),
            potion_core_rel(*old(self), k as int, *final(self), r),
    {
        let ph = self.scenario.potions[k].health();
        let pid = self.scenario.potions[k].id.clone();
        let ok = self.scenario.player.add_health(ph);
        if !self.scenario.player.is_alive() {
            self.ended = Some(EndReason::Death);
            StepResult::Ended(EndReason::Death)
        } else {
            StepResult::PotionTaken { id: pid, survived: ok }
        }
    }

    /// Enter the random scene at `idx` and resolve the draw.
    fn handle_random(&mut self, idx: usize, kind: SceneTypeRandom, draw: u64) -> (r: StepResult)
        requires
            old(self).wf(),
            old(self).ended is None,
            idx < old(self).scenario.scenes@.len(),
        ensures
            final(self).wf(),
            random_rel(*old(self), idx as int, kind@, draw, *final(self), r),
    {
        match kind {
            SceneTypeRandom::Unknown(s) => StepResult::UnknownSceneType(s),
            SceneTypeRandom::Monster => {
                self.commit_move(idx);
                let ai = alive_monster_indices(&self.scenario.monsters);
                if ai.len() == 0 {
                    self.ended = Some(EndReason::ConfigHalt);
                    StepResult::Config(ConfigError::EmptyRandomPool {
                        scene: self.scenario.scenes[self.current].id.clone(),
                    })
                } else {
                    let k = (draw % (ai.len() as u64)) as usize;
                    let mi = ai[k];
                    proof {
                        lemma_alive_indices_bounds(self.scenario.monsters@);
                        assert(ai@.map_values(|x: usize| x as int)[k as int] == mi as int);
                    }
                    self.combat_core(mi)
                }
            },
            SceneTypeRandom::Weapon => {
                self.commit_move(idx);
                let nw = self.scenario.weapons.len();
                if nw == 0 {
                    self.ended = Some(EndReason::ConfigHalt);
                    StepResult::Config(ConfigError::EmptyRandomPool {
                        scene: self.scenario.scenes[self.current].id.clone(),
                    })
                } else {
                    let k = (draw % (nw as u64)) as usize;
                    self.take_weapon_at(k)
                }
            },
            SceneTypeRandom::Potion => {
                self.commit_move(idx);
                let np = self.scenario.potions.len();
                if np == 0 {
                    self.ended = Some(EndReason::ConfigHalt);
                    StepResult::Config(ConfigError::EmptyRandomPool {
                        scene: self.scenario.scenes[self.current].id.clone(),
                    })
                } else {
                    let k = (draw % (np as u64)) as usize;
                    self.apply_potion_at(k)
                }
            },
            SceneTypeRandom::Any => {
                self.commit_move(idx);
                let ai = alive_monster_indices(&self.scenario.monsters);
                let na = ai.len();
                let nw = self.scenario.weapons.len();
                let np = self.scenario.potions.len();
                let total: u128 = na as u128 + nw as u128 + np as u128;
                if total == 0 {
                    self.ended = Some(EndReason::ConfigHalt);
                    StepResult::Config(ConfigError::EmptyRandomPool {
                        scene: self.scenario.scenes[self.current].id.clone(),
                    })
                } else {
                    let k: u128 = (draw as u128) % total;
                    if k < na as u128 {
                        let mi = ai[k as usize];
                        proof {
                            lemma_alive_indices_bounds(self.scenario.monsters@);
                            assert(ai@.map_values(|x: usize| x as int)[k as int] == mi as int);
                        }
                        self.combat_core(mi)
                    } else if k < na as u128 + nw as u128 {
                        self.take_weapon_at((k - na as u128) as usize)
                    } else {
                        self.apply_potion_at((k - na as u128 - nw as u128) as usize)
                    }
                }
            },
        }
    }

    /// Enter the scene at `idx`: dispatch on its declared type.
    fn enter_scene(&mut self, idx: usize, draw: u64) -> (r: StepResult)
        requires
            old(self).wf(),
            old(self).ended is None,
            idx < old(self).scenario.scenes@.len(),
        ensures
            final(self).wf(),
            enter_rel(*old(self), idx as int, draw, *final(self), r),
    {
        proof {
            assert(crate::scenario::scene_refs_resolve(
                self.scenario,
                self.scenario.scenes@[idx as int],
            ));
        }
        let t = self.scenario.scenes[idx].scene_type();
        match t {
            SceneType::Unknown(name) => StepResult::UnknownSceneType(name),
            SceneType::Quit => {
                self.commit_move(idx);
                self.ended = Some(EndReason::SceneQuit);
                StepResult::Ended(EndReason::SceneQuit)
            },
            SceneType::Select => {
                self.commit_move(idx);
                StepResult::Redraw
            },
            SceneType::Potion(pid) => self.handle_potion(idx, pid.as_str()),
            SceneType::Weapon(wid) => self.handle_weapon(idx, wid.as_str()),
            SceneType::Monster(mid) => {
                self.commit_move(idx);
                let mi = match self.scenario.monster_index(mid.as_str()) {
                    Some(i) => i,
                    None => unreached(),
                };
                proof {
                    lemma_find_entity_found(self.scenario.monsters@, mid@);
                }
                self.combat_core(mi)
            },
            SceneType::Random(k) => self.handle_random(idx, k, draw),
        }
    }

    /// The first option of the current scene whose selector matches `sel`
    /// with letter case ignored; hands back its target scene id.
    fn option_action_ci(&self, sel: &str) -> (r: Option<String>)
        requires
            (self.current as int) < self.scenario.scenes@.len(),
        ensures
            (match r {
                Some(a) => find_option_ci(self.cur_scene().options@, sel@) is Some
                    && find_option_ci(self.cur_scene().options@, sel@)->Some_0.action == a,
                None => find_option_ci(self.cur_scene().options@, sel@) is None,
            }),
    {
        let sc = &self.scenario.scenes[self.current];
        proof {
            assert(*sc == self.cur_scene());
        }
        match sc.get_option(sel) {
            Some(g) => Some(g.action.clone()),
            None => None,
        }
    }

    /// One turn of the play loop: resolve the player's command against the
    /// current scene, mutate the world accordingly, and say what the
    /// surrounding program should render.  `draw` feeds any random scene
    /// reached on this turn.
    pub fn step(&mut self, action: &UserAction, draw: u64) -> (r: StepResult)
        requires
            old(self).wf(),
        ensures
            final(self).wf(),
            step_rel(*old(self), action@, draw, *final(self), r),
    {
        match &self.ended {
            Some(reason) => {
                return StepResult::Ended(*reason);
            },
            None => {},
        }
        match action {
            UserAction::Empty => StepResult::Idle,
            UserAction::Help => StepResult::ShowHelp,
            UserAction::Inventory => StepResult::ShowInventory,
            UserAction::Player => StepResult::ShowPlayer,
            UserAction::Scene => StepResult::Redraw,
            UserAction::Unknown(x) => StepResult::UnknownAction(x.clone()),
            UserAction::Quit => {
                self.ended = Some(EndReason::PlayerQuit);
                StepResult::Ended(EndReason::PlayerQuit)
            },
            UserAction::Next => {
                let nxt: Option<String> = match &self.scenario.scenes[self.current].next {
                    Some(s) => Some(s.clone()),
                    None => None,
                };
                match nxt {
                    None => StepResult::Idle,
                    Some(nid) => match self.scenario.scene_index(nid.as_str()) {
                        Some(ti) => self.enter_scene(ti, draw),
                        None => {
                            self.ended = Some(EndReason::ConfigHalt);
                            StepResult::Config(ConfigError::MissingNextScene {
                                scene: self.scenario.scenes[self.current].id.clone(),
                                target: nid,
                            })
                        },
                    },
                }
            },
            UserAction::Select(sel) => {
                match self.option_action_ci(sel.as_str()) {
                    None => StepResult::InvalidOption(sel.clone()),
                    Some(act) => {
                        proof {
                            lemma_find_option_ci_member(self.cur_scene().options@, sel@);
                        }
                        match self.scenario.scene_index(act.as_str()) {
                            Some(ti) => self.enter_scene(ti, draw),
                            None => unreached(),
                        }
                    },
                }
            },
        }
    }
}

/// The number of attacks it takes to fell health `h` at `d` per strike,
/// rounded upward.
pub open spec fn attacks_needed(h: int, d: int) -> int {
    (h + d - 1) / d
}

/// Law: with positive player damage the combat sub-loop is bounded.  The
/// player never attacks more than `ceil(H / D)` times for a monster of
/// health `H` and a weapon of damage `D`, and a victorious fight takes
/// exactly that many attacks.
pub proof fn lemma_fight_attacks_bounded(ph: int, mh: int, pd: int, md: int)
    requires
        ph >= 1,
        mh >= 1,
        pd >= 1,
    ensures
        fight_spec(ph, mh, pd, md).attacks <= attacks_needed(mh, pd),
        fight_spec(ph, mh, pd, md).victory ==> fight_spec(ph, mh, pd, md).attacks == attacks_needed(mh, pd),
    decreases mh,
{
    if mh <= pd {
        assert(attacks_needed(mh, pd) == 1) by (nonlinear_arith)
            requires
                1 <= mh <= pd,
        ;
    } else {
        assert(attacks_needed(mh, pd) >= 1) by (nonlinear_arith)
            requires
                1 <= pd < mh,
        ;
        let ph2 = if ph <= md {
            0
        } else {
            ph - md
        };
        if ph2 <= 0 {
        } else {
            lemma_fight_attacks_bounded(ph2, mh - pd, pd, md);
            assert(attacks_needed(mh - pd, pd) + 1 == attacks_needed(mh, pd)) by (nonlinear_arith)
                requires
                    1 <= pd < mh,
            ;
        }
    }
}

} // verus!

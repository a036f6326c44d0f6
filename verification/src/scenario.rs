use vstd::prelude::*;

use crate::entities::{Entity, Potion, Weapon};
use crate::text::{lower_spec, split_spec, str_eq, to_lower, trim, trim_spec, split_str, views_of};

verus! {

/// A labeled, player-selectable transition: `id` is the selector the player
/// types, `name` the display text, `action` the target scene id.
#[derive(Debug, Clone)]
pub struct GameOption {
    pub id: String,
    pub name: String,
    pub action: String,
}

impl PartialEq for GameOption {
    fn eq(&self, other: &GameOption) -> (r: bool) {
        str_eq(self.id.as_str(), other.id.as_str()) && str_eq(self.name.as_str(), other.name.as_str())
            && str_eq(self.action.as_str(), other.action.as_str())
    }
}

impl vstd::std_specs::cmp::PartialEqSpecImpl for GameOption {
    open spec fn obeys_eq_spec() -> bool {
        true
    }

    open spec fn eq_spec(&self, other: &GameOption) -> bool {
        self.id@ == other.id@ && self.name@ == other.name@ && self.action@ == other.action@
    }
}

impl GameOption {
    pub fn new(option: &str, name: &str, action: &str) -> (g: GameOption)
        ensures
            g.id@ == option@,
            g.name@ == name@,
            g.action@ == action@,
    {
        GameOption { id: option.to_owned(), name: name.to_owned(), action: action.to_owned() }
    }
}

/// A node in the scenario graph.
pub struct Scene {
    pub id: String,
    pub desc: String,
    pub options: Vec<GameOption>,
    pub next: Option<String>,
    pub s_type: String,
}

/// The behavior a scene's declared type string stands for.
#[derive(Debug, Clone)]
pub enum SceneType {
    Quit,
    Select,
    Unknown(String),
    Random(SceneTypeRandom),
    Potion(String),
    Weapon(String),
    Monster(String),
}

/// What a random-encounter scene draws from.
#[derive(Debug, Clone)]
pub enum SceneTypeRandom {
    Any,
    Monster,
    Weapon,
    Potion,
    Unknown(String),
}

/// The mathematical value of a `SceneType`, with strings as character
/// sequences.
pub enum SceneTypeView {
    Quit,
    Select,
    Unknown(Seq<char>),
    Random(RandomKindView),
    Potion(Seq<char>),
    Weapon(Seq<char>),
    Monster(Seq<char>),
}

/// The mathematical value of a `SceneTypeRandom`.
pub enum RandomKindView {
    Any,
    Monster,
    Weapon,
    Potion,
    Unknown(Seq<char>),
}

impl PartialEq for SceneType {
    fn eq(&self, other: &SceneType) -> (r: bool) {
        match (self, other) {
            (SceneType::Quit, SceneType::Quit) => true,
            (SceneType::Select, SceneType::Select) => true,
            (SceneType::Unknown(a), SceneType::Unknown(b)) => str_eq(a.as_str(), b.as_str()),
            (SceneType::Random(a), SceneType::Random(b)) => a == b,
            (SceneType::Potion(a), SceneType::Potion(b)) => str_eq(a.as_str(), b.as_str()),
            (SceneType::Weapon(a), SceneType::Weapon(b)) => str_eq(a.as_str(), b.as_str()),
            (SceneType::Monster(a), SceneType::Monster(b)) => str_eq(a.as_str(), b.as_str()),
            _ => false,
        }
    }
}

impl vstd::std_specs::cmp::PartialEqSpecImpl for SceneType {
    open spec fn obeys_eq_spec() -> bool {
        true
    }

    open spec fn eq_spec(&self, other: &SceneType) -> bool {
        self@ == other@
    }
}

impl PartialEq for SceneTypeRandom {
    fn eq(&self, other: &SceneTypeRandom) -> (r: bool) {
        match (self, other) {
            (SceneTypeRandom::Any, SceneTypeRandom::Any) => true,
            (SceneTypeRandom::Monster, SceneTypeRandom::Monster) => true,
            (SceneTypeRandom::Weapon, SceneTypeRandom::Weapon) => true,
            (SceneTypeRandom::Potion, SceneTypeRandom::Potion) => true,
            (SceneTypeRandom::Unknown(a), SceneTypeRandom::Unknown(b)) => str_eq(
                a.as_str(),
                b.as_str(),
            ),
            _ => false,
        }
    }
}

impl vstd::std_specs::cmp::PartialEqSpecImpl for SceneTypeRandom {
    open spec fn obeys_eq_spec() -> bool {
        true
    }

    open spec fn eq_spec(&self, other: &SceneTypeRandom) -> bool {
        self@ == other@
    }
}

impl View for SceneType {
    type V = SceneTypeView;

    open spec fn view(&self) -> SceneTypeView {
        match self {
            SceneType::Quit => SceneTypeView::Quit,
            SceneType::Select => SceneTypeView::Select,
            SceneType::Unknown(s) => SceneTypeView::Unknown(s@),
            SceneType::Random(r) => SceneTypeView::Random(r@),
            SceneType::Potion(s) => SceneTypeView::Potion(s@),
            SceneType::Weapon(s) => SceneTypeView::Weapon(s@),
            SceneType::Monster(s) => SceneTypeView::Monster(s@),
        }
    }
}

impl View for SceneTypeRandom {
    type V = RandomKindView;

    open spec fn view(&self) -> RandomKindView {
        match self {
            SceneTypeRandom::Any => RandomKindView::Any,
            SceneTypeRandom::Monster => RandomKindView::Monster,
            SceneTypeRandom::Weapon => RandomKindView::Weapon,
            SceneTypeRandom::Potion => RandomKindView::Potion,
            SceneTypeRandom::Unknown(s) => RandomKindView::Unknown(s@),
        }
    }
}

/// The classification of a random-encounter argument.
pub open spec fn classify_random_spec(v: Seq<char>) -> RandomKindView {
    if v == "any"@ {
        RandomKindView::Any
    } else if v == "monster"@ {
        RandomKindView::Monster
    } else if v == "weapon"@ {
        RandomKindView::Weapon
    } else if v == "potion"@ {
        RandomKindView::Potion
    } else {
        RandomKindView::Unknown(v)
    }
}

/// The classification of a scene's declared type string.  The string is
/// lowered, then split on `|`: an empty string selects; one segment names a
/// bare kind; two segments name a kind and its argument (the argument is
/// trimmed); anything else is unknown.
pub open spec fn classify_spec(raw: Seq<char>) -> SceneTypeView {
    let low = lower_spec(raw);
    let parts = split_spec(low, '|');
    if low.len() == 0 {
        SceneTypeView::Select
    } else if parts.len() == 1 {
        if parts[0] == "quit"@ {
            SceneTypeView::Quit
        } else if parts[0] == "select"@ {
            SceneTypeView::Select
        } else {
            SceneTypeView::Unknown(low)
        }
    } else if parts.len() == 2 {
        let head = parts[0];
        let arg = trim_spec(parts[1]);
        if head == "random"@ || head == "rand"@ {
            SceneTypeView::Random(classify_random_spec(arg))
        } else if head == "potion"@ || head == "pot"@ {
            SceneTypeView::Potion(arg)
        } else if head == "weapon"@ || head == "weap"@ {
            SceneTypeView::Weapon(arg)
        } else if head == "monster"@ {
            SceneTypeView::Monster(arg)
        } else {
            SceneTypeView::Unknown(low)
        }
    } else {
        SceneTypeView::Unknown(low)
    }
}

/// Law: classification is total and a function of the string alone — equal
/// strings classify equally, so classifying a string twice yields equal
/// results.
pub proof fn lemma_classify_deterministic(a: Seq<char>, b: Seq<char>)
    requires
        a == b,
    ensures
        classify_spec(a) == classify_spec(b),
{
}

impl SceneTypeRandom {
    pub fn parse(val: &str) -> (r: SceneTypeRandom)
        ensures
            r@ == classify_random_spec(val@),
    {
        if str_eq(val, "any") {
            SceneTypeRandom::Any
        } else if str_eq(val, "monster") {
            SceneTypeRandom::Monster
        } else if str_eq(val, "weapon") {
            SceneTypeRandom::Weapon
        } else if str_eq(val, "potion") {
            SceneTypeRandom::Potion
        } else {
            SceneTypeRandom::Unknown(val.to_owned())
        }
    }
}

impl SceneType {
    pub fn parse(val: &str) -> (r: SceneType)
        ensures
            r@ == classify_spec(val@),
    {
        let low = to_lower(val);
        if low.as_str().unicode_len() == 0 {
            return SceneType::Select;
        }
        let parts = split_str(low.as_str(), '|');
        if parts.len() == 1 {
            if str_eq(parts[0].as_str(), "quit") {
                SceneType::Quit
            } else if str_eq(parts[0].as_str(), "select") {
                SceneType::Select
            } else {
                SceneType::Unknown(low)
            }
        } else if parts.len() == 2 {
            let arg = trim(parts[1].as_str());
            if str_eq(parts[0].as_str(), "random") || str_eq(parts[0].as_str(), "rand") {
                SceneType::Random(SceneTypeRandom::parse(arg))
            } else if str_eq(parts[0].as_str(), "potion") || str_eq(parts[0].as_str(), "pot") {
                SceneType::Potion(arg.to_owned())
            } else if str_eq(parts[0].as_str(), "weapon") || str_eq(parts[0].as_str(), "weap") {
                SceneType::Weapon(arg.to_owned())
            } else if str_eq(parts[0].as_str(), "monster") {
                SceneType::Monster(arg.to_owned())
            } else {
                SceneType::Unknown(low)
            }
        } else {
            SceneType::Unknown(low)
        }
    }
}

/// The first option whose selector matches `sel` with letter case ignored,
/// searched front to back: the option id is a case-insensitive selector.
pub open spec fn find_option_ci(opts: Seq<GameOption>, sel: Seq<char>) -> Option<GameOption>
    decreases opts.len(),
{
    if opts.len() == 0 {
        None
    } else if lower_spec(opts[0].id@) == lower_spec(sel) {
        Some(opts[0])
    } else {
        find_option_ci(opts.drop_first(), sel)
    }
}

/// The first scene with the given id, searched front to back.
pub open spec fn find_scene(scenes: Seq<Scene>, id: Seq<char>) -> Option<Scene>
    decreases scenes.len(),
{
    if scenes.len() == 0 {
        None
    } else if scenes[0].id@ == id {
        Some(scenes[0])
    } else {
        find_scene(scenes.drop_first(), id)
    }
}

/// The first entity with the given id, searched front to back.
pub open spec fn find_entity(entities: Seq<Entity>, id: Seq<char>) -> Option<Entity>
    decreases entities.len(),
{
    if entities.len() == 0 {
        None
    } else if entities[0]@.id == id {
        Some(entities[0])
    } else {
        find_entity(entities.drop_first(), id)
    }
}

/// The first weapon with the given id, searched front to back.
pub open spec fn find_weapon(weapons: Seq<Weapon>, id: Seq<char>) -> Option<Weapon>
    decreases weapons.len(),
{
    if weapons.len() == 0 {
        None
    } else if weapons[0].id@ == id {
        Some(weapons[0])
    } else {
        find_weapon(weapons.drop_first(), id)
    }
}

/// The first potion with the given id, searched front to back.
pub open spec fn find_potion(potions: Seq<Potion>, id: Seq<char>) -> Option<Potion>
    decreases potions.len(),
{
    if potions.len() == 0 {
        None
    } else if potions[0].id@ == id {
        Some(potions[0])
    } else {
        find_potion(potions.drop_first(), id)
    }
}

/// A skip of zero is the sequence itself.
proof fn lemma_skip_zero<A>(s: Seq<A>)
    ensures
        s.skip(0) == s,
{
    assert(s.skip(0) =~= s);
}

impl Scene {
    /// The first option whose selector matches `opt` with letter case
    /// ignored, if any.
    pub fn get_option(&self, opt: &str) -> (r: Option<&GameOption>)
        ensures
            match r {
                Some(g) => find_option_ci(self.options@, opt@) == Some(*g),
                None => find_option_ci(self.options@, opt@) is None,
            },
    {
        let low_opt = to_lower(opt);
        let n = self.options.len();
        let mut i: usize = 0;
        proof {
            lemma_skip_zero(self.options@);
        }
        while i < n
            invariant
                0 <= i <= n,
                n == self.options@.len(),
                low_opt@ == lower_spec(opt@),
                find_option_ci(self.options@, opt@) == find_option_ci(
                    self.options@.skip(i as int),
                    opt@,
                ),
            decreases n - i,
        {
            proof {
                assert(self.options@.skip(i as int)[0] == self.options@[i as int]);
                assert(self.options@.skip(i as int).drop_first() =~= self.options@.skip(i as int + 1));
            }
            let low_id = to_lower(self.options[i].id.as_str());
            if str_eq(low_id.as_str(), low_opt.as_str()) {
                return Some(&self.options[i]);
            }
            i = i + 1;
        }
        proof {
            assert(self.options@.skip(n as int).len() == 0);
        }
        None
    }

    /// Whether the scene's declared type classifies as the quit behavior:
    /// the loop's terminal condition goes by classification, not by the
    /// literal string.
    pub fn is_quit(&self) -> (r: bool)
        ensures
            r == (classify_spec(self.s_type@) is Quit),
    {
        match self.scene_type() {
            SceneType::Quit => true,
            _ => false,
        }
    }

    /// The classification of the scene's declared type string, re-derived on
    /// each call.
    pub fn scene_type(&self) -> (r: SceneType)
        ensures
            r@ == classify_spec(self.s_type@),
    {
        SceneType::parse(self.s_type.as_str())
    }
}

impl Default for Scene {
    fn default() -> (s: Scene)
        ensures
            s.id@.len() == 0,
            s.desc@.len() == 0,
            s.options@.len() == 0,
            s.next is None,
            s.s_type@.len() == 0,
    {
        Scene {
            id: String::new(),
            desc: String::new(),
            options: Vec::new(),
            next: None,
            s_type: String::new(),
        }
    }
}

/// The validated collection of scenes, entities and items that one play
/// session walks.
pub struct Scenario {
    pub version: String,
    pub player: Entity,
    pub monsters: Vec<Entity>,
    pub weapons: Vec<Weapon>,
    pub potions: Vec<Potion>,
    pub scenes: Vec<Scene>,
}

impl Scenario {
    /// The scene with id `start`, if any.
    pub fn start(&self) -> (r: Option<&Scene>)
        ensures
            match r {
                Some(s) => find_scene(self.scenes@, "start"@) == Some(*s),
                None => find_scene(self.scenes@, "start"@) is None,
            },
    {
        self.get_scene("start")
    }

    /// The first scene with the given id, if any.
    pub fn get_scene(&self, name: &str) -> (r: Option<&Scene>)
        ensures
            match r {
                Some(s) => find_scene(self.scenes@, name@) == Some(*s),
                None => find_scene(self.scenes@, name@) is None,
            },
    {
        let n = self.scenes.len();
        let mut i: usize = 0;
        proof {
            lemma_skip_zero(self.scenes@);
        }
        while i < n
            invariant
                0 <= i <= n,
                n == self.scenes@.len(),
                find_scene(self.scenes@, name@) == find_scene(self.scenes@.skip(i as int), name@),
            decreases n - i,
        {
            proof {
                assert(self.scenes@.skip(i as int)[0] == self.scenes@[i as int]);
                assert(self.scenes@.skip(i as int).drop_first() =~= self.scenes@.skip(i as int + 1));
            }
            if str_eq(self.scenes[i].id.as_str(), name) {
                return Some(&self.scenes[i]);
            }
            i = i + 1;
        }
        proof {
            assert(self.scenes@.skip(n as int).len() == 0);
        }
        None
    }

    /// The first monster with the given id, if any.
    pub fn get_monster(&self, name: &str) -> (r: Option<&Entity>)
        ensures
            match r {
                Some(m) => find_entity(self.monsters@, name@) == Some(*m),
                None => find_entity(self.monsters@, name@) is None,
            },
    {
        let n = self.monsters.len();
        let mut i: usize = 0;
        proof {
            lemma_skip_zero(self.monsters@);
        }
        while i < n
            invariant
                0 <= i <= n,
                n == self.monsters@.len(),
                find_entity(self.monsters@, name@) == find_entity(self.monsters@.skip(i as int), name@),
            decreases n - i,
        {
            proof {
                assert(self.monsters@.skip(i as int)[0] == self.monsters@[i as int]);
                assert(self.monsters@.skip(i as int).drop_first() =~= self.monsters@.skip(i as int + 1));
            }
            if str_eq(self.monsters[i].id(), name) {
                return Some(&self.monsters[i]);
            }
            i = i + 1;
        }
        proof {
            assert(self.monsters@.skip(n as int).len() == 0);
        }
        None
    }

    /// The first weapon with the given id, if any.
    pub fn get_weapon(&self, name: &str) -> (r: Option<&Weapon>)
        ensures
            match r {
                Some(w) => find_weapon(self.weapons@, name@) == Some(*w),
                None => find_weapon(self.weapons@, name@) is None,
            },
    {
        let n = self.weapons.len();
        let mut i: usize = 0;
        proof {
            lemma_skip_zero(self.weapons@);
        }
        while i < n
            invariant
                0 <= i <= n,
                n == self.weapons@.len(),
                find_weapon(self.weapons@, name@) == find_weapon(self.weapons@.skip(i as int), name@),
            decreases n - i,
        {
            proof {
                assert(self.weapons@.skip(i as int)[0] == self.weapons@[i as int]);
                assert(self.weapons@.skip(i as int).drop_first() =~= self.weapons@.skip(i as int + 1));
            }
            if str_eq(self.weapons[i].id.as_str(), name) {
                return Some(&self.weapons[i]);
            }
            i = i + 1;
        }
        proof {
            assert(self.weapons@.skip(n as int).len() == 0);
        }
        None
    }

    /// The first potion with the given id, if any.
    pub fn get_potions(&self, name: &str) -> (r: Option<&Potion>)
        ensures
            match r {
                Some(p) => find_potion(self.potions@, name@) == Some(*p),
                None => find_potion(self.potions@, name@) is None,
            },
    {
        let n = self.potions.len();
        let mut i: usize = 0;
        proof {
            lemma_skip_zero(self.potions@);
        }
        while i < n
            invariant
                0 <= i <= n,
                n == self.potions@.len(),
                find_potion(self.potions@, name@) == find_potion(self.potions@.skip(i as int), name@),
            decreases n - i,
        {
            proof {
                assert(self.potions@.skip(i as int)[0] == self.potions@[i as int]);
                assert(self.potions@.skip(i as int).drop_first() =~= self.potions@.skip(i as int + 1));
            }
            if str_eq(self.potions[i].id.as_str(), name) {
                return Some(&self.potions[i]);
            }
            i = i + 1;
        }
        proof {
            assert(self.potions@.skip(n as int).len() == 0);
        }
        None
    }

    /// The index of the first scene with the given id, if any: the mutable
    /// counterpart of `get_scene`, handing back where the scene stands so
    /// that the caller may replace it.
    pub fn get_scene_mut(&mut self, name: &str) -> (r: Option<usize>)
        ensures
            *final(self) == *old(self),
            match r {
                Some(i) => i < old(self).scenes@.len()
                    && find_scene(old(self).scenes@, name@) == Some(old(self).scenes@[i as int]),
                None => find_scene(old(self).scenes@, name@) is None,
            },
    {
        let n = self.scenes.len();
        let mut i: usize = 0;
        proof {
            lemma_skip_zero(self.scenes@);
        }
        while i < n
            invariant
                0 <= i <= n,
                n == self.scenes@.len(),
                find_scene(self.scenes@, name@) == find_scene(self.scenes@.skip(i as int), name@),
            decreases n - i,
        {
            proof {
                assert(self.scenes@.skip(i as int)[0] == self.scenes@[i as int]);
                assert(self.scenes@.skip(i as int).drop_first() =~= self.scenes@.skip(i as int + 1));
            }
            if str_eq(self.scenes[i].id.as_str(), name) {
                return Some(i);
            }
            i = i + 1;
        }
        proof {
            assert(self.scenes@.skip(n as int).len() == 0);
        }
        None
    }

    /// The position of the first scene with the given id, if any.
    pub fn scene_index(&self, name: &str) -> (r: Option<usize>)
        ensures
            (match r {
                Some(i) => i < self.scenes@.len()
                    && find_scene(self.scenes@, name@) == Some(self.scenes@[i as int]),
                None => find_scene(self.scenes@, name@) is None,
            }),
    {
        let n = self.scenes.len();
        let mut i: usize = 0;
        proof {
            lemma_skip_zero(self.scenes@);
        }
        while i < n
            invariant
                0 <= i <= n,
                n == self.scenes@.len(),
                find_scene(self.scenes@, name@) == find_scene(self.scenes@.skip(i as int), name@),
            decreases n - i,
        {
            proof {
                assert(self.scenes@.skip(i as int)[0] == self.scenes@[i as int]);
                assert(self.scenes@.skip(i as int).drop_first() =~= self.scenes@.skip(i as int + 1));
            }
            if str_eq(self.scenes[i].id.as_str(), name) {
                return Some(i);
            }
            i = i + 1;
        }
        proof {
            assert(self.scenes@.skip(n as int).len() == 0);
        }
        None
    }

    /// The position of the first monster with the given id, if any.
    pub fn monster_index(&self, name: &str) -> (r: Option<usize>)
        ensures
            (match r {
                Some(i) => i < self.monsters@.len()
                    && find_entity(self.monsters@, name@) == Some(self.monsters@[i as int]),
                None => find_entity(self.monsters@, name@) is None,
            }),
    {
        let n = self.monsters.len();
        let mut i: usize = 0;
        proof {
            lemma_skip_zero(self.monsters@);
        }
        while i < n
            invariant
                0 <= i <= n,
                n == self.monsters@.len(),
                find_entity(self.monsters@, name@) == find_entity(self.monsters@.skip(i as int), name@),
            decreases n - i,
        {
            proof {
                assert(self.monsters@.skip(i as int)[0] == self.monsters@[i as int]);
                assert(self.monsters@.skip(i as int).drop_first() =~= self.monsters@.skip(i as int + 1));
            }
            if str_eq(self.monsters[i].id(), name) {
                return Some(i);
            }
            i = i + 1;
        }
        proof {
            assert(self.monsters@.skip(n as int).len() == 0);
        }
        None
    }

    /// Check the whole graph: unique ids within each collection, every
    /// option target an existing scene, every typed scene argument an
    /// existing monster, weapon or potion.  Succeeds exactly on valid
    /// scenarios; an error names the offending ids.
    pub fn validate(&self) -> (r: Result<(), ValidationError>)
        ensures
            r is Ok <==> valid_scenario(*self),
            (match r {
                Ok(()) => true,
                Err(e) => violation_witnessed(*self, e),
            }),
    {
        let ns = self.scenes.len();
        let mut i: usize = 0;
        while i < ns
            invariant
                0 <= i <= ns,
                ns == self.scenes@.len(),
                forall|a: int, b: int| 0 <= a < b < i ==> self.scenes@[a].id@ != self.scenes@[b].id@,
            decreases ns - i,
        {
            let mut j: usize = 0;
            while j < i
                invariant
                    0 <= j <= i < ns,
                    ns == self.scenes@.len(),
                    forall|b: int| 0 <= b < j ==> self.scenes@[b].id@ != self.scenes@[i as int].id@,
                decreases i - j,
            {
                if str_eq(self.scenes[j].id.as_str(), self.scenes[i].id.as_str()) {
                    return Err(ValidationError::DuplicateSceneId(self.scenes[i].id.clone()));
                }
                j = j + 1;
            }
            i = i + 1;
        }
        let nm = self.monsters.len();
        let mut i: usize = 0;
        while i < nm
            invariant
                0 <= i <= nm,
                nm == self.monsters@.len(),
                forall|a: int, b: int| 0 <= a < b < i ==> self.monsters@[a]@.id != self.monsters@[b]@.id,
            decreases nm - i,
        {
            let mut j: usize = 0;
            while j < i
                invariant
                    0 <= j <= i < nm,
                    nm == self.monsters@.len(),
                    forall|b: int| 0 <= b < j ==> self.monsters@[b]@.id != self.monsters@[i as int]@.id,
                decreases i - j,
            {
                if str_eq(self.monsters[j].id(), self.monsters[i].id()) {
                    return Err(ValidationError::DuplicateMonsterId(self.monsters[i].id().to_owned()));
                }
                j = j + 1;
            }
            i = i + 1;
        }
        let nw = self.weapons.len();
        let mut i: usize = 0;
        while i < nw
            invariant
                0 <= i <= nw,
                nw == self.weapons@.len(),
                forall|a: int, b: int| 0 <= a < b < i ==> self.weapons@[a].id@ != self.weapons@[b].id@,
            decreases nw - i,
        {
            let mut j: usize = 0;
            while j < i
                invariant
                    0 <= j <= i < nw,
                    nw == self.weapons@.len(),
                    forall|b: int| 0 <= b < j ==> self.weapons@[b].id@ != self.weapons@[i as int].id@,
                decreases i - j,
            {
                if str_eq(self.weapons[j].id.as_str(), self.weapons[i].id.as_str()) {
                    return Err(ValidationError::DuplicateWeaponId(self.weapons[i].id.clone()));
                }
                j = j + 1;
            }
            i = i + 1;
        }
        let np = self.potions.len();
        let mut i: usize = 0;
        while i < np
            invariant
                0 <= i <= np,
                np == self.potions@.len(),
                forall|a: int, b: int| 0 <= a < b < i ==> self.potions@[a].id@ != self.potions@[b].id@,
            decreases np - i,
        {
            let mut j: usize = 0;
            while j < i
                invariant
                    0 <= j <= i < np,
                    np == self.potions@.len(),
                    forall|b: int| 0 <= b < j ==> self.potions@[b].id@ != self.potions@[i as int].id@,
                decreases i - j,
            {
                if str_eq(self.potions[j].id.as_str(), self.potions[i].id.as_str()) {
                    return Err(ValidationError::DuplicatePotionId(self.potions[i].id.clone()));
                }
                j = j + 1;
            }
            i = i + 1;
        }
        let mut i: usize = 0;
        while i < ns
            invariant
                0 <= i <= ns,
                ns == self.scenes@.len(),
                forall|a: int| 0 <= a < i ==> scene_options_resolve(self.scenes@, #[trigger] self.scenes@[a]),
            decreases ns - i,
        {
            let m = self.scenes[i].options.len();
            let mut j: usize = 0;
            while j < m
                invariant
                    0 <= j <= m,
                    0 <= i < ns,
                    ns == self.scenes@.len(),
                    m == self.scenes@[i as int].options@.len(),
                    forall|k: int| 0 <= k < j ==> find_scene(self.scenes@, #[trigger] self.scenes@[i as int].options@[k].action@) is Some,
                decreases m - j,
            {
                if self.get_scene(self.scenes[i].options[j].action.as_str()).is_none() {
                    return Err(ValidationError::MissingOptionTarget {
                        scene: self.scenes[i].id.clone(),
                        target: self.scenes[i].options[j].action.clone(),
                    });
                }
                j = j + 1;
            }
            i = i + 1;
        }
        let mut i: usize = 0;
        while i < ns
            invariant
                0 <= i <= ns,
                ns == self.scenes@.len(),
                forall|a: int| 0 <= a < i ==> scene_refs_resolve(*self, #[trigger] self.scenes@[a]),
            decreases ns - i,
        {
            match self.scenes[i].scene_type() {
                SceneType::Monster(id) => {
                    if self.get_monster(id.as_str()).is_none() {
                        return Err(ValidationError::MissingMonster {
                            scene: self.scenes[i].id.clone(),
                            id,
                        });
                    }
                },
                SceneType::Weapon(id) => {
                    if self.get_weapon(id.as_str()).is_none() {
                        return Err(ValidationError::MissingWeapon {
                            scene: self.scenes[i].id.clone(),
                            id,
                        });
                    }
                },
                SceneType::Potion(id) => {
                    if self.get_potions(id.as_str()).is_none() {
                        return Err(ValidationError::MissingPotion {
                            scene: self.scenes[i].id.clone(),
                            id,
                        });
                    }
                },
                _ => {},
            }
            i = i + 1;
        }
        Ok(())
    }
}

/// Ids are unique within the scene collection.
pub open spec fn unique_scene_ids(scenes: Seq<Scene>) -> bool {
    forall|a: int, b: int| 0 <= a < b < scenes.len() ==> scenes[a].id@ != scenes[b].id@
}

/// Ids are unique within the monster collection.
pub open spec fn unique_monster_ids(monsters: Seq<Entity>) -> bool {
    forall|a: int, b: int| 0 <= a < b < monsters.len() ==> monsters[a]@.id != monsters[b]@.id
}

/// Ids are unique within the weapon collection.
pub open spec fn unique_weapon_ids(weapons: Seq<Weapon>) -> bool {
    forall|a: int, b: int| 0 <= a < b < weapons.len() ==> weapons[a].id@ != weapons[b].id@
}

/// Ids are unique within the potion collection.
pub open spec fn unique_potion_ids(potions: Seq<Potion>) -> bool {
    forall|a: int, b: int| 0 <= a < b < potions.len() ==> potions[a].id@ != potions[b].id@
}

/// Every option of the scene targets an existing scene id.
pub open spec fn scene_options_resolve(scenes: Seq<Scene>, sc: Scene) -> bool {
    forall|j: int| 0 <= j < sc.options@.len() ==> find_scene(scenes, #[trigger] sc.options@[j].action@) is Some
}

/// The monster, weapon or potion the scene's type names exists.
pub open spec fn scene_refs_resolve(s: Scenario, sc: Scene) -> bool {
    match classify_spec(sc.s_type@) {
        SceneTypeView::Monster(id) => find_entity(s.monsters@, id) is Some,
        SceneTypeView::Weapon(id) => find_weapon(s.weapons@, id) is Some,
        SceneTypeView::Potion(id) => find_potion(s.potions@, id) is Some,
        _ => true,
    }
}

/// Referential integrity of the whole graph: unique ids in each collection,
/// every option target and every typed scene argument resolvable.
pub open spec fn valid_scenario(s: Scenario) -> bool {
    &&& unique_scene_ids(s.scenes@)
    &&& unique_monster_ids(s.monsters@)
    &&& unique_weapon_ids(s.weapons@)
    &&& unique_potion_ids(s.potions@)
    &&& forall|i: int| 0 <= i < s.scenes@.len() ==> scene_options_resolve(s.scenes@, #[trigger] s.scenes@[i])
    &&& forall|i: int| 0 <= i < s.scenes@.len() ==> scene_refs_resolve(s, #[trigger] s.scenes@[i])
}

/// What a validation error reports: the named ids really stand in the
/// scenario, and really fail to resolve or really collide.
pub open spec fn violation_witnessed(s: Scenario, e: ValidationError) -> bool {
    match e {
        ValidationError::DuplicateSceneId(id) => exists|a: int, b: int|
            0 <= a < b < s.scenes@.len() && s.scenes@[a].id@ == id@ && s.scenes@[b].id@ == id@,
        ValidationError::DuplicateMonsterId(id) => exists|a: int, b: int|
            0 <= a < b < s.monsters@.len() && s.monsters@[a]@.id == id@ && s.monsters@[b]@.id == id@,
        ValidationError::DuplicateWeaponId(id) => exists|a: int, b: int|
            0 <= a < b < s.weapons@.len() && s.weapons@[a].id@ == id@ && s.weapons@[b].id@ == id@,
        ValidationError::DuplicatePotionId(id) => exists|a: int, b: int|
            0 <= a < b < s.potions@.len() && s.potions@[a].id@ == id@ && s.potions@[b].id@ == id@,
        ValidationError::MissingOptionTarget { scene, target } => find_scene(s.scenes@, target@) is None
            && exists|i: int, j: int| 0 <= i < s.scenes@.len() && 0 <= j < s.scenes@[i].options@.len()
                && s.scenes@[i].id@ == scene@ && s.scenes@[i].options@[j].action@ == target@,
        ValidationError::MissingMonster { scene, id } => find_entity(s.monsters@, id@) is None
            && exists|i: int| 0 <= i < s.scenes@.len() && s.scenes@[i].id@ == scene@
                && classify_spec(s.scenes@[i].s_type@) == SceneTypeView::Monster(id@),
        ValidationError::MissingWeapon { scene, id } => find_weapon(s.weapons@, id@) is None
            && exists|i: int| 0 <= i < s.scenes@.len() && s.scenes@[i].id@ == scene@
                && classify_spec(s.scenes@[i].s_type@) == SceneTypeView::Weapon(id@),
        ValidationError::MissingPotion { scene, id } => find_potion(s.potions@, id@) is None
            && exists|i: int| 0 <= i < s.scenes@.len() && s.scenes@[i].id@ == scene@
                && classify_spec(s.scenes@[i].s_type@) == SceneTypeView::Potion(id@),
    }
}

/// A rejected scenario: the offending ids are carried in the error.
#[derive(Debug)]
pub enum ValidationError {
    DuplicateSceneId(String),
    DuplicateMonsterId(String),
    DuplicateWeaponId(String),
    DuplicatePotionId(String),
    MissingOptionTarget { scene: String, target: String },
    MissingMonster { scene: String, id: String },
    MissingWeapon { scene: String, id: String },
    MissingPotion { scene: String, id: String },
}

/// Law: an option that targets an absent scene id invalidates the scenario —
/// validation cannot succeed on such a graph.
pub proof fn lemma_missing_target_invalidates(s: Scenario, i: int, j: int)
    requires
        0 <= i < s.scenes@.len(),
        0 <= j < s.scenes@[i].options@.len(),
        find_scene(s.scenes@, s.scenes@[i].options@[j].action@) is None,
    ensures
        !valid_scenario(s),
{
    assert(!scene_options_resolve(s.scenes@, s.scenes@[i]));
}

} // verus!

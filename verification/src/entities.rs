use vstd::prelude::*;

verus! {

/// An actor with health and equipment: the player or a monster.
///
/// Health is private: every change goes through `add_health` or
/// `receive_damage`, which clamp at zero instead of going negative.
pub struct Entity {
    health: u32,
    weapons: Vec<Weapon>,
    name: String,
    id: String,
}

/// The mathematical value of an `Entity`: its health, its name and id, and
/// the sequence of carried weapons.
pub struct EntityView {
    pub health: u32,
    pub weapons: Seq<Weapon>,
    pub name: Seq<char>,
    pub id: Seq<char>,
}

impl View for Entity {
    type V = EntityView;

    closed spec fn view(&self) -> EntityView {
        EntityView {
            health: self.health,
            weapons: self.weapons@,
            name: self.name@,
            id: self.id@,
        }
    }
}

/// A weapon: dealing damage reduces a target's health by `damage`.
pub struct Weapon {
    pub id: String,
    pub name: String,
    pub damage: u32,
}

/// A potion: drinking it adds `health` to an entity (negative for poison).
pub struct Potion {
    pub id: String,
    pub name: String,
    pub health: i32,
}

/// Health after a signed change: clamped to zero below, saturated at the
/// largest representable value above.
pub open spec fn health_after(h: int, amount: int) -> int {
    if h + amount < 0 {
        0
    } else if h + amount > u32::MAX {
        u32::MAX as int
    } else {
        h + amount
    }
}

/// Whether a signed change is absorbed without hitting the zero floor.
pub open spec fn health_change_ok(h: int, amount: int) -> bool {
    h + amount >= 0
}

impl Entity {
    pub fn new(name: String, health: u32) -> (e: Entity)
        ensures
            e@.health == health,
            e@.name == name@,
            e@.weapons.len() == 0,
            e@.id.len() == 0,
    {
        Entity { name, health, weapons: Vec::new(), id: String::new() }
    }

    /// Assemble an entity from all of its parts.
    pub fn from_parts(id: String, name: String, health: u32, weapons: Vec<Weapon>) -> (e: Entity)
        ensures
            e@ == (EntityView { health, weapons: weapons@, name: name@, id: id@ }),
    {
        Entity { health, weapons, name, id }
    }

    pub fn name(&self) -> (r: &str)
        ensures
            r@ == self@.name,
    {
        self.name.as_str()
    }

    pub fn id(&self) -> (r: &str)
        ensures
            r@ == self@.id,
    {
        self.id.as_str()
    }

    pub fn weapons(&self) -> (r: &Vec<Weapon>)
        ensures
            r@ == self@.weapons,
    {
        &self.weapons
    }

    pub fn health(&self) -> (h: u32)
        ensures
            h == self@.health,
    {
        self.health
    }

    pub fn is_alive(&self) -> (r: bool)
        ensures
            r == (self@.health != 0),
    {
        self.health != 0
    }

    /// Add a signed amount of health.  If the sum would be negative the
    /// health clamps to zero and the call reports failure; otherwise the
    /// health becomes exactly the sum (saturated at `u32::MAX`) and the call
    /// reports success.  This is the single place where health changes.
    pub fn add_health(&mut self, amount: i32) -> (ok: bool)
        ensures
            final(self)@ == (EntityView {
                health: health_after(old(self)@.health as int, amount as int) as u32,
                ..old(self)@
            }),
            ok == health_change_ok(old(self)@.health as int, amount as int),
    {
        let sum: i64 = self.health as i64 + amount as i64;
        if sum < 0 {
            self.health = 0;
            false
        } else if sum > u32::MAX as i64 {
            self.health = u32::MAX;
            true
        } else {
            self.health = sum as u32;
            true
        }
    }

    /// Receive unsigned damage: the same change as `add_health(-dmg)`.
    /// Reports failure exactly when the damage exceeds the current health,
    /// in which case health clamps to zero.
    pub fn receive_damage(&mut self, dmg: u32) -> (ok: bool)
        ensures
            final(self)@ == (EntityView {
                health: if old(self)@.health < dmg { 0u32 } else { (old(self)@.health - dmg) as u32 },
                ..old(self)@
            }),
            ok == (old(self)@.health >= dmg),
    {
        if self.health < dmg {
            self.health = 0;
            false
        } else {
            self.health = self.health - dmg;
            true
        }
    }

    /// Append a weapon to the entity's equipment, leaving the rest unchanged.
    pub fn grant_weapon(&mut self, weapon: Weapon)
        ensures
            final(self)@ == (EntityView { weapons: old(self)@.weapons.push(weapon), ..old(self)@ }),
    {
        self.weapons.push(weapon);
    }
}

/// Law: a health change never leaves health negative.  When the sum would be
/// negative the post-state health is exactly zero and the call fails; when
/// the sum is representable the post-state health is exactly the sum and the
/// call succeeds.
pub proof fn lemma_add_health_clamps(h: u32, amount: i32)
    ensures
        health_after(h as int, amount as int) >= 0,
        h + amount < 0 ==> health_after(h as int, amount as int) == 0
            && !health_change_ok(h as int, amount as int),
        0 <= h + amount <= u32::MAX ==> health_after(h as int, amount as int) == h + amount
            && health_change_ok(h as int, amount as int),
{
}

/// Law: `receive_damage(d)` is the same health transition as `add_health(-d)`:
/// the clamped result and the success report coincide for every health value
/// and every unsigned amount of damage.
pub proof fn lemma_receive_damage_is_add_health(h: u32, d: u32)
    ensures
        (if h < d { 0int } else { h - d }) == health_after(h as int, -(d as int)),
        (h >= d) == health_change_ok(h as int, -(d as int)),
{
}

impl Clone for Weapon {
    fn clone(&self) -> (r: Weapon)
        ensures
            r == *self,
    {
        let r = Weapon { id: self.id.clone(), name: self.name.clone(), damage: self.damage };
        proof {
            assert(r == *self);
        }
        r
    }
}

impl Weapon {
    pub fn damage(&self) -> (d: u32)
        ensures
            d == self.damage,
    {
        self.damage
    }

    /// Deal this weapon's damage to the target.
    pub fn deal_damage(&self, entity: &mut Entity) -> (ok: bool)
        ensures
            final(entity)@ == (EntityView {
                health: if old(entity)@.health < self.damage {
                    0u32
                } else {
                    (old(entity)@.health - self.damage) as u32
                },
                ..old(entity)@
            }),
            ok == (old(entity)@.health >= self.damage),
    {
        entity.receive_damage(self.damage)
    }
}

impl Potion {
    pub fn health(&self) -> (h: i32)
        ensures
            h == self.health,
    {
        self.health
    }

    /// Apply this potion's health change to the target.
    pub fn add_health(&self, entity: &mut Entity) -> (ok: bool)
        ensures
            final(entity)@ == (EntityView {
                health: health_after(old(entity)@.health as int, self.health as int) as u32,
                ..old(entity)@
            }),
            ok == health_change_ok(old(entity)@.health as int, self.health as int),
    {
        entity.add_health(self.health)
    }
}

} // verus!

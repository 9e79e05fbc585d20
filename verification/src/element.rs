//! Elemental types, evolution levels and the advantage table.

use vstd::prelude::*;

verus! {

/// Highest evolution level a spirit can reach.
pub const MAX_LEVEL: u32 = 2;

/// The element of a spirit, carrying its evolution level.
#[derive(Clone, Copy, Debug, PartialEq, Eq, Structural)]
pub enum SpiritType {
    Fire(u32),
    Water(u32),
    Slime(u32),
    Light(u32),
    Dark(u32),
}

impl SpiritType {
    /// The evolution level carried by the element.
    pub open spec fn spec_level(&self) -> u32 {
        let this = *self;
        match this {
            SpiritType::Fire(level) => level,
            SpiritType::Water(level) => level,
            SpiritType::Slime(level) => level,
            SpiritType::Light(level) => level,
            SpiritType::Dark(level) => level,
        }
    }

    /// The same element at another level.
    pub open spec fn at_level(self, level: u32) -> SpiritType {
        match self {
            SpiritType::Fire(_) => SpiritType::Fire(level),
            SpiritType::Water(_) => SpiritType::Water(level),
            SpiritType::Slime(_) => SpiritType::Slime(level),
            SpiritType::Light(_) => SpiritType::Light(level),
            SpiritType::Dark(_) => SpiritType::Dark(level),
        }
    }

    /// Two elements are of the same kind when they differ at most in level.
    pub open spec fn same_kind(self, other: SpiritType) -> bool {
        other == self.at_level(other.spec_level())
    }

    /// The level lies within the range the game knows.
    pub open spec fn well_formed(self) -> bool {
        self.spec_level() <= MAX_LEVEL
    }

    /// The cycle among the three material elements: fire burns slime, water
    /// quenches fire, slime soaks up water.
    pub open spec fn overcomes(self, other: SpiritType) -> bool {
        ||| self is Fire && other is Slime
        ||| self is Water && other is Fire
        ||| self is Slime && other is Water
    }

    /// Light and dark oppose each other.
    pub open spec fn opposes(self, other: SpiritType) -> bool {
        ||| self is Light && other is Dark
        ||| self is Dark && other is Light
    }

    /// Light and dark are the two ethereal elements.
    pub open spec fn ethereal(self) -> bool {
        self is Light || self is Dark
    }

    /// The advantage of an attacker of element `self` over a defender of
    /// element `other`: one step up or down along the material cycle; for the
    /// ethereal elements the attacker's own level against the opposite
    /// element and one step down against its own; nothing otherwise.
    pub open spec fn spec_type_advantage(self, other: SpiritType) -> int {
        if self.overcomes(other) {
            1
        } else if other.overcomes(self) {
            -1
        } else if self.opposes(other) {
            self.spec_level() as int
        } else if self.ethereal() && self.same_kind(other) {
            -1
        } else {
            0
        }
    }

    /// How many spirits of this element and level one fusion consumes.
    pub open spec fn spec_required(self) -> int {
        match self {
            SpiritType::Fire(level) => 4 + 2 * level,
            SpiritType::Water(level) => 4 + 2 * level,
            SpiritType::Slime(level) => 2 + level,
            SpiritType::Light(level) => 3 + 4 * level,
            SpiritType::Dark(level) => 3 + 4 * level,
        }
    }

    #[verifier::when_used_as_spec(spec_level)]
    pub fn level(&self) -> (level: u32)
        ensures
            level == self.spec_level(),
    {
        match self {
            SpiritType::Fire(level) => *level,
            SpiritType::Water(level) => *level,
            SpiritType::Slime(level) => *level,
            SpiritType::Light(level) => *level,
            SpiritType::Dark(level) => *level,
        }
    }

    /// Whether the level lies within the range the game knows.
    pub fn check(&self) -> (ok: bool)
        ensures
            ok == self.well_formed(),
    {
        self.level() <= MAX_LEVEL
    }

    /// The same element at level 0.
    pub fn base_level(&self) -> (base: SpiritType)
        ensures
            base == self.at_level(0),
    {
        match self {
            SpiritType::Fire(_) => SpiritType::Fire(0),
            SpiritType::Water(_) => SpiritType::Water(0),
            SpiritType::Slime(_) => SpiritType::Slime(0),
            SpiritType::Light(_) => SpiritType::Light(0),
            SpiritType::Dark(_) => SpiritType::Dark(0),
        }
    }

    /// The same element one level up.
    pub fn next_level(&self) -> (next: SpiritType)
        requires
            self.spec_level() < u32::MAX,
        ensures
            next == self.at_level((self.spec_level() + 1) as u32),
    {
        match self {
            SpiritType::Fire(level) => SpiritType::Fire(*level + 1),
            SpiritType::Water(level) => SpiritType::Water(*level + 1),
            SpiritType::Slime(level) => SpiritType::Slime(*level + 1),
            SpiritType::Light(level) => SpiritType::Light(*level + 1),
            SpiritType::Dark(level) => SpiritType::Dark(*level + 1),
        }
    }

    /// The advantage of `self` attacking `other`.
    pub fn type_advantage(&self, other: &SpiritType) -> (advantage: i32)
        requires
            self.spec_level() <= i32::MAX,
        ensures
            advantage == self.spec_type_advantage(*other),
    {
        match (self, other) {
            (SpiritType::Fire(_), SpiritType::Slime(_)) => 1,
            (SpiritType::Fire(_), SpiritType::Water(_)) => -1,
            (SpiritType::Water(_), SpiritType::Fire(_)) => 1,
            (SpiritType::Water(_), SpiritType::Slime(_)) => -1,
            (SpiritType::Slime(_), SpiritType::Water(_)) => 1,
            (SpiritType::Slime(_), SpiritType::Fire(_)) => -1,
            (SpiritType::Light(level), SpiritType::Dark(_)) => *level as i32,
            (SpiritType::Light(_), SpiritType::Light(_)) => -1,
            (SpiritType::Dark(level), SpiritType::Light(_)) => *level as i32,
            (SpiritType::Dark(_), SpiritType::Dark(_)) => -1,
            _ => 0,
        }
    }
}

/// Whether a spirit of this element can still evolve.
pub fn can_upgrade(element: &SpiritType) -> (can: bool)
    ensures
        can == (element.spec_level() != MAX_LEVEL),
{
    element.level() != MAX_LEVEL
}

/// How many spirits of this element and level one fusion consumes.
pub fn required_spirits(element: &SpiritType) -> (count: u32)
    requires
        element.well_formed(),
    ensures
        count == element.spec_required(),
{
    match element {
        SpiritType::Fire(level) => 4 + *level * 2,
        SpiritType::Water(level) => 4 + *level * 2,
        SpiritType::Slime(level) => 2 + *level,
        SpiritType::Light(level) => 3 + *level * 4,
        SpiritType::Dark(level) => 3 + *level * 4,
    }
}

/// Along the material cycle an advantage one way is a disadvantage the other.
pub proof fn lemma_material_advantage_mirrors(a: SpiritType, b: SpiritType)
    requires
        !a.ethereal(),
        !b.ethereal(),
    ensures
        a.spec_type_advantage(b) == -b.spec_type_advantage(a),
{
}

} // verus!

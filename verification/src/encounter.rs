//! Encounters: bands of wild spirits that roam a level until the player
//! runs into them.

use vstd::prelude::*;
use crate::chance::random_below;
use crate::element::{SpiritType, MAX_LEVEL};
use crate::spirit::{muster, Spirit};

verus! {

/// No encounter holds more spirits than this.
pub const BAND_LIMIT: u32 = 11;

/// The shortest time between two steps of a roaming encounter, in
/// nanoseconds. An encounter's period is one to four times this.
pub const PACE: u32 = 250_000_000;

/// A band of wild spirits and the rhythm of its roaming.
#[derive(Clone, Debug)]
pub struct Encounter {
    pub spirits: Vec<Spirit>,
    /// Time between two steps, in nanoseconds.
    pub period: u32,
    /// Time left until the next step, in nanoseconds.
    pub duration: u64,
}

/// How many spirits a group gets: what the die shows, but one at least, and
/// no more than the band has room for.
pub open spec fn group_size(remaining: int, roll: int) -> int {
    let wanted = if roll < 1 {
        1
    } else {
        roll
    };
    if wanted < remaining {
        wanted
    } else {
        remaining
    }
}

/// How many spirits the first `groups` groups of a band hold together.
pub open spec fn spent(rolls: Seq<u32>, groups: nat) -> int
    decreases groups,
{
    if groups == 0 {
        0
    } else {
        let before = spent(rolls, (groups - 1) as nat);
        before + group_size(BAND_LIMIT - before, rolls[groups - 1] as int)
    }
}

/// The first `groups` groups of a band, as pairs of level and size: levels
/// go down from `top` one by one, and each group takes its size from the
/// room the earlier groups have left.
pub open spec fn band_groups(top: u32, rolls: Seq<u32>, groups: nat) -> Seq<(u32, u32)>
    decreases groups,
{
    if groups == 0 {
        Seq::empty()
    } else {
        let before = spent(rolls, (groups - 1) as nat);
        band_groups(top, rolls, (groups - 1) as nat).push(
            (
                (top - (groups - 1)) as u32,
                group_size(BAND_LIMIT - before, rolls[groups - 1] as int) as u32,
            ),
        )
    }
}

/// The bound of the die that sizes the group of level `group_level` on a
/// level of the dungeon: five for each level the group is below the
/// dungeon's, and five more.
pub open spec fn size_die(level: u32, group_level: u32) -> int {
    5 * (level - group_level + 1)
}

/// Whether the dice could have fallen this way on a level of the dungeon:
/// the top level is neither above the dungeon's nor above the highest there
/// is, and each group's die stays below its bound.
pub open spec fn valid_band_rolls(level: u32, top: u32, rolls: Seq<u32>) -> bool {
    &&& top <= level
    &&& top <= MAX_LEVEL
    &&& rolls.len() == top + 1
    &&& forall|k: int| 0 <= k <= top ==> (#[trigger] rolls[k]) < size_die(level, (top - k) as u32)
}

/// The element of a band, by the die that picks it.
pub open spec fn band_element(species: u32, level: u32) -> SpiritType {
    if species == 0 {
        SpiritType::Fire(level)
    } else if species == 1 {
        SpiritType::Water(level)
    } else if species == 2 {
        SpiritType::Slime(level)
    } else if species == 3 {
        SpiritType::Light(level)
    } else {
        SpiritType::Dark(level)
    }
}

/// The elements of a band's spirits, group after group.
pub open spec fn roll_call(groups: Seq<(u32, u32)>, species: u32) -> Seq<SpiritType>
    decreases groups.len(),
{
    if groups.len() == 0 {
        Seq::empty()
    } else {
        roll_call(groups.drop_last(), species) + Seq::new(
            groups.last().1 as nat,
            |i: int| band_element(species, groups.last().0),
        )
    }
}

/// The elements of the spirits of the band that the dice make.
pub open spec fn band_elements(top: u32, rolls: Seq<u32>, species: u32) -> Seq<SpiritType> {
    roll_call(band_groups(top, rolls, (top + 1) as nat), species)
}

/// The groups never hold more spirits than a band may.
pub proof fn lemma_spent_within_limit(rolls: Seq<u32>, groups: nat)
    ensures
        0 <= spent(rolls, groups) <= BAND_LIMIT,
    decreases groups,
{
    if groups > 0 {
        lemma_spent_within_limit(rolls, (groups - 1) as nat);
    }
}

impl Encounter {
    /// The groups of a band for the given dice: the highest level first,
    /// then one group for each level below it.
    pub fn sizes_from(top: u32, rolls: &Vec<u32>) -> (groups: Vec<(u32, u32)>)
        requires
            rolls@.len() == top + 1,
        ensures
            groups@ == band_groups(top, rolls@, (top + 1) as nat),
    {
        let mut remaining: u32 = BAND_LIMIT;
        let mut groups: Vec<(u32, u32)> = Vec::new();
        let mut k: usize = 0;
        while k < rolls.len()
            invariant
                k <= rolls@.len(),
                rolls@.len() == top + 1,
                remaining == BAND_LIMIT - spent(rolls@, k as nat),
                groups@ == band_groups(top, rolls@, k as nat),
            decreases rolls@.len() - k,
        {
            proof {
                lemma_spent_within_limit(rolls@, k as nat);
            }
            let roll = rolls[k];
            let wanted: u32 = if roll < 1 {
                1
            } else {
                roll
            };
            let count: u32 = if wanted < remaining {
                wanted
            } else {
                remaining
            };
            groups.push((top - k as u32, count));
            remaining = remaining - count;
            k = k + 1;
        }
        groups
    }

    /// Throws the dice for the groups of a band on a level of the dungeon.
    pub fn encounter_size(level: u32) -> (groups: Vec<(u32, u32)>)
        requires
            5 * (level + 1) <= u32::MAX,
        ensures
            exists|top: u32, rolls: Seq<u32>|
                valid_band_rolls(level, top, rolls) && groups@ == #[trigger] band_groups(
                    top,
                    rolls,
                    (top + 1) as nat,
                ),
    {
        let draw = random_below(level + 1);
        let top: u32 = if draw > MAX_LEVEL {
            MAX_LEVEL
        } else {
            draw
        };
        let mut rolls: Vec<u32> = Vec::new();
        let mut k: u32 = 0;
        while k <= top
            invariant
                k <= top + 1,
                top <= level,
                top <= MAX_LEVEL,
                5 * (level + 1) <= u32::MAX,
                rolls@.len() == k,
                forall|j: int| 0 <= j < k ==> (#[trigger] rolls@[j]) < size_die(level, (top - j) as u32),
            decreases top + 1 - k,
        {
            rolls.push(random_below(5 * (level - (top - k) + 1)));
            k = k + 1;
        }
        let groups = Self::sizes_from(top, &rolls);
        proof {
            assert(valid_band_rolls(level, top, rolls@));
        }
        groups
    }

    /// The elements of a band's spirits, group after group, for the die that
    /// picks the band's element.
    pub fn elements_from(groups: &Vec<(u32, u32)>, species: u32) -> (elements: Vec<SpiritType>)
        ensures
            elements@ == roll_call(groups@, species),
    {
        let mut elements: Vec<SpiritType> = Vec::new();
        let mut g: usize = 0;
        while g < groups.len()
            invariant
                g <= groups@.len(),
                elements@ == roll_call(groups@.take(g as int), species),
            decreases groups@.len() - g,
        {
            proof {
                assert(groups@.take(g + 1).drop_last() =~= groups@.take(g as int));
            }
            let (level, count) = groups[g];
            let element = match species {
                0 => SpiritType::Fire(level),
                1 => SpiritType::Water(level),
                2 => SpiritType::Slime(level),
                3 => SpiritType::Light(level),
                _ => SpiritType::Dark(level),
            };
            let ghost earlier = elements@;
            let mut i: u32 = 0;
            while i < count
                invariant
                    i <= count,
                    elements@ == earlier + Seq::new(i as nat, |j: int| element),
                decreases count - i,
            {
                elements.push(element);
                i = i + 1;
                assert(elements@ =~= earlier + Seq::new(i as nat, |j: int| element));
            }
            assert(elements@ =~= roll_call(groups@.take(g + 1), species));
            g = g + 1;
        }
        proof {
            assert(groups@.take(g as int) =~= groups@);
        }
        elements
    }

    /// Makes the spirits of a band for a level of the dungeon: one element
    /// for all, groups by level, each spirit with its own stats and moves.
    pub fn random_encounter(level: u32) -> (spirits: Vec<Spirit>)
        requires
            5 * (level + 1) <= u32::MAX,
        ensures
            Self::band_for(spirits@, level),
    {
        let groups = Self::encounter_size(level);
        let species = random_below(5);
        let elements = Self::elements_from(&groups, species);
        proof {
            let (top, rolls) = choose|top: u32, rolls: Seq<u32>|
                valid_band_rolls(level, top, rolls) && groups@ == #[trigger] band_groups(
                    top,
                    rolls,
                    (top + 1) as nat,
                );
            lemma_roll_call(top, rolls, (top + 1) as nat, species);
        }
        let spirits = muster(&elements, false);
        proof {
            let (top, rolls) = choose|top: u32, rolls: Seq<u32>|
                valid_band_rolls(level, top, rolls) && groups@ == #[trigger] band_groups(
                    top,
                    rolls,
                    (top + 1) as nat,
                );
            assert(elements@ == band_elements(top, rolls, species));
        }
        spirits
    }

    /// Whether the spirits are a band as the dice can make it for a level of
    /// the dungeon.
    pub open spec fn band_for(spirits: Seq<Spirit>, level: u32) -> bool {
        exists|top: u32, rolls: Seq<u32>, species: u32|
            {
                let elements = #[trigger] band_elements(top, rolls, species);
                &&& valid_band_rolls(level, top, rolls)
                &&& species < 5
                &&& spirits.len() == elements.len()
                &&& forall|k: int|
                    0 <= k < spirits.len() ==> (#[trigger] spirits[k]).newly_made(elements[k], false)
            }
    }

    /// A new band for a level of the dungeon, about to take its first step.
    pub fn new(level: u32) -> (encounter: Encounter)
        requires
            5 * (level + 1) <= u32::MAX,
        ensures
            Self::band_for(encounter.spirits@, level),
            PACE <= encounter.period <= 4 * PACE,
            encounter.period % PACE == 0,
            encounter.duration == encounter.period,
    {
        let spirits = Self::random_encounter(level);
        let beats = 1 + random_below(4);
        let period = PACE * beats;
        assert(period == PACE || period == 2 * PACE || period == 3 * PACE || period == 4 * PACE);
        Encounter { spirits, period, duration: period as u64 }
    }

    /// Lets `delta` nanoseconds pass. Once the time outlasts what was left,
    /// a step is due and the next period starts.
    pub fn update(&mut self, delta: u64) -> (due: bool)
        ensures
            due == (delta > old(self).duration),
            final(self).duration == if due {
                old(self).period as int
            } else {
                old(self).duration - delta
            },
            final(self).period == old(self).period,
            final(self).spirits == old(self).spirits,
    {
        if delta <= self.duration {
            self.duration = self.duration - delta;
            false
        } else {
            self.duration = self.period as u64;
            true
        }
    }
}

/// Every spirit of a band has a level the game knows, and a band holds no
/// more spirits than it may.
pub proof fn lemma_roll_call(top: u32, rolls: Seq<u32>, groups: nat, species: u32)
    requires
        top <= MAX_LEVEL,
        groups <= top + 1,
    ensures
        roll_call(band_groups(top, rolls, groups), species).len() == spent(rolls, groups),
        spent(rolls, groups) <= BAND_LIMIT,
        forall|k: int|
            0 <= k < roll_call(band_groups(top, rolls, groups), species).len() ==> (#[trigger] roll_call(
                band_groups(top, rolls, groups),
                species,
            )[k]).well_formed(),
    decreases groups,
{
    lemma_spent_within_limit(rolls, groups);
    if groups > 0 {
        lemma_roll_call(top, rolls, (groups - 1) as nat, species);
        lemma_spent_within_limit(rolls, (groups - 1) as nat);
        let these = band_groups(top, rolls, groups);
        assert(these.drop_last() =~= band_groups(top, rolls, (groups - 1) as nat));
    }
}

} // verus!

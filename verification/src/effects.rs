//! Effect queues: pending damage, healing and defense changes that drain one
//! unit per tick window.

use vstd::prelude::*;
use crate::spirit::Spirit;

verus! {

/// Length of one tick window, in nanoseconds.
pub const TICK_WINDOW: u64 = 100_000_000;

/// A defense gain applies only while defense is at or below this.
pub const DEFENSE_CAP: i32 = 6;

/// A pending change with the units it has left.
#[derive(Clone, Copy, Debug, PartialEq, Eq, Structural)]
pub enum CombatEffect {
    Damage(u32),
    Heal(u32),
    Defense(u32),
    ShedDefense(u32),
}

/// The effects queued on one combatant, oldest first, and the time left in
/// the current tick window.
#[derive(Clone, Debug)]
pub struct CombatEffects {
    pub effects: Vec<CombatEffect>,
    pub duration: u64,
}

impl CombatEffect {
    /// The units left.
    pub open spec fn remaining(self) -> u32 {
        match self {
            CombatEffect::Damage(amount) => amount,
            CombatEffect::Heal(amount) => amount,
            CombatEffect::Defense(amount) => amount,
            CombatEffect::ShedDefense(amount) => amount,
        }
    }

    /// The same kind of effect with other units left.
    pub open spec fn with_remaining(self, amount: u32) -> CombatEffect {
        match self {
            CombatEffect::Damage(_) => CombatEffect::Damage(amount),
            CombatEffect::Heal(_) => CombatEffect::Heal(amount),
            CombatEffect::Defense(_) => CombatEffect::Defense(amount),
            CombatEffect::ShedDefense(_) => CombatEffect::ShedDefense(amount),
        }
    }

    /// Whether the effect can still change the spirit: damage needs health
    /// left, healing needs health missing, a defense gain needs defense at or
    /// below the cap, shedding needs defense above its resting value.
    pub open spec fn applies_to(self, spirit: Spirit) -> bool {
        match self {
            CombatEffect::Damage(_) => spirit.health > 0,
            CombatEffect::Heal(_) => spirit.health < spirit.max_health,
            CombatEffect::Defense(_) => spirit.defense <= DEFENSE_CAP,
            CombatEffect::ShedDefense(_) => spirit.defense > spirit.base_defense,
        }
    }

    /// The spirit after one unit of the effect, where it applies.
    pub open spec fn applied(self, spirit: Spirit) -> Spirit {
        if !self.applies_to(spirit) {
            spirit
        } else {
            match self {
                CombatEffect::Damage(_) => Spirit { health: (spirit.health - 1) as u32, ..spirit },
                CombatEffect::Heal(_) => Spirit { health: (spirit.health + 1) as u32, ..spirit },
                CombatEffect::Defense(_) => Spirit { defense: (spirit.defense + 1) as i32, ..spirit },
                CombatEffect::ShedDefense(_) => Spirit {
                    defense: (spirit.defense - 1) as i32,
                    ..spirit
                },
            }
        }
    }

    /// What stays queued after one unit: the effect with one unit fewer, or
    /// nothing once it has run out or no longer applies.
    pub open spec fn leftover(self, spirit: Spirit) -> Option<CombatEffect> {
        if self.applies_to(spirit) && self.remaining() > 1 {
            Some(self.with_remaining((self.remaining() - 1) as u32))
        } else {
            None
        }
    }
}

/// The spirit after one tick of every queued effect, oldest first.
pub open spec fn tick_spirit(effects: Seq<CombatEffect>, spirit: Spirit) -> Spirit
    decreases effects.len(),
{
    if effects.len() == 0 {
        spirit
    } else {
        effects.last().applied(tick_spirit(effects.drop_last(), spirit))
    }
}

/// The queue after one tick of every queued effect: each effect's leftover,
/// in the order the effects were queued.
pub open spec fn tick_queue(effects: Seq<CombatEffect>, spirit: Spirit) -> Seq<CombatEffect>
    decreases effects.len(),
{
    if effects.len() == 0 {
        Seq::empty()
    } else {
        let earlier = tick_queue(effects.drop_last(), spirit);
        match effects.last().leftover(tick_spirit(effects.drop_last(), spirit)) {
            Some(effect) => earlier.push(effect),
            None => earlier,
        }
    }
}

impl CombatEffects {
    /// A queue holding the given effects at the start of a tick window.
    pub fn new(effects: Vec<CombatEffect>) -> (queue: CombatEffects)
        ensures
            queue.effects == effects,
            queue.duration == TICK_WINDOW,
    {
        CombatEffects { effects, duration: TICK_WINDOW }
    }

    /// Whether anything is queued.
    pub open spec fn spec_active(&self) -> bool {
        self.effects@.len() > 0
    }

    /// Whether anything is queued.
    #[verifier::when_used_as_spec(spec_active)]
    pub fn active(&self) -> (active: bool)
        ensures
            active == self.spec_active(),
    {
        self.effects.len() > 0
    }

    /// Appends an effect. An empty queue starts a new tick window.
    pub fn enqueue(&mut self, effect: CombatEffect)
        ensures
            final(self).effects@ == old(self).effects@.push(effect),
            final(self).duration == if old(self).spec_active() {
                old(self).duration
            } else {
                TICK_WINDOW
            },
    {
        if self.effects.len() == 0 {
            self.duration = TICK_WINDOW;
        }
        self.effects.push(effect);
    }

    /// Lets `delta` nanoseconds pass. Once the time outlasts the window, a
    /// tick is due and the next window starts.
    pub fn update(&mut self, delta: u64) -> (fired: bool)
        ensures
            fired == (delta > old(self).duration),
            final(self).duration == if fired {
                TICK_WINDOW as int
            } else {
                old(self).duration - delta
            },
            final(self).effects == old(self).effects,
    {
        if delta <= self.duration {
            self.duration = self.duration - delta;
            false
        } else {
            self.duration = TICK_WINDOW;
            true
        }
    }

    /// Applies one unit of every queued effect to the spirit, oldest first,
    /// and keeps what is left of each.
    pub fn apply_tick(&mut self, spirit: &mut Spirit)
        ensures
            *final(spirit) == tick_spirit(old(self).effects@, *old(spirit)),
            final(self).effects@ == tick_queue(old(self).effects@, *old(spirit)),
            final(self).duration == old(self).duration,
            old(spirit).well_formed() ==> final(spirit).well_formed(),
    {
        let ghost queued = self.effects@;
        let ghost before = *spirit;
        let mut kept: Vec<CombatEffect> = Vec::new();
        let mut i: usize = 0;
        while i < self.effects.len()
            invariant
                i <= self.effects.len(),
                self.effects@ == queued,
                *spirit == tick_spirit(queued.take(i as int), before),
                kept@ == tick_queue(queued.take(i as int), before),
            decreases self.effects.len() - i,
        {
            proof {
                assert(queued.take(i + 1).drop_last() =~= queued.take(i as int));
            }
            match self.effects[i] {
                CombatEffect::Damage(amount) => {
                    if spirit.health > 0 {
                        spirit.health = spirit.health - 1;
                        if amount > 1 {
                            kept.push(CombatEffect::Damage(amount - 1));
                        }
                    }
                },
                CombatEffect::Heal(amount) => {
                    if spirit.health < spirit.max_health {
                        spirit.health = spirit.health + 1;
                        if amount > 1 {
                            kept.push(CombatEffect::Heal(amount - 1));
                        }
                    }
                },
                CombatEffect::Defense(amount) => {
                    if spirit.defense <= DEFENSE_CAP {
                        spirit.defense = spirit.defense + 1;
                        if amount > 1 {
                            kept.push(CombatEffect::Defense(amount - 1));
                        }
                    }
                },
                CombatEffect::ShedDefense(amount) => {
                    if spirit.defense > spirit.base_defense {
                        spirit.defense = spirit.defense - 1;
                        if amount > 1 {
                            kept.push(CombatEffect::ShedDefense(amount - 1));
                        }
                    }
                },
            }
            i = i + 1;
        }
        proof {
            assert(queued.take(i as int) =~= queued);
            lemma_tick_keeps_well_formed(queued, before);
        }
        self.effects = kept;
    }
}

/// One unit of any effect leaves a well-formed spirit well formed: health
/// stays within its bound and defense at or above its resting value.
pub proof fn lemma_effect_keeps_well_formed(effect: CombatEffect, spirit: Spirit)
    requires
        spirit.well_formed(),
    ensures
        effect.applied(spirit).well_formed(),
        effect.applied(spirit).max_health == spirit.max_health,
{
}

/// A tick of any queue leaves a well-formed spirit well formed.
pub proof fn lemma_tick_keeps_well_formed(effects: Seq<CombatEffect>, spirit: Spirit)
    ensures
        spirit.well_formed() ==> tick_spirit(effects, spirit).well_formed(),
        tick_spirit(effects, spirit).max_health == spirit.max_health,
    decreases effects.len(),
{
    if effects.len() > 0 {
        lemma_tick_keeps_well_formed(effects.drop_last(), spirit);
        if spirit.well_formed() {
            lemma_effect_keeps_well_formed(effects.last(), tick_spirit(effects.drop_last(), spirit));
        }
    }
}

/// The queue and the spirit after a number of ticks.
pub open spec fn after_ticks(effects: Seq<CombatEffect>, spirit: Spirit, ticks: nat) -> (
    Seq<CombatEffect>,
    Spirit,
)
    decreases ticks,
{
    if ticks == 0 {
        (effects, spirit)
    } else {
        let (queue, target) = after_ticks(effects, spirit, (ticks - 1) as nat);
        (tick_queue(queue, target), tick_spirit(queue, target))
    }
}

/// Whatever is queued and however often it ticks, a well-formed spirit stays
/// well formed: its health never leaves the range from zero to its maximum,
/// and the maximum does not move.
pub proof fn lemma_health_stays_in_bounds(effects: Seq<CombatEffect>, spirit: Spirit, ticks: nat)
    requires
        spirit.well_formed(),
    ensures
        after_ticks(effects, spirit, ticks).1.well_formed(),
        0 <= after_ticks(effects, spirit, ticks).1.health <= spirit.max_health,
        after_ticks(effects, spirit, ticks).1.max_health == spirit.max_health,
    decreases ticks,
{
    if ticks > 0 {
        lemma_health_stays_in_bounds(effects, spirit, (ticks - 1) as nat);
        let (queue, target) = after_ticks(effects, spirit, (ticks - 1) as nat);
        lemma_tick_keeps_well_formed(queue, target);
    }
}

/// The smallest of three numbers.
pub open spec fn least(a: int, b: int, c: int) -> int {
    if a <= b && a <= c {
        a
    } else if b <= c {
        b
    } else {
        c
    }
}

/// Damage alone in a queue takes one point of health per tick until it has
/// run out or the health is gone, whichever comes first, and nothing
/// besides. It stays queued while units and health are left, and leaves the
/// queue with the first tick that finds no health.
pub proof fn lemma_damage_stops_at_zero(amount: u32, spirit: Spirit, ticks: nat)
    requires
        amount >= 1,
    ensures
        after_ticks(seq![CombatEffect::Damage(amount)], spirit, ticks).1 == (Spirit {
            health: (spirit.health - least(ticks as int, amount as int, spirit.health as int)) as u32,
            ..spirit
        }),
        after_ticks(seq![CombatEffect::Damage(amount)], spirit, ticks).0 == if ticks < amount && ticks
            <= spirit.health {
            seq![CombatEffect::Damage((amount - ticks) as u32)]
        } else {
            Seq::<CombatEffect>::empty()
        },
    decreases ticks,
{
    let start = seq![CombatEffect::Damage(amount)];
    if ticks > 0 {
        lemma_damage_stops_at_zero(amount, spirit, (ticks - 1) as nat);
        let (queue, target) = after_ticks(start, spirit, (ticks - 1) as nat);
        if queue.len() > 0 {
            assert(queue.drop_last() =~= Seq::<CombatEffect>::empty());
            assert(tick_spirit(queue.drop_last(), target) == target);
            assert(tick_queue(queue.drop_last(), target) =~= Seq::<CombatEffect>::empty());
            assert(tick_queue(queue, target) =~= if ticks < amount && ticks <= spirit.health {
                seq![CombatEffect::Damage((amount - ticks) as u32)]
            } else {
                Seq::<CombatEffect>::empty()
            });
        }
    }
}

/// The most units any effect of a queue has left.
pub open spec fn longest(effects: Seq<CombatEffect>) -> nat
    decreases effects.len(),
{
    if effects.len() == 0 {
        0
    } else {
        let earlier = longest(effects.drop_last());
        if earlier >= effects.last().remaining() {
            earlier
        } else {
            effects.last().remaining() as nat
        }
    }
}

/// What a tick leaves queued has at least one unit left and is shorter than
/// what was queued before.
pub proof fn lemma_tick_shortens(effects: Seq<CombatEffect>, spirit: Spirit)
    ensures
        tick_queue(effects, spirit).len() > 0 ==> 1 <= longest(tick_queue(effects, spirit))
            < longest(effects),
    decreases effects.len(),
{
    if effects.len() > 0 {
        lemma_tick_shortens(effects.drop_last(), spirit);
        let earlier = tick_queue(effects.drop_last(), spirit);
        assert(longest(earlier) <= longest(effects.drop_last()));
        match effects.last().leftover(tick_spirit(effects.drop_last(), spirit)) {
            Some(effect) => {
                let left = earlier.push(effect);
                assert(left.drop_last() =~= earlier);
                assert(left.last() == effect);
                assert(1 <= effect.remaining() < effects.last().remaining());
            },
            None => {},
        }
    }
}

/// The queue after a number of ticks is shorter by as much as ticks have
/// passed, for as long as anything is queued.
pub proof fn lemma_ticks_shorten(effects: Seq<CombatEffect>, spirit: Spirit, ticks: nat)
    ensures
        after_ticks(effects, spirit, ticks).0.len() > 0 ==> longest(
            after_ticks(effects, spirit, ticks).0,
        ) + ticks <= longest(effects),
        after_ticks(effects, spirit, ticks).0.len() > 0 && ticks > 0 ==> longest(
            after_ticks(effects, spirit, ticks).0,
        ) >= 1,
    decreases ticks,
{
    if ticks > 0 {
        lemma_ticks_shorten(effects, spirit, (ticks - 1) as nat);
        let (queue, target) = after_ticks(effects, spirit, (ticks - 1) as nat);
        lemma_tick_shortens(queue, target);
    }
}

/// Every queue drains: once as many ticks have passed as its longest effect
/// has units, and one at least, nothing is queued any more.
pub proof fn lemma_queue_drains(effects: Seq<CombatEffect>, spirit: Spirit, ticks: nat)
    requires
        ticks >= 1,
        ticks >= longest(effects),
    ensures
        after_ticks(effects, spirit, ticks).0.len() == 0,
{
    lemma_ticks_shorten(effects, spirit, ticks);
}

} // verus!

//! The passage of time in a battle: every active effect queue counts down
//! its tick window and, when the window has passed, applies one unit of each
//! of its effects.

use vstd::prelude::*;
use crate::battle::{any_queue_active, Battle, BattleState, CombatantView};
use crate::effects::{tick_queue, tick_spirit, TICK_WINDOW};

verus! {

impl CombatantView {
    /// Whether `delta` nanoseconds bring a tick about: something is queued
    /// and the time outlasts the window.
    pub open spec fn tick_due(self, delta: u64) -> bool {
        self.effects.len() > 0 && delta > self.duration
    }

    /// The combatant after `delta` nanoseconds. Without queued effects
    /// nothing happens; otherwise the window runs down, and when it has
    /// passed, every queued effect applies one unit and the next window
    /// starts.
    pub open spec fn ticked(self, delta: u64) -> CombatantView {
        if self.effects.len() == 0 {
            self
        } else if delta > self.duration {
            CombatantView {
                spirit: tick_spirit(self.effects, self.spirit),
                effects: tick_queue(self.effects, self.spirit),
                duration: TICK_WINDOW,
                ..self
            }
        } else {
            CombatantView { duration: (self.duration - delta) as u64, ..self }
        }
    }
}

/// The line-up after `delta` nanoseconds.
pub open spec fn after_time(combatants: Seq<CombatantView>, delta: u64) -> Seq<CombatantView> {
    Seq::new(combatants.len(), |i: int| combatants[i].ticked(delta))
}

/// Whether `delta` nanoseconds bring a tick about for any combatant.
pub open spec fn any_tick_due(combatants: Seq<CombatantView>, delta: u64) -> bool {
    exists|i: int| 0 <= i < combatants.len() && (#[trigger] combatants[i]).tick_due(delta)
}

/// Drains the effect queues as time passes.
pub struct TickEffects;

impl TickEffects {
    /// Lets `delta` nanoseconds pass for every combatant and records whether
    /// effects are still queued afterwards. Returns whether any tick was
    /// applied.
    pub fn run(&mut self, battle: &mut Battle, delta: u64) -> (fired: bool)
        requires
            old(battle).well_formed(),
        ensures
            final(battle).well_formed(),
            final(battle).line_up() == after_time(old(battle).line_up(), delta),
            final(battle).state == (BattleState {
                animating: any_queue_active(final(battle).line_up()),
                ..old(battle).state
            }),
            fired == any_tick_due(old(battle).line_up(), delta),
    {
        let ghost before = battle.line_up();
        let mut fired = false;
        let mut animating = false;
        let mut i: usize = 0;
        while i < battle.combatants.len()
            invariant
                i <= battle.combatants@.len(),
                battle.combatants@.len() == before.len(),
                battle.state == old(battle).state,
                fired == any_tick_due(before.take(i as int), delta),
                animating == any_queue_active(after_time(before, delta).take(i as int)),
                forall|j: int|
                    0 <= j < i ==> (#[trigger] battle.combatants@[j])@ == before[j].ticked(delta),
                forall|j: int|
                    i <= j < before.len() ==> (#[trigger] battle.combatants@[j])@ == before[j],
                forall|j: int|
                    0 <= j < before.len() ==> (#[trigger] battle.combatants@[j]).spirit.well_formed(),
            decreases battle.combatants@.len() - i,
        {
            let ghost seen = before.take(i as int);
            let ghost settled = after_time(before, delta).take(i as int);
            let combatant = &mut battle.combatants[i];
            if combatant.effects.active() {
                if combatant.effects.update(delta) {
                    combatant.effects.apply_tick(&mut combatant.spirit);
                    fired = true;
                }
            }
            if combatant.effects.active() {
                animating = true;
            }
            proof {
                // A tick due, or a queue left, among the first `i` combatants is
                // one among the first `i + 1`; one among the first `i + 1` that
                // is not the last of them is one among the first `i`.
                let now = before.take(i + 1);
                let next = after_time(before, delta).take(i + 1);
                assert(now[i as int] == before[i as int]);
                assert(next[i as int] == before[i as int].ticked(delta));
                assert forall|j: int| 0 <= j < i implies seen[j] == #[trigger] now[j] by {}
                assert forall|j: int| 0 <= j < i implies settled[j] == #[trigger] next[j] by {}
                if any_tick_due(seen, delta) {
                    let j = choose|j: int| 0 <= j < seen.len() && (#[trigger] seen[j]).tick_due(delta);
                    assert(now[j].tick_due(delta));
                }
                if any_queue_active(settled) {
                    let j = choose|j: int|
                        0 <= j < settled.len() && (#[trigger] settled[j]).effects.len() > 0;
                    assert(next[j].effects.len() > 0);
                }
                if any_tick_due(now, delta) && !before[i as int].tick_due(delta) {
                    let j = choose|j: int| 0 <= j < now.len() && (#[trigger] now[j]).tick_due(delta);
                    assert(seen[j].tick_due(delta));
                }
                if any_queue_active(next) && before[i as int].ticked(delta).effects.len() == 0 {
                    let j = choose|j: int|
                        0 <= j < next.len() && (#[trigger] next[j]).effects.len() > 0;
                    assert(settled[j].effects.len() > 0);
                }
            }
            i = i + 1;
        }
        battle.state.set_animating(animating);
        proof {
            assert(before.take(i as int) =~= before);
            assert(after_time(before, delta).take(i as int) =~= after_time(before, delta));
            assert(battle.line_up() =~= after_time(before, delta));
        }
        fired
    }
}

} // verus!

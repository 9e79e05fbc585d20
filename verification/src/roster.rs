//! The player's roster and the fusion of like spirits into a stronger one.

use vstd::prelude::*;
use crate::element::{can_upgrade, required_spirits, SpiritType, MAX_LEVEL};
use crate::spirit::{check_all, next_spirit, Spirit};

verus! {

/// The roster holds at most this many spirits.
pub const ROSTER_CAPACITY: usize = 25;

/// The player: the spirits owned, in roster order.
#[derive(Clone, Debug)]
pub struct Player {
    pub spirits: Vec<Spirit>,
}

/// How many spirits of a roster have exactly this element and level.
pub open spec fn count_element(roster: Seq<Spirit>, element: SpiritType) -> nat
    decreases roster.len(),
{
    if roster.len() == 0 {
        0
    } else {
        count_element(roster.drop_last(), element) + if roster.last().element == element {
            1nat
        } else {
            0nat
        }
    }
}

/// The roster with only the first `keep` spirits of the element left in: a
/// spirit goes when it has the element and `keep` or more of them stand
/// before it. All others stay, in order.
pub open spec fn keep_first(roster: Seq<Spirit>, element: SpiritType, keep: nat) -> Seq<Spirit>
    decreases roster.len(),
{
    if roster.len() == 0 {
        roster
    } else {
        let earlier = keep_first(roster.drop_last(), element, keep);
        if roster.last().element == element && count_element(roster.drop_last(), element) >= keep {
            earlier
        } else {
            earlier.push(roster.last())
        }
    }
}

/// Whether the spirit at `index` can fuse: it exists, is below the highest
/// level, and the roster holds as many of its element and level as the
/// fusion consumes.
pub open spec fn can_fuse(roster: Seq<Spirit>, index: int) -> bool {
    &&& 0 <= index < roster.len()
    &&& roster[index].element.spec_level() < MAX_LEVEL
    &&& count_element(roster, roster[index].element) >= roster[index].element.spec_required()
}

/// The roster after the spirit at `index` has fused: the evolved spirit in
/// front, then the old roster without the last of its kind that the fusion
/// consumed.
pub open spec fn fused_roster(roster: Seq<Spirit>, index: int) -> Seq<Spirit> {
    let element = roster[index].element;
    let keep = (count_element(roster, element) - element.spec_required()) as nat;
    seq![roster[index].evolved()] + keep_first(roster, element, keep)
}

impl Player {
    /// Every spirit of the roster is well formed.
    pub open spec fn well_formed(self) -> bool {
        forall|i: int| 0 <= i < self.spirits@.len() ==> (#[trigger] self.spirits@[i]).well_formed()
    }

    /// Whether the roster is well formed.
    pub fn check(&self) -> (ok: bool)
        ensures
            ok == self.well_formed(),
    {
        check_all(&self.spirits)
    }
}

/// Counts the spirits of the roster with exactly this element and level.
pub fn count_matching(roster: &Vec<Spirit>, element: &SpiritType) -> (count: usize)
    ensures
        count == count_element(roster@, *element),
        count <= roster.len(),
{
    let mut count: usize = 0;
    let mut i: usize = 0;
    while i < roster.len()
        invariant
            i <= roster.len(),
            count <= i,
            count == count_element(roster@.take(i as int), *element),
        decreases roster.len() - i,
    {
        proof {
            assert(roster@.take(i + 1).drop_last() =~= roster@.take(i as int));
        }
        if roster[i].element == *element {
            count = count + 1;
        }
        i = i + 1;
    }
    proof {
        assert(roster@.take(i as int) =~= roster@);
    }
    count
}

/// Fuses the spirit at `index` with others of its element and level, if the
/// roster holds enough of them. Returns whether it did.
pub fn combine_spirits(player: &mut Player, index: usize) -> (fused: bool)
    requires
        old(player).well_formed(),
        can_fuse(old(player).spirits@, index as int) ==> old(player).spirits@[index as int].max_health
            * 4 <= u32::MAX,
    ensures
        fused == can_fuse(old(player).spirits@, index as int),
        fused ==> final(player).spirits@ == fused_roster(old(player).spirits@, index as int),
        !fused ==> final(player).spirits@ == old(player).spirits@,
        final(player).well_formed(),
{
    if index >= player.spirits.len() {
        return false;
    }
    let element = player.spirits[index].element;
    if !can_upgrade(&element) {
        return false;
    }
    let used = required_spirits(&element) as usize;
    let present = count_matching(&player.spirits, &element);
    if present < used {
        return false;
    }
    let keep = present - used;
    let ghost roster = player.spirits@;
    let mut next: Vec<Spirit> = Vec::new();
    next.push(next_spirit(player.spirits[index].duplicate()));
    let mut seen: usize = 0;
    let mut i: usize = 0;
    while i < player.spirits.len()
        invariant
            i <= player.spirits.len(),
            player.spirits@ == roster,
            seen == count_element(roster.take(i as int), element),
            seen <= i,
            next@ == seq![roster[index as int].evolved()] + keep_first(
                roster.take(i as int),
                element,
                keep as nat,
            ),
            forall|k: int| 0 <= k < next@.len() ==> (#[trigger] next@[k]).well_formed(),
            forall|k: int| 0 <= k < roster.len() ==> (#[trigger] roster[k]).well_formed(),
        decreases player.spirits.len() - i,
    {
        proof {
            assert(roster.take(i + 1).drop_last() =~= roster.take(i as int));
        }
        if player.spirits[i].element == element {
            if seen < keep {
                next.push(player.spirits[i].duplicate());
            }
            seen = seen + 1;
        } else {
            next.push(player.spirits[i].duplicate());
        }
        i = i + 1;
    }
    proof {
        assert(roster.take(i as int) =~= roster);
    }
    player.spirits = next;
    true
}

/// Exactly the spirits that `keep_first` lets go are missing from its result:
/// it is shorter by the number of the element's spirits beyond the first
/// `keep`, and holds the first `keep` of them at most.
pub proof fn lemma_keep_first_counts(roster: Seq<Spirit>, element: SpiritType, keep: nat)
    ensures
        count_element(keep_first(roster, element, keep), element) == if count_element(
            roster,
            element,
        ) <= keep {
            count_element(roster, element)
        } else {
            keep
        },
        keep_first(roster, element, keep).len() + count_element(roster, element) == roster.len()
            + count_element(keep_first(roster, element, keep), element),
        count_element(roster, element) <= roster.len(),
    decreases roster.len(),
{
    if roster.len() > 0 {
        lemma_keep_first_counts(roster.drop_last(), element, keep);
        let earlier = keep_first(roster.drop_last(), element, keep);
        if !(roster.last().element == element && count_element(roster.drop_last(), element)
            >= keep) {
            assert(earlier.push(roster.last()).drop_last() =~= earlier);
        }
    }
}

/// A spirit put in front adds to the count of its own element and level,
/// and to no other.
pub proof fn lemma_count_after_front(roster: Seq<Spirit>, front: Spirit, element: SpiritType)
    ensures
        count_element(seq![front] + roster, element) == count_element(roster, element) + if front.element
            == element {
            1nat
        } else {
            0nat
        },
    decreases roster.len(),
{
    let whole = seq![front] + roster;
    if roster.len() == 0 {
        assert(whole.drop_last() =~= Seq::<Spirit>::empty());
        assert(count_element(whole.drop_last(), element) == 0);
    } else {
        lemma_count_after_front(roster.drop_last(), front, element);
        assert(whole.drop_last() =~= seq![front] + roster.drop_last());
    }
}

/// A fusion removes exactly as many spirits of the chosen element and level
/// as it requires and puts one spirit in front that is one level higher,
/// with four times the maximum health, fully healed, at resting defense, and
/// otherwise like the chosen one. With fewer spirits than required there is
/// no fusion.
pub proof fn lemma_fusion_consumes_required(roster: Seq<Spirit>, index: int)
    requires
        0 <= index < roster.len(),
        roster[index].element.well_formed(),
    ensures
        can_fuse(roster, index) ==> {
            let element = roster[index].element;
            let after = fused_roster(roster, index);
            &&& after.len() == roster.len() - element.spec_required() + 1
            &&& count_element(after, element) == count_element(roster, element)
                - element.spec_required()
            &&& after[0].element == element.at_level((element.spec_level() + 1) as u32)
            &&& after[0].max_health == (roster[index].max_health * 4) as u32
            &&& after[0].health == after[0].max_health
            &&& after[0].defense == roster[index].base_defense
            &&& after[0].attack == roster[index].attack
            &&& after[0].stamina == roster[index].stamina
            &&& after[0].moves == roster[index].moves
        },
        count_element(roster, roster[index].element) < roster[index].element.spec_required()
            ==> !can_fuse(roster, index),
{
    if can_fuse(roster, index) {
        let element = roster[index].element;
        let keep = (count_element(roster, element) - element.spec_required()) as nat;
        lemma_keep_first_counts(roster, element, keep);
        lemma_count_after_front(keep_first(roster, element, keep), roster[index].evolved(), element);
    }
}

} // verus!

//! The explicit mapping from collider to player state that the contact hook
//! reads and that spawning and despawning keep up to date.

use vstd::prelude::*;
use crate::player::{Player, PlayerState};

verus! {

/// One registered player: the collider it is attached to and its state.
#[derive(Clone, Copy, Debug)]
struct Slot {
    collider: u64,
    player: Player,
}

/// No collider occurs in two slots.
spec fn distinct(slots: Seq<Slot>) -> bool {
    forall|i: int, j: int|
        0 <= i < j < slots.len() ==> (#[trigger] slots[i]).collider != (#[trigger] slots[j]).collider
}

/// Some slot holds `collider`.
spec fn holds(slots: Seq<Slot>, collider: u64) -> bool {
    exists|i: int| 0 <= i < slots.len() && (#[trigger] slots[i]).collider == collider
}

/// The position of the slot that holds `collider`.
spec fn position(slots: Seq<Slot>, collider: u64) -> int {
    choose|i: int| 0 <= i < slots.len() && (#[trigger] slots[i]).collider == collider
}

/// The slots as a map from collider to state.
spec fn as_map(slots: Seq<Slot>) -> Map<u64, PlayerState> {
    Map::new(
        |collider: u64| holds(slots, collider),
        |collider: u64| slots[position(slots, collider)].player@,
    )
}

/// A slot is found in the map under its collider, with its state.
proof fn lemma_slot_in_map(slots: Seq<Slot>, i: int)
    requires
        distinct(slots),
        0 <= i < slots.len(),
    ensures
        as_map(slots).contains_key(slots[i].collider),
        as_map(slots)[slots[i].collider] == slots[i].player@,
        position(slots, slots[i].collider) == i,
{
    let c = slots[i].collider;
    assert(holds(slots, c));
    let p = position(slots, c);
    assert(0 <= p < slots.len() && slots[p].collider == c);
    if p < i {
        assert(slots[p].collider != slots[i].collider);
    } else if i < p {
        assert(slots[i].collider != slots[p].collider);
    }
}

/// Appending a slot for a new collider inserts it into the map.
proof fn lemma_push(slots: Seq<Slot>, slot: Slot)
    requires
        distinct(slots),
        !holds(slots, slot.collider),
    ensures
        distinct(slots.push(slot)),
        as_map(slots.push(slot)) == as_map(slots).insert(slot.collider, slot.player@),
{
    let grown = slots.push(slot);
    assert forall|i: int, j: int| 0 <= i < j < grown.len() implies (#[trigger] grown[i]).collider
        != (#[trigger] grown[j]).collider by {
        if j == slots.len() {
            assert(slots[i].collider != slot.collider);
        } else {
            assert(slots[i].collider != slots[j].collider);
        }
    }
    assert forall|c: u64| as_map(grown).contains_key(c) <==> as_map(slots).insert(
        slot.collider,
        slot.player@,
    ).contains_key(c) by {
        if holds(grown, c) {
            let i = position(grown, c);
            if i < slots.len() {
                assert(slots[i].collider == c);
            }
        }
        if holds(slots, c) {
            let i = position(slots, c);
            assert(grown[i].collider == c);
        }
        if c == slot.collider {
            assert(grown[slots.len() as int].collider == c);
        }
    }
    assert forall|c: u64| as_map(grown).contains_key(c) implies as_map(grown)[c] == as_map(
        slots,
    ).insert(slot.collider, slot.player@)[c] by {
        let i = position(grown, c);
        lemma_slot_in_map(grown, i);
        if i < slots.len() {
            lemma_slot_in_map(slots, i);
        }
    }
    assert(as_map(grown) =~= as_map(slots).insert(slot.collider, slot.player@));
}

/// Replacing the state in a slot replaces it in the map.
proof fn lemma_update(slots: Seq<Slot>, i: int, player: Player)
    requires
        distinct(slots),
        0 <= i < slots.len(),
    ensures
        distinct(slots.update(i, Slot { collider: slots[i].collider, player })),
        as_map(slots.update(i, Slot { collider: slots[i].collider, player })) == as_map(
            slots,
        ).insert(slots[i].collider, player@),
{
    let collider = slots[i].collider;
    let changed = slots.update(i, Slot { collider, player });
    assert forall|a: int, b: int| 0 <= a < b < changed.len() implies (#[trigger] changed[a]).collider
        != (#[trigger] changed[b]).collider by {
        assert(slots[a].collider != slots[b].collider);
    }
    assert forall|c: u64| as_map(changed).contains_key(c) <==> as_map(slots).insert(
        collider,
        player@,
    ).contains_key(c) by {
        if holds(changed, c) {
            let k = position(changed, c);
            assert(slots[k].collider == c);
        }
        if holds(slots, c) {
            let k = position(slots, c);
            assert(changed[k].collider == c);
        }
        if c == collider {
            assert(changed[i].collider == c);
        }
    }
    assert forall|c: u64| as_map(changed).contains_key(c) implies as_map(changed)[c] == as_map(
        slots,
    ).insert(collider, player@)[c] by {
        let k = position(changed, c);
        lemma_slot_in_map(changed, k);
        lemma_slot_in_map(slots, k);
    }
    assert(as_map(changed) =~= as_map(slots).insert(collider, player@));
}

/// Taking a slot out removes its collider from the map.
proof fn lemma_remove(slots: Seq<Slot>, i: int)
    requires
        distinct(slots),
        0 <= i < slots.len(),
    ensures
        distinct(slots.remove(i)),
        as_map(slots.remove(i)) == as_map(slots).remove(slots[i].collider),
{
    let collider = slots[i].collider;
    let rest = slots.remove(i);
    assert forall|a: int, b: int| 0 <= a < b < rest.len() implies (#[trigger] rest[a]).collider != (
    #[trigger] rest[b]).collider by {
        let a0 = if a < i { a } else { a + 1 };
        let b0 = if b < i { b } else { b + 1 };
        assert(slots[a0].collider != slots[b0].collider);
    }
    assert forall|c: u64| as_map(rest).contains_key(c) <==> as_map(slots).remove(
        collider,
    ).contains_key(c) by {
        if holds(rest, c) {
            let k = position(rest, c);
            let k0 = if k < i { k } else { k + 1 };
            assert(slots[k0].collider == c);
            if k0 < i {
                assert(slots[k0].collider != slots[i].collider);
            } else {
                assert(slots[i].collider != slots[k0].collider);
            }
        }
        if holds(slots, c) && c != collider {
            let k = position(slots, c);
            let k1 = if k < i { k } else { k - 1 };
            assert(rest[k1].collider == c);
        }
    }
    assert forall|c: u64| as_map(rest).contains_key(c) implies as_map(rest)[c] == as_map(
        slots,
    ).remove(collider)[c] by {
        let k = position(rest, c);
        let k0 = if k < i { k } else { k + 1 };
        lemma_slot_in_map(rest, k);
        lemma_slot_in_map(slots, k0);
    }
    assert(as_map(rest) =~= as_map(slots).remove(collider));
}

/// The players of the simulation, each found by the collider it is attached
/// to. A collider is registered at most once.
pub struct PlayerRegistry {
    slots: Vec<Slot>,
}

impl View for PlayerRegistry {
    type V = Map<u64, PlayerState>;

    closed spec fn view(&self) -> Map<u64, PlayerState> {
        as_map(self.slots@)
    }
}

impl PlayerRegistry {
    #[verifier::type_invariant]
    closed spec fn inv(self) -> bool {
        distinct(self.slots@)
    }

    /// A registry without players.
    pub fn new() -> (registry: PlayerRegistry)
        ensures
            registry@ == Map::<u64, PlayerState>::empty(),
    {
        let registry = PlayerRegistry { slots: Vec::new() };
        assert(registry@ =~= Map::<u64, PlayerState>::empty());
        registry
    }

    /// The position of the slot that holds `collider`, if one does.
    fn find(&self, collider: u64) -> (found: Option<usize>)
        ensures
            match found {
                Some(i) => i < self.slots.len() && self.slots[i as int].collider == collider,
                None => !holds(self.slots@, collider),
            },
    {
        let mut i: usize = 0;
        while i < self.slots.len()
            invariant
                i <= self.slots.len(),
                forall|k: int| 0 <= k < i ==> (#[trigger] self.slots[k]).collider != collider,
            decreases self.slots.len() - i,
        {
            if self.slots[i].collider == collider {
                return Some(i);
            }
            i += 1;
        }
        None
    }

    /// The state of the player attached to `collider`, if there is one.
    pub fn get(&self, collider: u64) -> (player: Option<Player>)
        ensures
            match player {
                Some(p) => self@.contains_key(collider) && self@[collider] == p@,
                None => !self@.contains_key(collider),
            },
    {
        proof {
            use_type_invariant(self);
        }
        match self.find(collider) {
            Some(i) => {
                proof {
                    lemma_slot_in_map(self.slots@, i as int);
                }
                Some(self.slots[i].player)
            },
            None => None,
        }
    }

    /// Registers `player` under `collider`, in place of the player that was
    /// registered there, if any.
    pub fn insert(&mut self, collider: u64, player: Player)
        ensures
            final(self)@ == old(self)@.insert(collider, player@),
    {
        proof {
            use_type_invariant(&*self);
        }
        let found = self.find(collider);
        let mut slots: Vec<Slot> = Vec::new();
        std::mem::swap(&mut slots, &mut self.slots);
        match found {
            Some(i) => {
                proof {
                    lemma_update(slots@, i as int, player);
                }
                slots.set(i, Slot { collider, player });
            },
            None => {
                proof {
                    lemma_push(slots@, Slot { collider, player });
                }
                slots.push(Slot { collider, player });
            },
        }
        self.slots = slots;
    }

    /// Forgets the player attached to `collider`, if there is one.
    pub fn remove(&mut self, collider: u64)
        ensures
            final(self)@ == old(self)@.remove(collider),
    {
        proof {
            use_type_invariant(&*self);
        }
        let found = self.find(collider);
        match found {
            Some(i) => {
                let mut slots: Vec<Slot> = Vec::new();
                std::mem::swap(&mut slots, &mut self.slots);
                proof {
                    lemma_remove(slots@, i as int);
                }
                slots.remove(i);
                self.slots = slots;
            },
            None => {
                assert(self@ =~= old(self)@.remove(collider));
            },
        }
    }

    /// Overwrites the state of every registered player with `player`.
    pub fn set_all(&mut self, player: Player)
        ensures
            final(self)@.dom() == old(self)@.dom(),
            forall|collider: u64| #[trigger]
                final(self)@.contains_key(collider) ==> final(self)@[collider] == player@,
    {
        proof {
            use_type_invariant(&*self);
        }
        let mut slots: Vec<Slot> = Vec::new();
        std::mem::swap(&mut slots, &mut self.slots);
        let ghost before = slots@;
        let mut i: usize = 0;
        while i < slots.len()
            invariant
                i <= slots.len(),
                slots.len() == before.len(),
                distinct(before),
                distinct(slots@),
                forall|k: int| 0 <= k < slots.len() ==> (#[trigger] slots[k]).collider == before[k].collider,
                forall|k: int| 0 <= k < i ==> (#[trigger] slots[k]).player == player,
            decreases slots.len() - i,
        {
            let collider: u64 = slots[i].collider;
            proof {
                lemma_update(slots@, i as int, player);
            }
            slots.set(i, Slot { collider, player });
            i += 1;
        }
        proof {
            assert forall|c: u64| as_map(slots@).contains_key(c) <==> as_map(before).contains_key(
                c,
            ) by {
                if holds(slots@, c) {
                    let k = position(slots@, c);
                    assert(before[k].collider == c);
                }
                if holds(before, c) {
                    let k = position(before, c);
                    assert(slots[k].collider == c);
                }
            }
            assert(as_map(slots@).dom() =~= as_map(before).dom());
            assert forall|c: u64| #[trigger] as_map(slots@).contains_key(c) implies as_map(
                slots@,
            )[c] == player@ by {
                let k = position(slots@, c);
                lemma_slot_in_map(slots@, k);
            }
        }
        self.slots = slots;
    }
}

} // verus!

//! Starting loadouts.

use vstd::prelude::*;

use crate::inventory::items::{Hotbar, HotbarView, ItemId, ItemStack};
use crate::protocol::GameMode;

verus! {

/// The stacks a player starts a match with, by slot: training gives a sword, a
/// bow, five health packs and five scrap; the standard modes a sword and a bow;
/// battle royale nothing.
pub open spec fn loadout(mode: GameMode) -> Seq<(u8, ItemStack)> {
    match mode {
        GameMode::Training => seq![
            (0u8, ItemStack { item_id: ItemId(1), quantity: 1 }),
            (1u8, ItemStack { item_id: ItemId(4), quantity: 1 }),
            (2u8, ItemStack { item_id: ItemId(2), quantity: 5 }),
            (3u8, ItemStack { item_id: ItemId(5), quantity: 5 }),
        ],
        GameMode::Tdm | GameMode::Ffa | GameMode::Ctf => seq![
            (0u8, ItemStack { item_id: ItemId(1), quantity: 1 }),
            (1u8, ItemStack { item_id: ItemId(4), quantity: 1 }),
        ],
        GameMode::BrLite => seq![],
    }
}

/// The slots after each stack of `entries` is put in its slot, in order
/// (slots past the last are ignored).
pub open spec fn placed(slots: Seq<Option<ItemStack>>, entries: Seq<(u8, ItemStack)>) -> Seq<Option<ItemStack>>
    decreases entries.len(),
{
    if entries.len() == 0 {
        slots
    } else {
        let s = placed(slots, entries.drop_last());
        let (slot, st) = entries.last();
        if slot < s.len() {
            s.update(slot as int, Some(st))
        } else {
            s
        }
    }
}

/// The slots once cleared: every slot a `u8` can name is emptied.
pub open spec fn cleared(slots: Seq<Option<ItemStack>>) -> Seq<Option<ItemStack>> {
    Seq::new(slots.len(), |i: int| if i < 256 { None } else { slots[i] })
}

/// Get the starting loadout for a game mode, as (slot, stack) pairs.
pub fn get_starting_loadout(mode: GameMode) -> (v: Vec<(u8, ItemStack)>)
    ensures
        v@ == loadout(mode),
{
    let mut v: Vec<(u8, ItemStack)> = Vec::new();
    match mode {
        GameMode::Training => {
            v.push((0, ItemStack::single(ItemId::sword())));
            v.push((1, ItemStack::single(ItemId::bow())));
            v.push((2, ItemStack::new(ItemId::health_pack(), 5)));
            v.push((3, ItemStack::new(ItemId::scrap(), 5)));
        },
        GameMode::Tdm | GameMode::Ffa | GameMode::Ctf => {
            v.push((0, ItemStack::single(ItemId::sword())));
            v.push((1, ItemStack::single(ItemId::bow())));
        },
        GameMode::BrLite => {},
    }
    assert(v@ =~= loadout(mode));
    v
}

/// Apply a starting loadout to a hotbar based on game mode: the hotbar is
/// cleared, then each stack of the loadout is put in its slot.
pub fn give_starting_loadout(hotbar: &mut Hotbar, mode: GameMode)
    ensures
        final(hotbar)@ == (HotbarView { slots: placed(cleared(old(hotbar)@.slots), loadout(mode)), ..old(hotbar)@ }),
{
    let ghost s0 = hotbar@.slots;
    let size = hotbar.size();
    let limit: usize = if size < 256 {
        size
    } else {
        256
    };
    let mut slot: usize = 0;
    while slot < limit
        invariant
            limit <= 256,
            limit <= s0.len(),
            limit == s0.len() || limit == 256,
            slot <= limit,
            hotbar@.active == old(hotbar)@.active,
            hotbar@.slots == Seq::new(s0.len(), |i: int| if i < slot { None } else { s0[i] }),
        decreases limit - slot,
    {
        hotbar.set(slot as u8, None);
        slot = slot + 1;
        assert(hotbar@.slots =~= Seq::new(s0.len(), |i: int| if i < slot { None } else { s0[i] }));
    }
    assert(hotbar@.slots =~= cleared(s0));
    let stacks = get_starting_loadout(mode);
    let ghost c = hotbar@.slots;
    let mut k: usize = 0;
    while k < stacks.len()
        invariant
            k <= stacks@.len(),
            stacks@ == loadout(mode),
            hotbar@.active == old(hotbar)@.active,
            hotbar@.slots == placed(c, stacks@.take(k as int)),
        decreases stacks@.len() - k,
    {
        assert(stacks@.take(k + 1).drop_last() =~= stacks@.take(k as int));
        let (s, st) = stacks[k];
        hotbar.set(s, Some(st));
        k = k + 1;
    }
    assert(stacks@.take(stacks@.len() as int) =~= stacks@);
}

} // verus!

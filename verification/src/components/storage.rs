//! Item slots of an inventory module.
//!
//! Items are kept in stacks of one kind each. Adding fills the stacks that are
//! open, from the first on, and then opens new ones while slots are free.
//! Removing takes from the stacks of the kind, from the first on, and gives up
//! the slots that it empties.

use crate::text::text_equals;
use vstd::prelude::*;

verus! {

/// One stack of identical items.
#[derive(Clone, Debug)]
pub struct ItemSlot {
    pub item_id: String,
    pub count: i32,
    pub max_stack_size: i32,
}

/// The slots of an inventory, in the order in which they were opened.
#[derive(Debug)]
pub struct StorageComponent {
    pub item_slots: Vec<ItemSlot>,
    pub max_slots: i32,
}

/// The smaller of two integers.
pub open spec fn least(a: int, b: int) -> int {
    if a <= b {
        a
    } else {
        b
    }
}

/// An amount asked for, taken as nothing where it is negative.
pub open spec fn at_least_zero(amount: int) -> int {
    if amount >= 0 {
        amount
    } else {
        0
    }
}

/// Every stack holds between nothing and its size.
pub open spec fn slots_wf(slots: Seq<ItemSlot>) -> bool {
    forall|i: int| 0 <= i < slots.len() ==> 0 <= (#[trigger] slots[i]).count <= slots[i].max_stack_size
}

/// Whether the stack holds `item` and has room for more.
pub open spec fn is_open_stack_of(slot: ItemSlot, item: Seq<char>) -> bool {
    slot.item_id@ == item && slot.count < slot.max_stack_size
}

/// The number of items of kind `item` in `slots`.
pub open spec fn item_total(slots: Seq<ItemSlot>, item: Seq<char>) -> int
    decreases slots.len(),
{
    if slots.len() == 0 {
        0
    } else {
        item_total(slots.drop_last(), item) + if slots.last().item_id@ == item {
            slots.last().count as int
        } else {
            0
        }
    }
}

/// What is left of `remaining` items of kind `item` once the open stacks of
/// `slots` have been filled with them.
pub open spec fn left_after_topping_up(slots: Seq<ItemSlot>, item: Seq<char>, remaining: int) -> int
    decreases slots.len(),
{
    if slots.len() == 0 {
        remaining
    } else {
        let before = left_after_topping_up(slots.drop_last(), item, remaining);
        if is_open_stack_of(slots.last(), item) {
            before - least(slots.last().max_stack_size - slots.last().count, before)
        } else {
            before
        }
    }
}

/// The stacks of `slots` once the open stacks of kind `item` have been filled
/// with `remaining` items, from the first on.
pub open spec fn topped_up(slots: Seq<ItemSlot>, item: Seq<char>, remaining: int) -> Seq<ItemSlot>
    decreases slots.len(),
{
    if slots.len() == 0 {
        slots
    } else {
        let before = left_after_topping_up(slots.drop_last(), item, remaining);
        let last = slots.last();
        topped_up(slots.drop_last(), item, remaining).push(
            if is_open_stack_of(last, item) {
                ItemSlot {
                    count: (last.count + least(last.max_stack_size - last.count, before)) as i32,
                    ..last
                }
            } else {
                last
            },
        )
    }
}

/// The number of new stacks that `remaining` items open where `free` slots are
/// free and a stack holds `max_stack_size`.
pub open spec fn stacks_opened(remaining: int, max_stack_size: int, free: int) -> int
    decreases at_least_zero(free),
{
    if remaining <= 0 || free <= 0 || max_stack_size <= 0 {
        0
    } else {
        1 + stacks_opened(remaining - least(remaining, max_stack_size), max_stack_size, free - 1)
    }
}

/// What is left of `remaining` items once they have opened the stacks they can.
pub open spec fn left_after_opening(remaining: int, max_stack_size: int, free: int) -> int
    decreases at_least_zero(free),
{
    if remaining <= 0 || free <= 0 || max_stack_size <= 0 {
        remaining
    } else {
        left_after_opening(remaining - least(remaining, max_stack_size), max_stack_size, free - 1)
    }
}

/// The stacks of `slots` followed by the stacks that `remaining` items of kind
/// `item` open.
pub open spec fn with_new_stacks(
    slots: Seq<ItemSlot>,
    item: String,
    remaining: int,
    max_stack_size: i32,
    free: int,
) -> Seq<ItemSlot>
    decreases at_least_zero(free),
{
    if remaining <= 0 || free <= 0 || max_stack_size <= 0 {
        slots
    } else {
        with_new_stacks(
            slots.push(
                ItemSlot {
                    item_id: item,
                    count: least(remaining, max_stack_size as int) as i32,
                    max_stack_size,
                },
            ),
            item,
            remaining - least(remaining, max_stack_size as int),
            max_stack_size,
            free - 1,
        )
    }
}

/// The stacks after `count` items of kind `item` have been added as far as they fit.
pub open spec fn after_adding(
    slots: Seq<ItemSlot>,
    max_slots: i32,
    item: String,
    count: i32,
    max_stack_size: i32,
) -> Seq<ItemSlot> {
    let left = left_after_topping_up(slots, item@, at_least_zero(count as int));
    with_new_stacks(
        topped_up(slots, item@, at_least_zero(count as int)),
        item,
        left,
        max_stack_size,
        max_slots - slots.len(),
    )
}

/// How many of `count` items of kind `item` fit.
pub open spec fn added_count(
    slots: Seq<ItemSlot>,
    max_slots: i32,
    item: Seq<char>,
    count: i32,
    max_stack_size: i32,
) -> int {
    at_least_zero(count as int) - left_after_opening(
        left_after_topping_up(slots, item, at_least_zero(count as int)),
        max_stack_size as int,
        max_slots - slots.len(),
    )
}

/// What is left to remove of `remaining` items of kind `item` once the stacks of
/// `slots` have given what they hold.
pub open spec fn left_after_taking(slots: Seq<ItemSlot>, item: Seq<char>, remaining: int) -> int
    decreases slots.len(),
{
    if slots.len() == 0 {
        remaining
    } else if slots.first().item_id@ == item {
        let given = least(slots.first().count as int, remaining);
        if remaining - given == 0 {
            0
        } else {
            left_after_taking(slots.drop_first(), item, remaining - given)
        }
    } else {
        left_after_taking(slots.drop_first(), item, remaining)
    }
}

/// The stacks of `slots` once `remaining` items of kind `item` have been taken
/// from them, from the first on. A stack that is emptied gives up its slot.
/// Nothing is looked at beyond the stack that gives the last item.
pub open spec fn taken_from(slots: Seq<ItemSlot>, item: Seq<char>, remaining: int) -> Seq<ItemSlot>
    decreases slots.len(),
{
    if slots.len() == 0 {
        slots
    } else if slots.first().item_id@ == item {
        let first = slots.first();
        let given = least(first.count as int, remaining);
        let rest = if remaining - given == 0 {
            slots.drop_first()
        } else {
            taken_from(slots.drop_first(), item, remaining - given)
        };
        if first.count - given == 0 {
            rest
        } else {
            seq![ItemSlot { count: (first.count - given) as i32, ..first }] + rest
        }
    } else {
        seq![slots.first()] + taken_from(slots.drop_first(), item, remaining)
    }
}

impl ItemSlot {
    /// A stack of `count` items, cut down to the stack size where it exceeds it.
    pub fn new(item_id: String, count: i32, max_stack_size: i32) -> (s: Self)
        ensures
            s == (ItemSlot {
                item_id,
                count: least(count as int, max_stack_size as int) as i32,
                max_stack_size,
            }),
    {
        ItemSlot {
            item_id,
            count: if count <= max_stack_size {
                count
            } else {
                max_stack_size
            },
            max_stack_size,
        }
    }

    /// Whether the stack has reached its size.
    pub fn is_full(&self) -> (r: bool)
        ensures
            r == (self.count >= self.max_stack_size),
    {
        self.count >= self.max_stack_size
    }

    /// How many more items the stack takes.
    pub fn remaining_space(&self) -> (n: i32)
        requires
            i32::MIN <= self.max_stack_size - self.count <= i32::MAX,
        ensures
            n == self.max_stack_size - self.count,
    {
        self.max_stack_size - self.count
    }
}

impl StorageComponent {
    /// The invariant: every stack holds between nothing and its size, and the
    /// number of stacks can be counted.
    pub open spec fn wf(&self) -> bool {
        &&& slots_wf(self.item_slots@)
        &&& self.item_slots@.len() <= i32::MAX
    }

    /// An inventory of `max_slots` slots, all of them free.
    pub fn new(max_slots: i32) -> (s: Self)
        ensures
            s.item_slots@ == Seq::<ItemSlot>::empty(),
            s.max_slots == max_slots,
            s.wf(),
    {
        StorageComponent { item_slots: Vec::new(), max_slots }
    }

    /// Whether a slot is free.
    pub fn has_space(&self) -> (r: bool)
        ensures
            r == (self.item_slots@.len() < self.max_slots),
    {
        self.max_slots > 0 && self.item_slots.len() < self.max_slots as usize
    }

    /// The number of slots that hold a stack.
    pub fn used_slots(&self) -> (n: i32)
        requires
            self.item_slots@.len() <= i32::MAX,
        ensures
            n == self.item_slots@.len(),
    {
        self.item_slots.len() as i32
    }

    /// The number of slots that are free; negative where more stacks are held
    /// than the inventory has slots.
    pub fn free_slots(&self) -> (n: i32)
        requires
            self.item_slots@.len() <= i32::MAX,
            i32::MIN <= self.max_slots - self.item_slots@.len(),
        ensures
            n == self.max_slots - self.item_slots@.len(),
    {
        self.max_slots - self.used_slots()
    }

    /// Where the first stack of kind `item_id` with room for more stands.
    pub fn find_item_slot(&self, item_id: &str) -> (r: Option<usize>)
        ensures
            match r {
                Some(i) => i < self.item_slots@.len() && is_open_stack_of(
                    self.item_slots@[i as int],
                    item_id@,
                ) && forall|k: int|
                    0 <= k < i ==> !is_open_stack_of(#[trigger] self.item_slots@[k], item_id@),
                None => forall|k: int|
                    0 <= k < self.item_slots@.len() ==> !is_open_stack_of(
                        #[trigger] self.item_slots@[k],
                        item_id@,
                    ),
            },
    {
        let n = self.item_slots.len();
        let mut i: usize = 0;
        while i < n
            invariant
                i <= n,
                n == self.item_slots@.len(),
                forall|k: int|
                    0 <= k < i ==> !is_open_stack_of(#[trigger] self.item_slots@[k], item_id@),
            decreases n - i,
        {
            let slot = &self.item_slots[i];
            if text_equals(slot.item_id.as_str(), item_id) && slot.count < slot.max_stack_size {
                return Some(i);
            }
            i += 1;
        }
        None
    }

    fn count_items(&self, item_id: &str) -> (total: i128)
        ensures
            total == item_total(self.item_slots@, item_id@),
    {
        let n = self.item_slots.len();
        let mut total: i128 = 0;
        let mut i: usize = 0;
        while i < n
            invariant
                i <= n,
                n == self.item_slots@.len(),
                total == item_total(self.item_slots@.take(i as int), item_id@),
                i * (i32::MIN as int) <= total <= i * (i32::MAX as int),
            decreases n - i,
        {
            proof {
                let upto = self.item_slots@.take(i as int + 1);
                assert(upto.drop_last() =~= self.item_slots@.take(i as int));
            }
            let slot = &self.item_slots[i];
            if text_equals(slot.item_id.as_str(), item_id) {
                total = total + slot.count as i128;
            }
            i += 1;
        }
        assert(self.item_slots@.take(n as int) =~= self.item_slots@);
        total
    }

    /// The number of items of kind `item_id`, where it fits the counter.
    pub fn get_item_count(&self, item_id: &str) -> (total: i32)
        requires
            i32::MIN <= item_total(self.item_slots@, item_id@) <= i32::MAX,
        ensures
            total == item_total(self.item_slots@, item_id@),
    {
        self.count_items(item_id) as i32
    }

    /// The number of items of kind `item_id`, or `None` where it does not fit
    /// the counter.
    pub fn checked_item_count(&self, item_id: &str) -> (total: Option<i32>)
        ensures
            total == if i32::MIN <= item_total(self.item_slots@, item_id@) <= i32::MAX {
                Some(item_total(self.item_slots@, item_id@) as i32)
            } else {
                None
            },
    {
        let wide = self.count_items(item_id);
        if wide >= i32::MIN as i128 && wide <= i32::MAX as i128 {
            Some(wide as i32)
        } else {
            None
        }
    }

    /// Whether at least `count` items of kind `item_id` are held.
    pub fn contains_item(&self, item_id: &str, count: i32) -> (r: bool)
        ensures
            r == (item_total(self.item_slots@, item_id@) >= count),
    {
        self.count_items(item_id) >= count as i128
    }

    /// Adds up to `count` items of kind `item_id`: first to the stacks of the
    /// kind that have room, then to new stacks of `max_stack_size` while slots
    /// are free. Returns how many were added. A count below one adds nothing,
    /// and a stack size below one opens no stack.
    pub fn try_add_item(&mut self, item_id: String, count: i32, max_stack_size: i32) -> (added: i32)
        requires
            old(self).wf(),
        ensures
            final(self).item_slots@ == after_adding(
                old(self).item_slots@,
                old(self).max_slots,
                item_id,
                count,
                max_stack_size,
            ),
            added == added_count(
                old(self).item_slots@,
                old(self).max_slots,
                item_id@,
                count,
                max_stack_size,
            ),
            0 <= added <= at_least_zero(count as int),
            final(self).max_slots == old(self).max_slots,
            final(self).wf(),
    {
        let start: i32 = if count > 0 {
            count
        } else {
            0
        };
        let mut remaining: i32 = start;
        let n = self.item_slots.len();
        let ghost before = self.item_slots@;
        let mut i: usize = 0;
        while i < n
            invariant
                i <= n,
                n == before.len(),
                n <= i32::MAX,
                self.item_slots@.len() == n,
                self.max_slots == old(self).max_slots,
                slots_wf(before),
                slots_wf(self.item_slots@),
                0 <= remaining <= start,
                remaining == left_after_topping_up(before.take(i as int), item_id@, start as int),
                self.item_slots@.take(i as int) == topped_up(
                    before.take(i as int),
                    item_id@,
                    start as int,
                ),
                forall|k: int| i <= k < n ==> #[trigger] self.item_slots@[k] == before[k],
            decreases n - i,
        {
            proof {
                let upto = before.take(i as int + 1);
                assert(upto.drop_last() =~= before.take(i as int));
            }
            let held: i32 = self.item_slots[i].count;
            let size: i32 = self.item_slots[i].max_stack_size;
            if text_equals(self.item_slots[i].item_id.as_str(), item_id.as_str()) && held < size {
                let room: i32 = size - held;
                let can_add: i32 = if room <= remaining {
                    room
                } else {
                    remaining
                };
                self.item_slots[i].count = held + can_add;
                remaining = remaining - can_add;
            }
            i += 1;
        }
        proof {
            assert(before.take(n as int) =~= before);
            assert(self.item_slots@.take(n as int) =~= self.item_slots@);
        }
        let ghost goal = after_adding(before, self.max_slots, item_id, count, max_stack_size);
        let ghost goal_left = left_after_opening(
            remaining as int,
            max_stack_size as int,
            self.max_slots - n,
        );
        while remaining > 0 && max_stack_size > 0 && self.has_space()
            invariant
                self.max_slots == old(self).max_slots,
                slots_wf(self.item_slots@),
                self.item_slots@.len() <= i32::MAX,
                0 <= remaining <= start,
                goal == with_new_stacks(
                    self.item_slots@,
                    item_id,
                    remaining as int,
                    max_stack_size,
                    self.max_slots - self.item_slots@.len(),
                ),
                goal_left == left_after_opening(
                    remaining as int,
                    max_stack_size as int,
                    self.max_slots - self.item_slots@.len(),
                ),
            decreases self.max_slots - self.item_slots@.len(),
        {
            let can_add: i32 = if remaining <= max_stack_size {
                remaining
            } else {
                max_stack_size
            };
            self.item_slots.push(
                ItemSlot { item_id: item_id.clone(), count: can_add, max_stack_size },
            );
            remaining = remaining - can_add;
        }
        start - remaining
    }

    /// Removes up to `count` items of kind `item_id`, from the first stack of
    /// the kind on, and gives up the slots that are emptied. Returns how many
    /// were removed. A count below one removes nothing.
    pub fn try_remove_item(&mut self, item_id: &str, count: i32) -> (removed: i32)
        requires
            old(self).wf(),
        ensures
            final(self).item_slots@ == taken_from(
                old(self).item_slots@,
                item_id@,
                at_least_zero(count as int),
            ),
            removed == at_least_zero(count as int) - left_after_taking(
                old(self).item_slots@,
                item_id@,
                at_least_zero(count as int),
            ),
            0 <= removed <= at_least_zero(count as int),
            final(self).max_slots == old(self).max_slots,
            final(self).wf(),
    {
        let start: i32 = if count > 0 {
            count
        } else {
            0
        };
        let mut remaining: i32 = start;
        let ghost goal = taken_from(self.item_slots@, item_id@, start as int);
        let ghost goal_left = left_after_taking(self.item_slots@, item_id@, start as int);
        let mut done = false;
        let mut i: usize = 0;
        proof {
            assert(self.item_slots@.skip(0) =~= self.item_slots@);
        }
        while !done && i < self.item_slots.len()
            invariant
                i <= self.item_slots@.len(),
                self.item_slots@.len() <= i32::MAX,
                self.max_slots == old(self).max_slots,
                slots_wf(self.item_slots@),
                0 <= remaining <= start,
                !done ==> goal == self.item_slots@.take(i as int) + taken_from(
                    self.item_slots@.skip(i as int),
                    item_id@,
                    remaining as int,
                ),
                !done ==> goal_left == left_after_taking(
                    self.item_slots@.skip(i as int),
                    item_id@,
                    remaining as int,
                ),
                done ==> goal == self.item_slots@ && goal_left == 0 && remaining == 0,
            decreases self.item_slots@.len() - i, if done { 0int } else { 1int },
        {
            let ghost slots = self.item_slots@;
            proof {
                let tail = slots.skip(i as int);
                assert(tail.drop_first() =~= slots.skip(i as int + 1));
            }
            if text_equals(self.item_slots[i].item_id.as_str(), item_id) {
                let held: i32 = self.item_slots[i].count;
                let given: i32 = if held <= remaining {
                    held
                } else {
                    remaining
                };
                remaining = remaining - given;
                if held - given == 0 {
                    self.item_slots.remove(i);
                    proof {
                        assert(self.item_slots@.skip(i as int) =~= slots.skip(i as int + 1));
                    }
                } else {
                    self.item_slots[i].count = held - given;
                    i += 1;
                }
                if remaining == 0 {
                    done = true;
                }
            } else {
                i += 1;
            }
        }
        start - remaining
    }

    /// Throws everything away.
    pub fn clear(&mut self)
        ensures
            final(self).item_slots@ == Seq::<ItemSlot>::empty(),
            final(self).max_slots == old(self).max_slots,
            final(self).wf(),
    {
        self.item_slots.clear();
    }
}

impl Default for StorageComponent {
    /// An inventory of nine slots.
    fn default() -> (s: Self)
        ensures
            s.item_slots@ == Seq::<ItemSlot>::empty(),
            s.max_slots == 9,
            s.wf(),
    {
        StorageComponent::new(9)
    }
}

proof fn lemma_total_from_front(slots: Seq<ItemSlot>, item: Seq<char>)
    requires
        slots.len() > 0,
    ensures
        item_total(slots, item) == item_total(slots.drop_first(), item) + if slots.first().item_id@
            == item {
            slots.first().count as int
        } else {
            0
        },
    decreases slots.len(),
{
    if slots.len() == 1 {
        assert(slots.drop_last() =~= Seq::<ItemSlot>::empty());
        assert(slots.drop_first() =~= Seq::<ItemSlot>::empty());
    } else {
        lemma_total_from_front(slots.drop_last(), item);
        assert(slots.drop_last().drop_first() =~= slots.drop_first().drop_last());
    }
}

proof fn lemma_total_of_one(slot: ItemSlot, item: Seq<char>)
    ensures
        item_total(seq![slot], item) == if slot.item_id@ == item {
            slot.count as int
        } else {
            0
        },
{
    let one = seq![slot];
    assert(item_total(one.drop_last(), item) == 0);
}

proof fn lemma_total_of_concat(a: Seq<ItemSlot>, b: Seq<ItemSlot>, item: Seq<char>)
    ensures
        item_total(a + b, item) == item_total(a, item) + item_total(b, item),
    decreases b.len(),
{
    if b.len() > 0 {
        assert((a + b).drop_last() =~= a + b.drop_last());
        lemma_total_of_concat(a, b.drop_last(), item);
    }
}

proof fn lemma_topping_up_totals(
    slots: Seq<ItemSlot>,
    item: Seq<char>,
    remaining: int,
    other: Seq<char>,
)
    requires
        slots_wf(slots),
        remaining >= 0,
    ensures
        topped_up(slots, item, remaining).len() == slots.len(),
        0 <= left_after_topping_up(slots, item, remaining) <= remaining,
        item_total(topped_up(slots, item, remaining), item) == item_total(slots, item) + remaining
            - left_after_topping_up(slots, item, remaining),
        other != item ==> item_total(topped_up(slots, item, remaining), other) == item_total(
            slots,
            other,
        ),
        slots_wf(topped_up(slots, item, remaining)),
    decreases slots.len(),
{
    if slots.len() > 0 {
        let head = slots.drop_last();
        lemma_topping_up_totals(head, item, remaining, other);
        let after = topped_up(slots, item, remaining);
        assert(after.drop_last() =~= topped_up(head, item, remaining));
    }
}

proof fn lemma_opening_totals(
    slots: Seq<ItemSlot>,
    item: String,
    remaining: int,
    max_stack_size: i32,
    free: int,
    other: Seq<char>,
)
    requires
        slots_wf(slots),
        remaining >= 0,
    ensures
        0 <= left_after_opening(remaining, max_stack_size as int, free) <= remaining,
        item_total(with_new_stacks(slots, item, remaining, max_stack_size, free), item@)
            == item_total(slots, item@) + remaining - left_after_opening(
            remaining,
            max_stack_size as int,
            free,
        ),
        other != item@ ==> item_total(
            with_new_stacks(slots, item, remaining, max_stack_size, free),
            other,
        ) == item_total(slots, other),
        slots_wf(with_new_stacks(slots, item, remaining, max_stack_size, free)),
    decreases at_least_zero(free),
{
    if !(remaining <= 0 || free <= 0 || max_stack_size <= 0) {
        let stack = ItemSlot {
            item_id: item,
            count: least(remaining, max_stack_size as int) as i32,
            max_stack_size,
        };
        let grown = slots.push(stack);
        assert(grown.drop_last() =~= slots);
        lemma_opening_totals(
            grown,
            item,
            remaining - least(remaining, max_stack_size as int),
            max_stack_size,
            free - 1,
            other,
        );
    }
}

/// Adding conserves what is held: the inventory holds as many more items of the
/// kind as were added, and as many of every other kind as before. Every stack
/// stays within its size.
pub proof fn lemma_adding_conserves_items(
    slots: Seq<ItemSlot>,
    max_slots: i32,
    item: String,
    count: i32,
    max_stack_size: i32,
    other: Seq<char>,
)
    requires
        slots_wf(slots),
    ensures
        0 <= added_count(slots, max_slots, item@, count, max_stack_size) <= at_least_zero(
            count as int,
        ),
        item_total(after_adding(slots, max_slots, item, count, max_stack_size), item@)
            == item_total(slots, item@) + added_count(
            slots,
            max_slots,
            item@,
            count,
            max_stack_size,
        ),
        other != item@ ==> item_total(
            after_adding(slots, max_slots, item, count, max_stack_size),
            other,
        ) == item_total(slots, other),
        slots_wf(after_adding(slots, max_slots, item, count, max_stack_size)),
{
    let start = at_least_zero(count as int);
    lemma_topping_up_totals(slots, item@, start, other);
    lemma_opening_totals(
        topped_up(slots, item@, start),
        item,
        left_after_topping_up(slots, item@, start),
        max_stack_size,
        max_slots - slots.len(),
        other,
    );
}

/// Removing conserves what is held: the inventory holds as many fewer items of
/// the kind as were removed, and as many of every other kind as before.
pub proof fn lemma_removing_conserves_items(
    slots: Seq<ItemSlot>,
    item: Seq<char>,
    remaining: int,
    other: Seq<char>,
)
    requires
        slots_wf(slots),
        remaining >= 0,
    ensures
        0 <= left_after_taking(slots, item, remaining) <= remaining,
        item_total(taken_from(slots, item, remaining), item) == item_total(slots, item) - (
        remaining - left_after_taking(slots, item, remaining)),
        other != item ==> item_total(taken_from(slots, item, remaining), other) == item_total(
            slots,
            other,
        ),
    decreases slots.len(),
{
    if slots.len() > 0 {
        let first = slots.first();
        let rest = slots.drop_first();
        lemma_total_from_front(slots, item);
        lemma_total_from_front(slots, other);
        if first.item_id@ == item {
            let given = least(first.count as int, remaining);
            let tail = if remaining - given == 0 {
                rest
            } else {
                taken_from(rest, item, remaining - given)
            };
            if remaining - given != 0 {
                lemma_removing_conserves_items(rest, item, remaining - given, other);
            }
            if first.count - given != 0 {
                let kept = seq![ItemSlot { count: (first.count - given) as i32, ..first }];
                lemma_total_of_concat(kept, tail, item);
                lemma_total_of_concat(kept, tail, other);
                lemma_total_of_one(kept[0], item);
                lemma_total_of_one(kept[0], other);
            }
        } else {
            lemma_removing_conserves_items(rest, item, remaining, other);
            let kept = seq![first];
            lemma_total_of_concat(kept, taken_from(rest, item, remaining), item);
            lemma_total_of_concat(kept, taken_from(rest, item, remaining), other);
            lemma_total_of_one(first, item);
            lemma_total_of_one(first, other);
        }
    }
}

} // verus!

//! The item store: an ordered collection of to-do items with unique
//! identifiers, and its four operations.

use vstd::prelude::*;

use crate::item::{Item, NotFound};

verus! {

/// Whether some item in `s` carries the identifier `id`.
pub open spec fn contains_id(s: Seq<Item>, id: u32) -> bool {
    exists|i: int| 0 <= i < s.len() && s[i].id == id
}

/// The position of the item carrying `id`; meaningful only when
/// `contains_id(s, id)` holds, and unambiguous when identifiers are unique.
pub open spec fn index_of_id(s: Seq<Item>, id: u32) -> int {
    choose|i: int| 0 <= i < s.len() && s[i].id == id
}

/// Identifiers are pairwise distinct.
pub open spec fn unique_ids(s: Seq<Item>) -> bool {
    forall|i: int, j: int| 0 <= i < s.len() && 0 <= j < s.len() && i != j ==> s[i].id != s[j].id
}

/// The largest identifier present, or 0 when the store is empty. The
/// allocator assigns `max_id + 1` to each new item.
pub open spec fn max_id(s: Seq<Item>) -> int
    decreases s.len(),
{
    if s.len() == 0 {
        0
    } else if s.last().id > max_id(s.drop_last()) {
        s.last().id as int
    } else {
        max_id(s.drop_last())
    }
}

/// The same item with its completion flag flipped.
pub open spec fn flipped(it: Item) -> Item {
    Item { done: !it.done, ..it }
}

/// The ordered in-memory collection of to-do items.
///
/// Invariant: identifiers are pairwise distinct; once assigned they are never
/// reused or mutated. Items stand in insertion order.
pub struct TodoStore {
    items: Vec<Item>,
}

impl View for TodoStore {
    type V = Seq<Item>;

    closed spec fn view(&self) -> Seq<Item> {
        self.items@
    }
}

impl TodoStore {
    /// Well-formedness: no two items share an identifier.
    pub open spec fn wf(&self) -> bool {
        unique_ids(self@)
    }

    /// An empty store.
    pub fn new() -> (s: Self)
        ensures
            s@ == Seq::<Item>::empty(),
            s.wf(),
    {
        TodoStore { items: Vec::new() }
    }

    /// All items, in insertion order: an exact snapshot of the store.
    pub fn list(&self) -> (r: &Vec<Item>)
        ensures
            r@ == self@,
    {
        &self.items
    }

    /// How many items the store holds.
    pub fn len(&self) -> (n: usize)
        ensures
            n == self@.len(),
    {
        self.items.len()
    }

    /// A store seeded with the given items, provided their identifiers are
    /// pairwise distinct; `None` when two items share an identifier.
    pub fn from_items(items: Vec<Item>) -> (r: Option<TodoStore>)
        ensures
            match r {
                Option::Some(s) => unique_ids(items@) && s@ == items@ && s.wf(),
                Option::None => !unique_ids(items@),
            },
    {
        let n = items.len();
        let mut i: usize = 0;
        while i < n
            invariant
                n == items@.len(),
                i <= n,
                forall|p: int, q: int| 0 <= p < q < i ==> items@[p].id != items@[q].id,
            decreases n - i,
        {
            if prefix_contains_id(&items, i, items[i].id) {
                proof {
                    let k = choose|k: int| 0 <= k < i && items@[k].id == items@[i as int].id;
                    assert(!unique_ids(items@)) by {
                        assert(items@[k].id == items@[i as int].id && k != i as int);
                    }
                }
                return None;
            }
            i += 1;
        }
        assert(unique_ids(items@)) by {
            assert forall|p: int, q: int|
                0 <= p < items@.len() && 0 <= q < items@.len() && p != q
                implies items@[p].id != items@[q].id by {
                if p < q {
                    assert(items@[p].id != items@[q].id);
                } else {
                    assert(items@[q].id != items@[p].id);
                }
            }
        }
        Some(TodoStore { items })
    }

    /// The item carrying `id`, or `NotFound` when no item does.
    pub fn get(&self, id: u32) -> (r: Result<Item, NotFound>)
        requires
            self.wf(),
        ensures
            match r {
                Result::Ok(item) => contains_id(self@, id) && item == self@[index_of_id(
                    self@,
                    id,
                )],
                Result::Err(e) => !contains_id(self@, id) && e.id == id,
            },
    {
        let n = self.items.len();
        let mut i: usize = 0;
        while i < n
            invariant
                self.wf(),
                n == self@.len(),
                i <= n,
                forall|k: int| 0 <= k < i ==> self@[k].id != id,
            decreases n - i,
        {
            if self.items[i].id == id {
                let item = self.items[i].clone();
                proof {
                    assert(contains_id(self@, id)) by {
                        assert(self@[i as int].id == id);
                    }
                    let j = index_of_id(self@, id);
                    assert(0 <= j < self@.len() && self@[j].id == id);
                    assert(j == i as int);
                }
                return Ok(item);
            }
            i += 1;
        }
        Err(NotFound { id })
    }

    /// Whether a freshly created item can still receive an identifier, that
    /// is, whether the largest identifier present is below the type's maximum.
    pub fn can_allocate(&self) -> (b: bool)
        ensures
            b == (max_id(self@) < u32::MAX),
    {
        max_item_id(&self.items) < u32::MAX
    }

    /// Creates a new item: its identifier is one more than the largest
    /// identifier present (1 on an empty store), its description is the one
    /// given, its completion flag starts false. The item is appended at the
    /// end and a copy of it is returned.
    pub fn create(&mut self, description: String) -> (r: Item)
        requires
            old(self).wf(),
            max_id(old(self)@) < u32::MAX,
        ensures
            final(self).wf(),
            r.id == max_id(old(self)@) + 1,
            r.description == description,
            !r.done,
            final(self)@ == old(self)@.push(r),
    {
        let m = max_item_id(&self.items);
        let item = Item { id: m + 1, description, done: false };
        let r = item.clone();
        proof {
            lemma_ids_at_most_max(old(self)@);
        }
        self.items.push(item);
        proof {
            assert(unique_ids(self@)) by {
                assert forall|i: int, j: int|
                    0 <= i < self@.len() && 0 <= j < self@.len() && i != j
                    implies self@[i].id != self@[j].id by {
                    if i < self@.len() - 1 && j < self@.len() - 1 {
                        assert(old(self)@[i].id != old(self)@[j].id);
                    }
                }
            }
        }
        r
    }

    /// Flips the completion flag of the item carrying `id` in place and
    /// returns a copy of the updated item; identifier and description are
    /// untouched. When no item carries `id`, fails with `NotFound` and leaves
    /// the store unchanged.
    pub fn toggle(&mut self, id: u32) -> (r: Result<Item, NotFound>)
        requires
            old(self).wf(),
        ensures
            final(self).wf(),
            match r {
                Result::Ok(item) => {
                    &&& contains_id(old(self)@, id)
                    &&& item == flipped(old(self)@[index_of_id(old(self)@, id)])
                    &&& final(self)@ == old(self)@.update(index_of_id(old(self)@, id), item)
                },
                Result::Err(e) => {
                    &&& !contains_id(old(self)@, id)
                    &&& e.id == id
                    &&& final(self)@ == old(self)@
                },
            },
    {
        let n = self.items.len();
        let mut i: usize = 0;
        while i < n
            invariant
                self@ == old(self)@,
                old(self).wf(),
                n == self@.len(),
                i <= n,
                forall|k: int| 0 <= k < i ==> self@[k].id != id,
            decreases n - i,
        {
            if self.items[i].id == id {
                let updated = Item {
                    id: self.items[i].id,
                    description: self.items[i].description.clone(),
                    done: !self.items[i].done,
                };
                let r = updated.clone();
                proof {
                    assert(contains_id(old(self)@, id)) by {
                        assert(old(self)@[i as int].id == id);
                    }
                    let j = index_of_id(old(self)@, id);
                    assert(0 <= j < old(self)@.len() && old(self)@[j].id == id);
                    assert(j == i as int);
                }
                self.items[i] = updated;
                proof {
                    assert(unique_ids(self@)) by {
                        assert forall|p: int, q: int|
                            0 <= p < self@.len() && 0 <= q < self@.len() && p != q
                            implies self@[p].id != self@[q].id by {
                            assert(self@[p].id == old(self)@[p].id);
                            assert(self@[q].id == old(self)@[q].id);
                        }
                    }
                }
                return Ok(r);
            }
            i += 1;
        }
        Err(NotFound { id })
    }
}

/// The largest identifier among the items, or 0 when there are none.
fn max_item_id(items: &Vec<Item>) -> (m: u32)
    ensures
        m as int == max_id(items@),
{
    let n = items.len();
    let mut m: u32 = 0;
    let mut i: usize = 0;
    while i < n
        invariant
            n == items@.len(),
            i <= n,
            m as int == max_id(items@.take(i as int)),
        decreases n - i,
    {
        proof {
            assert(items@.take(i as int + 1).drop_last() =~= items@.take(i as int));
            assert(items@.take(i as int + 1).last() == items@[i as int]);
        }
        if items[i].id > m {
            m = items[i].id;
        }
        i += 1;
    }
    proof {
        assert(items@.take(n as int) =~= items@);
    }
    m
}

/// Whether some item among the first `upto` carries the identifier `id`.
fn prefix_contains_id(items: &Vec<Item>, upto: usize, id: u32) -> (b: bool)
    requires
        upto <= items@.len(),
    ensures
        b == exists|k: int| 0 <= k < upto && items@[k].id == id,
{
    let mut i: usize = 0;
    while i < upto
        invariant
            upto <= items@.len(),
            i <= upto,
            forall|k: int| 0 <= k < i ==> items@[k].id != id,
        decreases upto - i,
    {
        if items[i].id == id {
            proof {
                assert(items@[i as int].id == id);
            }
            return true;
        }
        i += 1;
    }
    false
}

/// Every identifier in the store is at most the largest one, and the largest
/// is never negative.
pub proof fn lemma_ids_at_most_max(s: Seq<Item>)
    ensures
        max_id(s) >= 0,
        forall|i: int| 0 <= i < s.len() ==> s[i].id <= max_id(s),
    decreases s.len(),
{
    if s.len() > 0 {
        lemma_ids_at_most_max(s.drop_last());
        assert forall|i: int| 0 <= i < s.len() implies s[i].id <= max_id(s) by {
            if i < s.len() - 1 {
                assert(s.drop_last()[i] == s[i]);
            }
        }
    }
}

/// A freshly allocated identifier — anything above the largest identifier
/// present — belongs to no item already in the store. Together with the
/// creation contract this makes the identifiers of any sequence of creations
/// pairwise distinct.
pub proof fn lemma_fresh_id_not_present(s: Seq<Item>, id: u32)
    requires
        id > max_id(s),
    ensures
        !contains_id(s, id),
{
    lemma_ids_at_most_max(s);
}

/// Toggling changes structure, not identity: one toggle leaves every item's
/// identifier and description — and the length of the store — unchanged, and
/// toggling the same identifier a second time restores the store exactly.
pub proof fn lemma_toggle_twice_restores(s: Seq<Item>, id: u32)
    requires
        unique_ids(s),
        contains_id(s, id),
    ensures
        ({
            let i = index_of_id(s, id);
            let once = s.update(i, flipped(s[i]));
            &&& once.len() == s.len()
            &&& forall|k: int|
                0 <= k < s.len() ==> once[k].id == s[k].id && once[k].description
                    == s[k].description
            &&& unique_ids(once)
            &&& contains_id(once, id)
            &&& index_of_id(once, id) == i
            &&& once.update(index_of_id(once, id), flipped(once[index_of_id(once, id)])) == s
        }),
{
    let i = index_of_id(s, id);
    assert(0 <= i < s.len() && s[i].id == id);
    let once = s.update(i, flipped(s[i]));
    assert(contains_id(once, id)) by {
        assert(once[i].id == id);
    }
    let j = index_of_id(once, id);
    assert(0 <= j < once.len() && once[j].id == id);
    assert(j == i) by {
        assert(s[j].id == once[j].id);
    }
    assert(flipped(flipped(s[i])) == s[i]);
    assert(once.update(i, flipped(once[i])) =~= s);
}

} // verus!

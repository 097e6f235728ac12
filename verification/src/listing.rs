//! Values listed by name, in the order in which the names first came.

use vstd::prelude::*;
use vstd::string::*;

use crate::text::same_text;

verus! {

/// The contents of a listing.
pub type Entries<T> = Seq<(Seq<char>, T)>;

/// The position of the first entry named `name`; the length where there is
/// none.
pub open spec fn slot<T>(s: Entries<T>, name: Seq<char>) -> nat
    decreases s.len(),
{
    if s.len() == 0 || s[0].0 == name {
        0
    } else {
        1 + slot(s.drop_first(), name)
    }
}

/// Whether an entry is named `name`.
pub open spec fn listed<T>(s: Entries<T>, name: Seq<char>) -> bool {
    slot(s, name) < s.len()
}

/// The value listed under `name`.
pub open spec fn lookup<T>(s: Entries<T>, name: Seq<char>) -> Option<T> {
    if listed(s, name) {
        Some(s[slot(s, name) as int].1)
    } else {
        None
    }
}

/// The listing with `value` under `name`; a new name comes last.
pub open spec fn with_entry<T>(s: Entries<T>, name: Seq<char>, value: T) -> Entries<T> {
    if listed(s, name) {
        s.update(slot(s, name) as int, (name, value))
    } else {
        s.push((name, value))
    }
}

/// The listing without `name`.
pub open spec fn without_entry<T>(s: Entries<T>, name: Seq<char>) -> Entries<T> {
    if listed(s, name) {
        s.remove(slot(s, name) as int)
    } else {
        s
    }
}

/// No name is listed twice.
pub open spec fn distinct<T>(s: Entries<T>) -> bool {
    forall|i: int, j: int| 0 <= i < j < s.len() ==> #[trigger] s[i].0 != #[trigger] s[j].0
}

/// What the position of a name is.
pub proof fn slot_is_first<T>(s: Entries<T>, name: Seq<char>)
    ensures
        slot(s, name) <= s.len(),
        slot(s, name) < s.len() ==> s[slot(s, name) as int].0 == name,
        forall|j: int| 0 <= j < slot(s, name) ==> #[trigger] s[j].0 != name,
    decreases s.len(),
{
    if s.len() > 0 && s[0].0 != name {
        let rest = s.drop_first();
        slot_is_first(rest, name);
        assert forall|j: int| 0 <= j < slot(s, name) implies #[trigger] s[j].0 != name by {
            if j > 0 {
                assert(s[j] == rest[j - 1]);
            }
        }
    }
}

/// The position of a name is known by what it is.
pub proof fn slot_is<T>(s: Entries<T>, name: Seq<char>, i: int)
    requires
        0 <= i <= s.len(),
        i < s.len() ==> s[i].0 == name,
        forall|j: int| 0 <= j < i ==> #[trigger] s[j].0 != name,
    ensures
        slot(s, name) == i,
{
    slot_is_first(s, name);
    if slot(s, name) < i {
        assert(s[slot(s, name) as int].0 != name);
    } else if slot(s, name) > i {
        assert(s[i].0 != name);
    }
}

/// A listing gives back what was listed last under a name, and listing leaves
/// the other names as they are.
pub proof fn lookup_after_with_entry<T>(s: Entries<T>, name: Seq<char>, value: T, other: Seq<char>)
    ensures
        lookup(with_entry(s, name, value), name) == Some(value),
        other != name ==> lookup(with_entry(s, name, value), other) == lookup(s, other),
        distinct(s) ==> distinct(with_entry(s, name, value)),
{
    let t = with_entry(s, name, value);
    let n = slot(s, name);
    slot_is_first(s, name);
    slot_is_first(s, other);
    slot_is(t, name, n as int);
    if other != name {
        let m = slot(s, other);
        if m < s.len() {
            assert forall|j: int| 0 <= j < m implies #[trigger] t[j].0 != other by {
                assert(s[j].0 != other);
            }
            assert(t[m as int].0 == other);
            slot_is(t, other, m as int);
        } else {
            assert forall|j: int| 0 <= j < t.len() implies #[trigger] t[j].0 != other by {
                if j < s.len() {
                    assert(s[j].0 != other);
                }
            }
            slot_is(t, other, t.len() as int);
        }
    }
    if distinct(s) {
        assert forall|i: int, j: int| 0 <= i < j < t.len() implies #[trigger] t[i].0
            != #[trigger] t[j].0 by {
            if j < s.len() {
                assert(s[i].0 != s[j].0);
            } else {
                assert(s[i].0 != name);
            }
        }
    }
}

/// A removed name is no longer listed, and removal leaves the other names as
/// they are.
pub proof fn lookup_after_without_entry<T>(s: Entries<T>, name: Seq<char>, other: Seq<char>)
    requires
        distinct(s),
    ensures
        lookup(without_entry(s, name), name) is None,
        other != name ==> lookup(without_entry(s, name), other) == lookup(s, other),
        distinct(without_entry(s, name)),
{
    let t = without_entry(s, name);
    let n = slot(s, name);
    slot_is_first(s, name);
    slot_is_first(s, other);
    if n < s.len() {
        assert forall|j: int| 0 <= j < t.len() implies #[trigger] t[j].0 != name by {
            if j < n {
                assert(s[j].0 != name);
            } else {
                assert(t[j] == s[j + 1]);
                assert(s[n as int].0 != s[j + 1].0);
            }
        }
        slot_is(t, name, t.len() as int);
        if other != name {
            let m = slot(s, other);
            if m < n {
                assert forall|j: int| 0 <= j < m implies #[trigger] t[j].0 != other by {
                    assert(s[j].0 != other);
                }
                slot_is(t, other, m as int);
            } else if m < s.len() {
                assert(t[m - 1] == s[m as int]);
                assert forall|j: int| 0 <= j < m - 1 implies #[trigger] t[j].0 != other by {
                    if j < n {
                        assert(s[j].0 != other);
                    } else {
                        assert(s[j + 1].0 != other);
                    }
                }
                slot_is(t, other, m - 1);
            } else {
                assert forall|j: int| 0 <= j < t.len() implies #[trigger] t[j].0 != other by {
                    if j < n {
                        assert(s[j].0 != other);
                    } else {
                        assert(s[j + 1].0 != other);
                    }
                }
                slot_is(t, other, t.len() as int);
            }
        }
        assert forall|i: int, j: int| 0 <= i < j < t.len() implies #[trigger] t[i].0
            != #[trigger] t[j].0 by {
            let a = if i < n {
                i
            } else {
                i + 1
            };
            let b = if j < n {
                j
            } else {
                j + 1
            };
            assert(s[a].0 != s[b].0);
        }
    }
}

/// Values listed by name.
#[derive(Debug, Clone)]
pub struct Listing<V> {
    entries: Vec<(String, V)>,
}

impl<V: View> View for Listing<V> {
    type V = Entries<V::V>;

    closed spec fn view(&self) -> Entries<V::V> {
        self.entries@.map_values(|e: (String, V)| (e.0@, e.1@))
    }
}

impl<V: View> Listing<V> {
    pub fn new() -> (r: Self)
        ensures
            r@ == Seq::<(Seq<char>, V::V)>::empty(),
    {
        let r = Listing { entries: Vec::new() };
        assert(r@ =~= Seq::<(Seq<char>, V::V)>::empty());
        r
    }

    pub fn len(&self) -> (n: usize)
        ensures
            n == self@.len(),
    {
        self.entries.len()
    }

    /// The name of the entry at `i`.
    pub fn name_at(&self, i: usize) -> (r: &String)
        requires
            i < self@.len(),
        ensures
            r@ == self@[i as int].0,
    {
        &self.entries[i].0
    }

    /// The value of the entry at `i`.
    pub fn value_at(&self, i: usize) -> (r: &V)
        requires
            i < self@.len(),
        ensures
            r@ == self@[i as int].1,
    {
        &self.entries[i].1
    }

    /// The value of the entry at `i`, to be changed.
    pub fn value_at_mut(&mut self, i: usize) -> (r: &mut V)
        requires
            i < old(self)@.len(),
        ensures
            r@ == old(self)@[i as int].1,
            final(self)@ == old(self)@.update(i as int, (old(self)@[i as int].0, final(r)@)),
    {
        &mut self.entries[i].1
    }

    /// The position of the first entry named `name`; the length where there is
    /// none.
    pub fn find(&self, name: &str) -> (i: usize)
        ensures
            i == slot(self@, name@),
            i <= self@.len(),
    {
        let mut i: usize = 0;
        while i < self.entries.len()
            invariant
                i <= self.entries.len(),
                self@.len() == self.entries.len(),
                forall|j: int| 0 <= j < i ==> #[trigger] self@[j].0 != name@,
            decreases self.entries.len() - i,
        {
            if same_text(self.entries[i].0.as_str(), name) {
                proof {
                    assert(self@[i as int].0 == name@);
                    slot_is(self@, name@, i as int);
                }
                return i;
            }
            i = i + 1;
        }
        proof {
            slot_is(self@, name@, i as int);
        }
        i
    }

    pub fn contains_key(&self, name: &str) -> (r: bool)
        ensures
            r == listed(self@, name@),
    {
        self.find(name) < self.len()
    }

    /// The value listed under `name`.
    pub fn get(&self, name: &str) -> (r: Option<&V>)
        ensures
            match r {
                Some(v) => lookup(self@, name@) == Some(v@),
                None => lookup(self@, name@) is None,
            },
    {
        let i = self.find(name);
        if i < self.len() {
            Some(self.value_at(i))
        } else {
            None
        }
    }

    /// Lists `value` under `name`, in place of what was listed there.
    pub fn insert(&mut self, name: String, value: V)
        ensures
            final(self)@ == with_entry(old(self)@, name@, value@),
    {
        let i = self.find(name.as_str());
        if i < self.entries.len() {
            proof {
                slot_is_first(self@, name@);
            }
            self.entries[i] = (name, value);
        } else {
            self.entries.push((name, value));
        }
        assert(self@ =~= with_entry(old(self)@, name@, value@));
    }

    /// Lists `value` last, whatever is listed before.
    pub(crate) fn push(&mut self, name: String, value: V)
        ensures
            final(self)@ == old(self)@.push((name@, value@)),
    {
        self.entries.push((name, value));
        assert(self@ =~= old(self)@.push((name@, value@)));
    }

    /// Takes `name` off the listing.
    pub fn remove(&mut self, name: &str) -> (r: Option<V>)
        ensures
            final(self)@ == without_entry(old(self)@, name@),
            match r {
                Some(v) => lookup(old(self)@, name@) == Some(v@),
                None => lookup(old(self)@, name@) is None,
            },
    {
        let i = self.find(name);
        if i < self.entries.len() {
            let e = self.entries.remove(i);
            assert(self@ =~= old(self)@.remove(i as int));
            Some(e.1)
        } else {
            None
        }
    }
}

/// Listing a known name keeps every entry in its place and changes its value
/// alone; a new name comes behind all others.
pub proof fn entries_keep_their_places<T>(s: Entries<T>, name: Seq<char>, value: T, i: int)
    requires
        0 <= i < s.len(),
    ensures
        ({
            let t = with_entry(s, name, value);
            &&& t[i].0 == s[i].0
            &&& s[i].0 != name ==> t[i] == s[i]
            &&& lookup(s, name) is Some ==> t.len() == s.len()
            &&& lookup(s, name) is None ==> t.len() == s.len() + 1 && t.last() == (name, value)
        }),
{
    slot_is_first(s, name);
}

/// Removing a name closes the gap and keeps the other entries in their order.
pub proof fn removal_keeps_order<T>(s: Entries<T>, name: Seq<char>, i: int)
    requires
        0 <= i < without_entry(s, name).len(),
    ensures
        ({
            let t = without_entry(s, name);
            &&& lookup(s, name) is None ==> t == s
            &&& lookup(s, name) is Some ==> exists|gap: int|
                {
                    &&& 0 <= gap < s.len()
                    &&& (#[trigger] s[gap]).0 == name
                    &&& t.len() == s.len() - 1
                    &&& i < gap ==> t[i] == s[i]
                    &&& i >= gap ==> t[i] == s[i + 1]
                }
        }),
{
    slot_is_first(s, name);
    let gap = slot(s, name) as int;
    if lookup(s, name) is Some {
        assert(s[gap].0 == name);
    }
}

} // verus!

//! Maps from text to values that keep their keys in ascending order.
use vstd::prelude::*;

use crate::text::chars_of;

verus! {

/// The order of texts: character by character, and a text before all that continue it.
pub open spec fn before(a: Seq<char>, b: Seq<char>) -> bool
    decreases a.len(),
{
    if b.len() == 0 {
        false
    } else if a.len() == 0 {
        true
    } else if a[0] != b[0] {
        a[0] < b[0]
    } else {
        before(a.skip(1), b.skip(1))
    }
}

/// The order of texts is strict and total: of two texts exactly one of these holds, that the
/// first is before the second, that they are equal, or that the second is before the first.
pub proof fn before_is_total(a: Seq<char>, b: Seq<char>)
    ensures
        a == b ==> !before(a, b),
        a != b ==> (before(a, b) != before(b, a)),
    decreases a.len(),
{
    if a.len() > 0 && b.len() > 0 && a[0] == b[0] {
        before_is_total(a.skip(1), b.skip(1));
        if a.skip(1) == b.skip(1) {
            assert(a =~= seq![a[0]] + a.skip(1));
            assert(b =~= seq![b[0]] + b.skip(1));
        }
    } else if a.len() == 0 && b.len() == 0 {
        assert(a =~= b);
    }
}

/// The order of texts is transitive.
pub proof fn before_is_transitive(a: Seq<char>, b: Seq<char>, c: Seq<char>)
    requires
        before(a, b),
        before(b, c),
    ensures
        before(a, c),
    decreases a.len(),
{
    if a.len() > 0 && a[0] == b[0] && b[0] == c[0] {
        before_is_transitive(a.skip(1), b.skip(1), c.skip(1));
    }
}

/// Whether texts stand in ascending order, none of them twice.
pub open spec fn ascending(list: Seq<Seq<char>>) -> bool {
    forall|i: int, j: int| 0 <= i < j < list.len() ==> before(#[trigger] list[i], #[trigger] list[j])
}

fn text_before(a: &Vec<char>, b: &str) -> (r: bool)
    ensures
        r == before(a@, b@),
{
    let bs = chars_of(b);
    let mut i: usize = 0;
    assert(a@.skip(0) =~= a@);
    assert(b@.skip(0) =~= b@);
    while i < a.len() && i < bs.len()
        invariant
            bs@ == b@,
            i <= a@.len(),
            i <= bs@.len(),
            before(a@, b@) == before(a@.skip(i as int), b@.skip(i as int)),
        decreases a@.len() - i,
    {
        if a[i] != bs[i] {
            return a[i] < bs[i];
        }
        assert(a@.skip(i as int).skip(1) =~= a@.skip(i + 1));
        assert(b@.skip(i as int).skip(1) =~= b@.skip(i + 1));
        i = i + 1;
    }
    i < bs.len()
}

/// A map from text to values, held in ascending order of its keys.
pub struct TextMap<V> {
    entries: Vec<(String, V)>,
}

impl<V> View for TextMap<V> {
    type V = Map<Seq<char>, V>;

    closed spec fn view(&self) -> Map<Seq<char>, V> {
        Map::new(
            |k: Seq<char>| self.keys().contains(k),
            |k: Seq<char>| self.entries@[self.keys().index_of(k)].1,
        )
    }
}

impl<V> TextMap<V> {
    /// The keys in the order in which they are held.
    pub closed spec fn keys(&self) -> Seq<Seq<char>> {
        self.entries@.map_values(|e: (String, V)| e.0@)
    }

    /// The keys stand in ascending order, none of them twice.
    pub open spec fn wf(&self) -> bool {
        ascending(self.keys())
    }

    /// The keys that are held in order are the keys of the map, each of them once.
    pub proof fn keys_are_the_domain(&self)
        requires
            self.wf(),
        ensures
            forall|k: Seq<char>| self@.contains_key(k) <==> #[trigger] self.keys().contains(k),
            self.keys().no_duplicates(),
            ascending(self.keys()),
    {
        assert forall|i: int, j: int|
            0 <= i < self.keys().len() && 0 <= j < self.keys().len() && i != j implies self.keys()[i]
            != self.keys()[j] by {
            before_is_total(self.keys()[i], self.keys()[j]);
        }
    }

    proof fn place_is_unique(&self, i: int)
        requires
            self.wf(),
            0 <= i < self.entries@.len(),
        ensures
            self@.contains_key(self.keys()[i]),
            self@[self.keys()[i]] == self.entries@[i].1,
    {
        let k = self.keys()[i];
        assert(self.keys().contains(k));
        let j = self.keys().index_of(k);
        before_is_total(k, k);
        if i < j {
            assert(before(self.keys()[i], self.keys()[j]));
        } else if j < i {
            assert(before(self.keys()[j], self.keys()[i]));
        }
    }

    /// The empty map.
    pub fn new() -> (r: TextMap<V>)
        ensures
            r.wf(),
            r@ == Map::<Seq<char>, V>::empty(),
            r.keys() == Seq::<Seq<char>>::empty(),
    {
        let r = TextMap { entries: Vec::new() };
        assert(r.keys() =~= Seq::<Seq<char>>::empty());
        assert(r@ =~= Map::<Seq<char>, V>::empty());
        r
    }

    /// Finds the first place whose key is not before `key`.
    fn find(&self, key: &str) -> (r: (usize, bool))
        requires
            self.wf(),
        ensures
            r.0 <= self.entries@.len(),
            forall|i: int| 0 <= i < r.0 ==> before(#[trigger] self.keys()[i], key@),
            forall|i: int| r.0 <= i < self.entries@.len() ==> !before(#[trigger] self.keys()[i], key@),
            r.1 == self@.contains_key(key@),
            r.1 ==> r.0 < self.entries@.len() && self.keys()[r.0 as int] == key@,
            r.1 ==> self@[key@] == self.entries@[r.0 as int].1,
    {
        let mut i: usize = 0;
        while i < self.entries.len() && text_before(&chars_of(self.entries[i].0.as_str()), key)
            invariant
                i <= self.entries@.len(),
                forall|j: int| 0 <= j < i ==> before(#[trigger] self.keys()[j], key@),
            decreases self.entries@.len() - i,
        {
            assert(self.keys()[i as int] == self.entries@[i as int].0@);
            i = i + 1;
        }
        proof {
            if i < self.entries@.len() {
                assert(self.keys()[i as int] == self.entries@[i as int].0@);
                assert forall|j: int| i <= j < self.entries@.len() implies !before(
                    #[trigger] self.keys()[j],
                    key@,
                ) by {
                    if j > i && before(self.keys()[j], key@) {
                        before_is_transitive(self.keys()[i as int], self.keys()[j], key@);
                    }
                }
            }
        }
        let found = i < self.entries.len() && self.entries[i].0.as_str().eq(key);
        proof {
            if found {
                self.place_is_unique(i as int);
            } else if self.keys().contains(key@) {
                let j = self.keys().index_of(key@);
                before_is_total(key@, key@);
                assert(self.keys()[j] == key@);
                assert(j >= i);
                before_is_total(self.keys()[i as int], key@);
                assert(before(key@, self.keys()[i as int]));
                if j > i {
                    assert(before(self.keys()[i as int], self.keys()[j]));
                }
                before_is_total(self.keys()[i as int], key@);
            }
        }
        (i, found)
    }

    /// The value of a key.
    pub fn get(&self, key: &str) -> (r: Option<&V>)
        requires
            self.wf(),
        ensures
            r == (if self@.contains_key(key@) {
                Some(&self@[key@])
            } else {
                None
            }),
    {
        let (i, found) = self.find(key);
        if found {
            Some(&self.entries[i].1)
        } else {
            None
        }
    }

    /// Whether a key is in the map.
    pub fn contains(&self, key: &str) -> (r: bool)
        requires
            self.wf(),
        ensures
            r == self@.contains_key(key@),
    {
        self.find(key).1
    }

    /// Sets the value of a key.
    pub fn insert(&mut self, key: &str, value: V)
        requires
            old(self).wf(),
        ensures
            final(self).wf(),
            final(self)@ == old(self)@.insert(key@, value),
    {
        let (i, found) = self.find(key);
        let ghost was = *self;
        if found {
            let old_entry = self.entries.remove(i);
            self.entries.insert(i, (old_entry.0, value));
            proof {
                assert(self.keys() =~= was.keys());
                assert forall|k: Seq<char>| #[trigger] was.keys().contains(k) && k != key@ implies self@[k]
                    == was@[k] by {
                    let j = was.keys().index_of(k);
                    assert(was.keys()[j] == k);
                    assert(self.keys()[j] == k);
                    self.place_is_unique(j);
                    was.place_is_unique(j);
                }
                self.place_is_unique(i as int);
            }
        } else {
            self.entries.insert(i, (key.to_owned(), value));
            proof {
                assert(self.keys() =~= was.keys().insert(i as int, key@));
                assert forall|a: int, b: int| 0 <= a < b < self.keys().len() implies before(
                    #[trigger] self.keys()[a],
                    #[trigger] self.keys()[b],
                ) by {
                    if a == i {
                        assert(self.keys()[b] == was.keys()[b - 1]);
                        before_is_total(was.keys()[b - 1], key@);
                        if was.keys()[b - 1] == key@ {
                            assert(was.keys().contains(key@));
                        }
                    } else if b == i {
                        assert(self.keys()[a] == was.keys()[a]);
                    } else {
                        let a0 = if a < i { a } else { a - 1 };
                        let b0 = if b < i { b } else { b - 1 };
                        assert(before(was.keys()[a0], was.keys()[b0]));
                    }
                }
                assert(self.wf());
                assert forall|k: Seq<char>| #[trigger] was.keys().contains(k) implies self.keys().contains(k)
                    && self@[k] == was@[k] by {
                    let j = was.keys().index_of(k);
                    assert(was.keys()[j] == k);
                    let j0 = if j < i { j } else { j + 1 };
                    assert(self.keys()[j0] == k);
                    self.place_is_unique(j0);
                    was.place_is_unique(j);
                }
                assert forall|k: Seq<char>| #[trigger] self.keys().contains(k) implies k == key@
                    || was.keys().contains(k) by {
                    let j = self.keys().index_of(k);
                    assert(self.keys()[j] == k);
                    if j < i {
                        assert(was.keys()[j] == k);
                    } else if j > i {
                        assert(was.keys()[j - 1] == k);
                    }
                }
                self.place_is_unique(i as int);
                assert(self.keys()[i as int] == key@);
            }
        }
        assert(self@ =~= was@.insert(key@, value));
    }

    /// Takes a key and its value out of the map.
    pub fn remove(&mut self, key: &str) -> (r: Option<V>)
        requires
            old(self).wf(),
        ensures
            final(self).wf(),
            final(self)@ == old(self)@.remove(key@),
            r == (if old(self)@.contains_key(key@) {
                Some(old(self)@[key@])
            } else {
                None
            }),
    {
        let (i, found) = self.find(key);
        let ghost was = *self;
        if found {
            let (_, value) = self.entries.remove(i);
            proof {
                assert(self.keys() =~= was.keys().remove(i as int));
                assert forall|a: int, b: int| 0 <= a < b < self.keys().len() implies before(
                    #[trigger] self.keys()[a],
                    #[trigger] self.keys()[b],
                ) by {
                    let a0 = if a < i { a } else { a + 1 };
                    let b0 = if b < i { b } else { b + 1 };
                    assert(before(was.keys()[a0], was.keys()[b0]));
                }
                assert(self.wf());
                assert forall|k: Seq<char>| #[trigger] self.keys().contains(k) implies k != key@
                    && was.keys().contains(k) && self@[k] == was@[k] by {
                    let j = self.keys().index_of(k);
                    assert(self.keys()[j] == k);
                    let j0 = if j < i { j } else { j + 1 };
                    assert(was.keys()[j0] == k);
                    before_is_total(k, k);
                    if j0 < i {
                        assert(before(was.keys()[j0], was.keys()[i as int]));
                    } else {
                        assert(before(was.keys()[i as int], was.keys()[j0]));
                    }
                    self.place_is_unique(j);
                    was.place_is_unique(j0);
                }
                assert forall|k: Seq<char>| #[trigger] was.keys().contains(k) && k != key@ implies self.keys().contains(
                k) by {
                    let j = was.keys().index_of(k);
                    assert(was.keys()[j] == k);
                    let j0 = if j < i { j } else { j - 1 };
                    assert(self.keys()[j0] == k);
                }
                assert(self@ =~= was@.remove(key@));
            }
            Some(value)
        } else {
            assert(self@ =~= was@.remove(key@));
            None
        }
    }

    /// Whether the map is empty.
    pub fn is_empty(&self) -> (r: bool)
        ensures
            r == (self.keys().len() == 0),
    {
        self.entries.len() == 0
    }

    /// The number of keys.
    pub fn len(&self) -> (r: usize)
        ensures
            r == self.keys().len(),
    {
        self.entries.len()
    }

    /// The key at a place of the ascending order.
    pub fn key_at(&self, i: usize) -> (r: &String)
        requires
            i < self.keys().len(),
        ensures
            r@ == self.keys()[i as int],
    {
        &self.entries[i].0
    }

    /// The value of the key at a place of the ascending order.
    pub fn value_at(&self, i: usize) -> (r: &V)
        requires
            self.wf(),
            i < self.keys().len(),
        ensures
            *r == self@[self.keys()[i as int]],
    {
        proof {
            self.place_is_unique(i as int);
        }
        &self.entries[i].1
    }
}

/// Texts are ordered by the first character in which they differ, and a text stands before all that
/// continue it.
pub proof fn the_first_difference_decides(front: Seq<char>, x: char, y: char, a: Seq<char>, b: Seq<char>)
    ensures
        x < y ==> before(front + seq![x] + a, front + seq![y] + b) && !before(
            front + seq![y] + b,
            front + seq![x] + a,
        ),
        before(front, front + seq![y] + b),
        !before(front + seq![y] + b, front),
        !before(front, front),
    decreases front.len(),
{
    let left = front + seq![x] + a;
    let right = front + seq![y] + b;
    if front.len() > 0 {
        let tail = front.skip(1);
        the_first_difference_decides(tail, x, y, a, b);
        assert(left.skip(1) =~= tail + seq![x] + a);
        assert(right.skip(1) =~= tail + seq![y] + b);
        assert(left[0] == front[0] && right[0] == front[0]);
    } else {
        assert(left[0] == x && right[0] == y);
    }
}

} // verus!

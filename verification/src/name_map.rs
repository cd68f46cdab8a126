//! An insertion-ordered map keyed by name.
use vstd::prelude::*;

verus! {

/// No name occurs twice in `m`.
pub open spec fn unique_keys<T>(m: Seq<(Seq<char>, T)>) -> bool {
    forall|i: int, j: int| 0 <= i < j < m.len() ==> (#[trigger] m[i]).0 != (#[trigger] m[j]).0
}

/// Some entry of `m` is named `key`.
pub open spec fn has_key<T>(m: Seq<(Seq<char>, T)>, key: Seq<char>) -> bool {
    exists|i: int| 0 <= i < m.len() && (#[trigger] m[i]).0 == key
}

/// `i` is the place of the first entry of `m` named `key`.
pub open spec fn is_first_at<T>(m: Seq<(Seq<char>, T)>, key: Seq<char>, i: int) -> bool {
    &&& 0 <= i < m.len()
    &&& m[i].0 == key
    &&& forall|j: int| 0 <= j < i ==> (#[trigger] m[j]).0 != key
}

/// The place of the first entry of `m` named `key`; `m.len()` if there is none.
pub open spec fn position_of<T>(m: Seq<(Seq<char>, T)>, key: Seq<char>) -> int {
    if has_key(m, key) {
        choose|i: int| is_first_at(m, key, i)
    } else {
        m.len() as int
    }
}

/// The value of the first entry of `m` named `key`.
pub open spec fn lookup<T>(m: Seq<(Seq<char>, T)>, key: Seq<char>) -> Option<T> {
    if has_key(m, key) {
        Some(m[position_of(m, key)].1)
    } else {
        None
    }
}

/// `m` with `key` bound to `value`: an entry named `key` is overwritten in
/// place, a new name is appended.
pub open spec fn put<T>(m: Seq<(Seq<char>, T)>, key: Seq<char>, value: T) -> Seq<(Seq<char>, T)> {
    if has_key(m, key) {
        m.update(position_of(m, key), (key, value))
    } else {
        m.push((key, value))
    }
}

/// A name that occurs in `m` has a first place, and `position_of` is that place.
pub proof fn lemma_position_of<T>(m: Seq<(Seq<char>, T)>, key: Seq<char>)
    ensures
        has_key(m, key) ==> is_first_at(m, key, position_of(m, key)),
        !has_key(m, key) ==> position_of(m, key) == m.len(),
        forall|i: int| is_first_at(m, key, i) ==> position_of(m, key) == i,
{
    if has_key(m, key) {
        let w = choose|i: int| 0 <= i < m.len() && (#[trigger] m[i]).0 == key;
        lemma_first_exists(m, key, w);
    }
    assert forall|i: int| is_first_at(m, key, i) implies position_of(m, key) == i by {
        assert(has_key(m, key));
        let p = position_of(m, key);
        assert(is_first_at(m, key, p));
        if p < i {
            assert(m[p].0 != key);
        } else if i < p {
            assert(m[i].0 != key);
        }
    }
}

/// Before any entry named `key` stands a first one.
proof fn lemma_first_exists<T>(m: Seq<(Seq<char>, T)>, key: Seq<char>, w: int)
    requires
        0 <= w < m.len(),
        m[w].0 == key,
    ensures
        exists|i: int| is_first_at(m, key, i),
    decreases w,
{
    if forall|j: int| 0 <= j < w ==> (#[trigger] m[j]).0 != key {
        assert(is_first_at(m, key, w));
    } else {
        let j = choose|j: int| 0 <= j < w && (#[trigger] m[j]).0 == key;
        lemma_first_exists(m, key, j);
    }
}

/// Binding a name keeps the names unique, makes the name present, and leaves
/// every other name's value as it was.
pub proof fn lemma_put<T>(m: Seq<(Seq<char>, T)>, key: Seq<char>, value: T)
    ensures
        unique_keys(m) ==> unique_keys(put(m, key, value)),
        lookup(put(m, key, value), key) == Some(value),
        forall|other: Seq<char>|
            other != key ==> #[trigger] lookup(put(m, key, value), other) == lookup(m, other),
        forall|other: Seq<char>|
            #[trigger] has_key(put(m, key, value), other) <==> (other == key || has_key(m, other)),
{
    let r = put(m, key, value);
    lemma_position_of(m, key);
    let p = position_of(m, key);
    assert(r.len() == if has_key(m, key) { m.len() } else { m.len() + 1 });
    assert(r[p] == (key, value));
    assert(forall|i: int| 0 <= i < r.len() && i != p ==> r[i] == m[i]);
    assert(is_first_at(r, key, p));
    lemma_position_of(r, key);
    assert forall|other: Seq<char>| #[trigger]
        has_key(r, other) <==> (other == key || has_key(m, other)) by {
        if has_key(r, other) {
            let i = choose|i: int| 0 <= i < r.len() && (#[trigger] r[i]).0 == other;
            if i != p {
                assert(m[i].0 == other);
            }
        }
        if has_key(m, other) {
            let i = choose|i: int| 0 <= i < m.len() && (#[trigger] m[i]).0 == other;
            assert(r[i].0 == other);
        }
    }
    assert forall|other: Seq<char>| other != key implies #[trigger] lookup(r, other) == lookup(
        m,
        other,
    ) by {
        lemma_position_of(m, other);
        if has_key(m, other) {
            let q = position_of(m, other);
            assert(q != p);
            assert(r[q] == m[q]);
            assert forall|j: int| 0 <= j < q implies (#[trigger] r[j]).0 != other by {
                if j != p {
                    assert(m[j].0 != other);
                }
            }
            assert(is_first_at(r, other, q));
            lemma_position_of(r, other);
        }
    }
    if unique_keys(m) {
        assert forall|i: int, j: int| 0 <= i < j < r.len() implies (#[trigger] r[i]).0 != (
        #[trigger] r[j]).0 by {
            if has_key(m, key) {
                if i == p {
                    assert(m[i].0 == key);
                    assert(m[j].0 != m[i].0);
                } else if j == p {
                    assert(m[j].0 == key);
                    assert(m[i].0 != m[j].0);
                } else {
                    assert(m[i].0 != m[j].0);
                }
            } else {
                if j == p {
                    assert(m[i].0 != key);
                } else {
                    assert(m[i].0 != m[j].0);
                }
            }
        }
    }
}

/// `acc` with each of `entries` bound in turn: a later entry overwrites an
/// earlier one of the same name.
pub open spec fn put_all<T>(acc: Seq<(Seq<char>, T)>, entries: Seq<(Seq<char>, T)>) -> Seq<
    (Seq<char>, T),
>
    decreases entries.len(),
{
    if entries.len() == 0 {
        acc
    } else {
        put(put_all(acc, entries.drop_last()), entries.last().0, entries.last().1)
    }
}

/// Binding one more entry after `entries` is binding `entries` with that
/// entry at its end.
pub proof fn lemma_put_all_push<T>(
    acc: Seq<(Seq<char>, T)>,
    entries: Seq<(Seq<char>, T)>,
    entry: (Seq<char>, T),
)
    ensures
        put_all(acc, entries.push(entry)) == put(put_all(acc, entries), entry.0, entry.1),
{
    assert(entries.push(entry).drop_last() =~= entries);
}

/// Binding two lists one after the other is binding their concatenation.
pub proof fn lemma_put_all_add<T>(
    acc: Seq<(Seq<char>, T)>,
    first: Seq<(Seq<char>, T)>,
    second: Seq<(Seq<char>, T)>,
)
    ensures
        put_all(acc, first + second) == put_all(put_all(acc, first), second),
    decreases second.len(),
{
    if second.len() == 0 {
        assert(first + second =~= first);
    } else {
        lemma_put_all_add(acc, first, second.drop_last());
        assert((first + second).drop_last() =~= first + second.drop_last());
        assert((first + second).last() == second.last());
    }
}

/// Binding a list keeps the names unique, and a name is bound afterwards
/// exactly if it was before or the list holds it.
pub proof fn lemma_put_all<T>(acc: Seq<(Seq<char>, T)>, entries: Seq<(Seq<char>, T)>)
    ensures
        unique_keys(acc) ==> unique_keys(put_all(acc, entries)),
        forall|key: Seq<char>| #[trigger]
            has_key(put_all(acc, entries), key) <==> (has_key(acc, key) || has_key(entries, key)),
    decreases entries.len(),
{
    if entries.len() > 0 {
        let front = entries.drop_last();
        let last = entries.last();
        lemma_put_all(acc, front);
        lemma_put(put_all(acc, front), last.0, last.1);
        assert forall|key: Seq<char>| #[trigger]
            has_key(put_all(acc, entries), key) <==> (has_key(acc, key) || has_key(
                entries,
                key,
            )) by {
            if has_key(entries, key) {
                let i = choose|i: int| 0 <= i < entries.len() && (#[trigger] entries[i]).0 == key;
                if i < front.len() {
                    assert(front[i].0 == key);
                }
            }
            if has_key(front, key) {
                let i = choose|i: int| 0 <= i < front.len() && (#[trigger] front[i]).0 == key;
                assert(entries[i].0 == key);
            }
            if key == last.0 {
                assert(entries[entries.len() - 1].0 == key);
            }
        }
    }
}

/// The value of the last entry of `entries` named `key`.
pub open spec fn last_bound<T>(entries: Seq<(Seq<char>, T)>, key: Seq<char>) -> Option<T>
    decreases entries.len(),
{
    if entries.len() == 0 {
        None
    } else if entries.last().0 == key {
        Some(entries.last().1)
    } else {
        last_bound(entries.drop_last(), key)
    }
}

/// After a list is bound, a name has the value of its last entry in the
/// list, and a name that the list lacks has the value it had before.
pub proof fn lemma_put_all_lookup<T>(
    acc: Seq<(Seq<char>, T)>,
    entries: Seq<(Seq<char>, T)>,
    key: Seq<char>,
)
    ensures
        lookup(put_all(acc, entries), key) == match last_bound(entries, key) {
            Some(value) => Some(value),
            None => lookup(acc, key),
        },
    decreases entries.len(),
{
    if entries.len() > 0 {
        let front = entries.drop_last();
        let last = entries.last();
        lemma_put_all_lookup(acc, front, key);
        lemma_put(put_all(acc, front), last.0, last.1);
    }
}

/// `m` with each value replaced by its image under `f`.
pub open spec fn map_entries<T, U>(m: Seq<(Seq<char>, T)>, f: spec_fn(T) -> U) -> Seq<
    (Seq<char>, U),
> {
    Seq::new(m.len(), |i: int| (m[i].0, f(m[i].1)))
}

/// Binding a name and then taking the images of the values is taking the
/// images and then binding the name to the image of the value.
pub proof fn lemma_put_map_entries<T, U>(
    m: Seq<(Seq<char>, T)>,
    key: Seq<char>,
    value: T,
    f: spec_fn(T) -> U,
)
    ensures
        map_entries(put(m, key, value), f) == put(map_entries(m, f), key, f(value)),
{
    let images = map_entries(m, f);
    lemma_position_of(m, key);
    lemma_position_of(images, key);
    if has_key(m, key) {
        let p = position_of(m, key);
        assert(images[p].0 == key);
        assert forall|j: int| 0 <= j < p implies (#[trigger] images[j]).0 != key by {
            assert(m[j].0 != key);
        }
        assert(is_first_at(images, key, p));
    } else {
        if has_key(images, key) {
            let i = choose|i: int| 0 <= i < images.len() && (#[trigger] images[i]).0 == key;
            assert(m[i].0 == key);
        }
    }
    assert(map_entries(put(m, key, value), f) =~= put(images, key, f(value)));
}

/// A map from names to values that keeps its entries in the order in which
/// their names were first bound.
#[derive(Debug)]
pub struct NameMap<T> {
    pub entries: Vec<(String, T)>,
}

impl<T> View for NameMap<T> {
    type V = Seq<(Seq<char>, T)>;

    open spec fn view(&self) -> Seq<(Seq<char>, T)> {
        Seq::new(self.entries@.len(), |i: int| (self.entries@[i].0@, self.entries@[i].1))
    }
}

impl<T> NameMap<T> {
    /// No name is bound twice.
    pub open spec fn wf(&self) -> bool {
        unique_keys(self@)
    }

    /// The empty map.
    pub fn new() -> (m: Self)
        ensures
            m@ == Seq::<(Seq<char>, T)>::empty(),
            m.wf(),
    {
        let m = NameMap { entries: Vec::new() };
        assert(m@ =~= Seq::<(Seq<char>, T)>::empty());
        m
    }

    /// The number of entries.
    pub fn len(&self) -> (n: usize)
        ensures
            n == self@.len(),
    {
        self.entries.len()
    }

    /// Whether the map has no entry.
    pub fn is_empty(&self) -> (b: bool)
        ensures
            b == (self@.len() == 0),
    {
        self.entries.len() == 0
    }

    /// The place of the first entry named `key`.
    pub fn position(&self, key: &String) -> (r: Option<usize>)
        ensures
            match r {
                Some(i) => i < self@.len() && has_key(self@, key@) && i == position_of(
                    self@,
                    key@,
                ),
                None => !has_key(self@, key@),
            },
    {
        let mut i: usize = 0;
        while i < self.entries.len()
            invariant
                i <= self.entries.len(),
                forall|j: int| 0 <= j < i ==> (#[trigger] self@[j]).0 != key@,
            decreases self.entries.len() - i,
        {
            if self.entries[i].0 == *key {
                proof {
                    assert(self@[i as int].0 == key@);
                    assert(is_first_at(self@, key@, i as int));
                    lemma_position_of(self@, key@);
                }
                return Some(i);
            }
            i = i + 1;
        }
        None
    }

    /// Whether some entry is named `key`.
    pub fn contains_key(&self, key: &String) -> (b: bool)
        ensures
            b == has_key(self@, key@),
    {
        self.position(key).is_some()
    }

    /// The value bound to `key`.
    pub fn get(&self, key: &String) -> (r: Option<&T>)
        ensures
            match r {
                Some(v) => lookup(self@, key@) == Some(*v),
                None => lookup(self@, key@) is None,
            },
    {
        proof {
            lemma_position_of(self@, key@);
        }
        match self.position(key) {
            Some(i) => Some(&self.entries[i].1),
            None => None,
        }
    }

    /// Binds `key` to `value`. A value already bound to `key` is replaced and
    /// keeps its place.
    pub fn insert(&mut self, key: String, value: T)
        ensures
            final(self)@ == put(old(self)@, key@, value),
            old(self).wf() ==> final(self).wf(),
    {
        proof {
            lemma_put(self@, key@, value);
            lemma_position_of(self@, key@);
        }
        match self.position(&key) {
            Some(i) => {
                self.entries[i] = (key, value);
            },
            None => {
                self.entries.push((key, value));
            },
        }
        assert(self@ =~= put(old(self)@, key@, value));
    }
}

} // verus!

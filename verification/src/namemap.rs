//! A map from names to values, kept in ascending name order — the order in
//! which the configuration lists games, classes and specs.
//!
//! Names are ordered as `String`'s `Ord` orders them: lexicographically by
//! bytes of their UTF-8 encoding, which is lexicographic by code point.

use vstd::prelude::*;
use crate::text::chars_of;

verus! {

/// Lexicographic order of two names, by code point.
pub open spec fn key_lt(a: Seq<char>, b: Seq<char>) -> bool
    decreases a.len(),
{
    if a.len() == 0 {
        b.len() > 0
    } else if b.len() == 0 {
        false
    } else if a[0] < b[0] {
        true
    } else if a[0] > b[0] {
        false
    } else {
        key_lt(a.drop_first(), b.drop_first())
    }
}

pub proof fn lemma_key_lt_irreflexive(a: Seq<char>)
    ensures
        !key_lt(a, a),
    decreases a.len(),
{
    if a.len() > 0 {
        lemma_key_lt_irreflexive(a.drop_first());
    }
}

pub proof fn lemma_key_lt_transitive(a: Seq<char>, b: Seq<char>, c: Seq<char>)
    requires
        key_lt(a, b),
        key_lt(b, c),
    ensures
        key_lt(a, c),
    decreases a.len(),
{
    if a.len() > 0 && b.len() > 0 && c.len() > 0 {
        if a[0] == b[0] && b[0] == c[0] {
            lemma_key_lt_transitive(a.drop_first(), b.drop_first(), c.drop_first());
        }
    }
}

pub proof fn lemma_key_lt_total(a: Seq<char>, b: Seq<char>)
    ensures
        a == b || key_lt(a, b) || key_lt(b, a),
    decreases a.len(),
{
    if a.len() > 0 && b.len() > 0 {
        if a[0] == b[0] {
            lemma_key_lt_total(a.drop_first(), b.drop_first());
            if a.drop_first() == b.drop_first() {
                assert(a =~= seq![a[0]] + a.drop_first());
                assert(b =~= seq![b[0]] + b.drop_first());
            }
        } else {
            assert(a[0] < b[0] || a[0] > b[0]);
        }
    } else if a.len() == 0 && b.len() == 0 {
        assert(a =~= b);
    }
}

pub proof fn lemma_key_lt_asymmetric(a: Seq<char>, b: Seq<char>)
    requires
        key_lt(a, b),
    ensures
        !key_lt(b, a),
{
    if key_lt(b, a) {
        lemma_key_lt_transitive(a, b, a);
        lemma_key_lt_irreflexive(a);
    }
}

/// Compare two names: negative, zero or positive as `a` sorts before,
/// equal to, or after `b`.
pub fn key_order(a: &str, b: &str) -> (r: i8)
    ensures
        r < 0 <==> key_lt(a@, b@),
        r == 0 <==> a@ == b@,
        r > 0 <==> key_lt(b@, a@),
{
    let ac = chars_of(a);
    let bc = chars_of(b);
    let mut i: usize = 0;
    proof {
        assert(a@.skip(0) =~= a@);
        assert(b@.skip(0) =~= b@);
    }
    while i < ac.len() && i < bc.len() && ac[i] == bc[i]
        invariant
            ac@ == a@,
            bc@ == b@,
            i <= ac.len(),
            i <= bc.len(),
            ac@.take(i as int) == bc@.take(i as int),
            key_lt(a@, b@) == key_lt(a@.skip(i as int), b@.skip(i as int)),
            key_lt(b@, a@) == key_lt(b@.skip(i as int), a@.skip(i as int)),
        decreases ac.len() - i,
    {
        proof {
            assert(a@.skip(i as int).drop_first() =~= a@.skip(i + 1));
            assert(b@.skip(i as int).drop_first() =~= b@.skip(i + 1));
            assert(ac@.take(i + 1) =~= ac@.take(i as int).push(ac@[i as int]));
            assert(bc@.take(i + 1) =~= bc@.take(i as int).push(bc@[i as int]));
        }
        i += 1;
    }
    proof {
        lemma_key_lt_irreflexive(a@);
        lemma_key_lt_total(a@, b@);
        if key_lt(a@, b@) {
            lemma_key_lt_asymmetric(a@, b@);
        }
    }
    if i == ac.len() && i == bc.len() {
        proof {
            assert(a@ =~= ac@.take(i as int));
            assert(b@ =~= bc@.take(i as int));
        }
        0
    } else if i == ac.len() {
        proof {
            assert(a@.skip(i as int).len() == 0);
            assert(a@ != b@);
        }
        -1
    } else if i == bc.len() {
        proof {
            assert(b@.skip(i as int).len() == 0);
            assert(a@ != b@);
        }
        1
    } else if ac[i] < bc[i] {
        proof {
            assert(a@.skip(i as int)[0] == ac@[i as int]);
            assert(b@.skip(i as int)[0] == bc@[i as int]);
            assert(a@[i as int] != b@[i as int]);
        }
        -1
    } else {
        proof {
            assert(a@.skip(i as int)[0] == ac@[i as int]);
            assert(b@.skip(i as int)[0] == bc@[i as int]);
            assert(a@[i as int] != b@[i as int]);
        }
        1
    }
}

/// Entries sorted by strictly ascending name (so each name occurs once).
pub open spec fn sorted_keys<V>(es: Seq<(Seq<char>, V)>) -> bool {
    forall|i: int, j: int| 0 <= i < j < es.len() ==> key_lt(#[trigger] es[i].0, #[trigger] es[j].0)
}

/// The index of the entry named `k`.
pub open spec fn find_key<V>(es: Seq<(Seq<char>, V)>, k: Seq<char>) -> Option<int> {
    crate::document::first_index(es, |e: (Seq<char>, V)| e.0 == k)
}

/// The value named `k`.
pub open spec fn lookup<V>(es: Seq<(Seq<char>, V)>, k: Seq<char>) -> Option<V> {
    match find_key(es, k) {
        Some(i) => Some(es[i].1),
        None => None,
    }
}

/// Where a new name goes: after every name that sorts before it.
pub open spec fn insert_pos<V>(es: Seq<(Seq<char>, V)>, k: Seq<char>) -> int {
    match crate::document::first_index(es, |e: (Seq<char>, V)| !key_lt(e.0, k)) {
        Some(i) => i,
        None => es.len() as int,
    }
}

/// The entries after setting `k` to `v` (`BTreeMap::insert`).
pub open spec fn insert_spec<V>(es: Seq<(Seq<char>, V)>, k: Seq<char>, v: V) -> Seq<(Seq<char>, V)> {
    match find_key(es, k) {
        Some(i) => es.update(i, (k, v)),
        None => es.insert(insert_pos(es, k), (k, v)),
    }
}

/// The entries after removing `k` (`BTreeMap::remove`).
pub open spec fn remove_spec<V>(es: Seq<(Seq<char>, V)>, k: Seq<char>) -> Seq<(Seq<char>, V)> {
    match find_key(es, k) {
        Some(i) => es.remove(i),
        None => es,
    }
}

/// A map from names to values, in ascending name order.
#[derive(Debug, PartialEq)]
pub struct NameMap<V: View> {
    entries: Vec<(String, V)>,
}

/// The view of a list of named entries.
pub open spec fn entries_view<V: View>(es: Seq<(String, V)>) -> Seq<(Seq<char>, V::V)> {
    es.map_values(|e: (String, V)| (e.0@, e.1@))
}

impl<V: View> View for NameMap<V> {
    type V = Seq<(Seq<char>, V::V)>;

    closed spec fn view(&self) -> Seq<(Seq<char>, V::V)> {
        entries_view(self.entries@)
    }
}

impl<V: View> NameMap<V> {
    #[verifier::type_invariant]
    closed spec fn wf(&self) -> bool {
        sorted_keys(self@)
    }

    pub fn new() -> (r: Self)
        ensures
            r@ == Seq::<(Seq<char>, V::V)>::empty(),
    {
        let r = NameMap { entries: Vec::new() };
        proof {
            assert(r@ =~= Seq::<(Seq<char>, V::V)>::empty());
        }
        r
    }

    pub fn len(&self) -> (r: usize)
        ensures
            r == self@.len(),
            sorted_keys(self@),
    {
        proof {
            use_type_invariant(self);
        }
        self.entries.len()
    }

    pub fn is_empty(&self) -> (r: bool)
        ensures
            r == (self@.len() == 0),
    {
        self.entries.len() == 0
    }

    /// The name of the `i`-th entry in order.
    pub fn key_at(&self, i: usize) -> (r: &String)
        requires
            i < self@.len(),
        ensures
            r@ == self@[i as int].0,
    {
        &self.entries[i].0
    }

    /// The value of the `i`-th entry in order.
    pub fn value_at(&self, i: usize) -> (r: &V)
        requires
            i < self@.len(),
        ensures
            r@ == self@[i as int].1,
    {
        &self.entries[i].1
    }

    /// Put `v` in place of the `i`-th value, handing back the value it replaces.
    pub fn replace_value_at(&mut self, i: usize, v: V) -> (r: V)
        requires
            i < old(self)@.len(),
        ensures
            final(self)@ == old(self)@.update(i as int, (old(self)@[i as int].0, v@)),
            r@ == old(self)@[i as int].1,
    {
        proof {
            use_type_invariant(&*self);
        }
        let ghost before = self@;
        let ghost vv = v@;
        let mut es: Vec<(String, V)> = Vec::new();
        std::mem::swap(&mut es, &mut self.entries);
        let (k, old_v) = es.remove(i);
        let ghost kv = k@;
        es.insert(i, (k, v));
        proof {
            let after = entries_view(es@);
            assert(before[i as int] == (kv, old_v@));
            assert(after =~= before.update(i as int, (kv, vv)));
            assert forall|a: int, b: int| 0 <= a < b < after.len() implies key_lt(
                #[trigger] after[a].0,
                #[trigger] after[b].0,
            ) by {
                assert(after[a].0 == before[a].0);
                assert(after[b].0 == before[b].0);
            }
        }
        self.entries = es;
        old_v
    }

    /// The position of the entry named `k`.
    pub fn index_of(&self, k: &str) -> (r: Option<usize>)
        ensures
            match r {
                Some(i) => i < self@.len() && self@[i as int].0 == k@ && find_key(self@, k@) == Some(i as int),
                None => find_key(self@, k@) is None,
            },
    {
        let ghost p = |e: (Seq<char>, V::V)| e.0 == k@;
        let mut i: usize = 0;
        while i < self.entries.len()
            invariant
                i <= self.entries.len(),
                p == (|e: (Seq<char>, V::V)| e.0 == k@),
                self@.len() == self.entries.len(),
                forall|j: int| 0 <= j < i ==> !p(#[trigger] self@[j]),
            decreases self.entries.len() - i,
        {
            proof {
                assert(self@[i as int] == (self.entries@[i as int].0@, self.entries@[i as int].1@));
            }
            if crate::text::str_eq(self.entries[i].0.as_str(), k) {
                proof {
                    crate::document::lemma_first_index(self@, p, i as int);
                }
                return Some(i);
            }
            i += 1;
        }
        proof {
            crate::document::lemma_first_index(self@, p, i as int);
        }
        None
    }

    pub fn get(&self, k: &str) -> (r: Option<&V>)
        ensures
            match r {
                Some(v) => lookup(self@, k@) == Some(v@),
                None => lookup(self@, k@) is None,
            },
            sorted_keys(self@),
    {
        proof {
            use_type_invariant(self);
        }
        match self.index_of(k) {
            Some(i) => Some(&self.entries[i].1),
            None => None,
        }
    }

    pub fn contains_key(&self, k: &str) -> (r: bool)
        ensures
            r == (lookup(self@, k@) is Some),
    {
        self.index_of(k).is_some()
    }

    /// Remove the entry named `k`, handing back its value.
    pub fn remove(&mut self, k: &str) -> (r: Option<V>)
        ensures
            final(self)@ == remove_spec(old(self)@, k@),
            match r {
                Some(v) => lookup(old(self)@, k@) == Some(v@),
                None => lookup(old(self)@, k@) is None,
            },
    {
        proof {
            use_type_invariant(&*self);
        }
        match self.index_of(k) {
            Some(i) => {
                let ghost before = self@;
                let ghost ents = self.entries@;
                let mut es: Vec<(String, V)> = Vec::new();
                std::mem::swap(&mut es, &mut self.entries);
                let e = es.remove(i);
                proof {
                    let after = entries_view(es@);
                    assert(after =~= before.remove(i as int));
                    assert forall|a: int, b: int|
                        0 <= a < b < after.len() implies key_lt(
                        #[trigger] after[a].0,
                        #[trigger] after[b].0,
                    ) by {
                        let a0 = if a < i {
                            a
                        } else {
                            a + 1
                        };
                        let b0 = if b < i {
                            b
                        } else {
                            b + 1
                        };
                        assert(after[a] == before[a0]);
                        assert(after[b] == before[b0]);
                    }
                    assert(before[i as int] == (ents[i as int].0@, ents[i as int].1@));
                }
                self.entries = es;
                Some(e.1)
            },
            None => None,
        }
    }

    /// Set the value named `k` (`BTreeMap::insert`): an existing entry is
    /// replaced in place, a new one goes where its name sorts.
    pub fn insert(&mut self, k: String, v: V)
        ensures
            final(self)@ == insert_spec(old(self)@, k@, v@),
            sorted_keys(final(self)@),
    {
        proof {
            use_type_invariant(&*self);
        }
        let ghost kv = k@;
        let ghost vv = v@;
        match self.index_of(k.as_str()) {
            Some(i) => {
                let ghost before = self@;
                let mut es: Vec<(String, V)> = Vec::new();
                std::mem::swap(&mut es, &mut self.entries);
                es.set(i, (k, v));
                proof {
                    let after = entries_view(es@);
                    assert(after =~= before.update(i as int, (kv, vv)));
                    assert forall|a: int, b: int|
                        0 <= a < b < after.len() implies key_lt(
                        #[trigger] after[a].0,
                        #[trigger] after[b].0,
                    ) by {
                        assert(after[a].0 == before[a].0);
                        assert(after[b].0 == before[b].0);
                    }
                }
                self.entries = es;
            },
            None => {
                let ghost before = self@;
                let ghost p = |e: (Seq<char>, V::V)| !key_lt(e.0, kv);
                let mut pos: usize = 0;
                while pos < self.entries.len() && key_order(self.entries[pos].0.as_str(), k.as_str())
                    < 0
                    invariant
                        pos <= self.entries.len(),
                        self@ == before,
                        self@.len() == self.entries.len(),
                        kv == k@,
                        p == (|e: (Seq<char>, V::V)| !key_lt(e.0, kv)),
                        forall|j: int| 0 <= j < pos ==> !p(#[trigger] self@[j]),
                    decreases self.entries.len() - pos,
                {
                    proof {
                        assert(self@[pos as int] == (
                            self.entries@[pos as int].0@,
                            self.entries@[pos as int].1@,
                        ));
                    }
                    pos += 1;
                }
                proof {
                    if pos < self.entries.len() {
                        assert(self@[pos as int] == (
                            self.entries@[pos as int].0@,
                            self.entries@[pos as int].1@,
                        ));
                    }
                    crate::document::lemma_first_index(self@, p, pos as int);
                    assert(insert_pos(before, kv) == pos);
                }
                let mut es: Vec<(String, V)> = Vec::new();
                std::mem::swap(&mut es, &mut self.entries);
                es.insert(pos, (k, v));
                proof {
                    let after = before.insert(pos as int, (kv, vv));
                    assert(entries_view(es@) =~= after);
                    assert forall|j: int| 0 <= j < before.len() implies before[j].0 != kv by {
                        if before[j].0 == kv {
                            assert(find_key(before, kv) is Some) by {
                                lemma_find_some(before, kv, j);
                            }
                        }
                    }
                    assert forall|a: int, b: int|
                        0 <= a < b < after.len() implies key_lt(
                        #[trigger] after[a].0,
                        #[trigger] after[b].0,
                    ) by {
                        if a < pos && b < pos {
                            assert(after[a] == before[a]);
                            assert(after[b] == before[b]);
                        } else if a < pos && b == pos {
                            assert(after[a] == before[a]);
                            assert(!p(before[a]));
                        } else if a < pos && b > pos {
                            assert(after[a] == before[a]);
                            assert(after[b] == before[b - 1]);
                            assert(!p(before[a]));
                            assert(key_lt(before[a].0, before[b - 1].0));
                        } else if a == pos {
                            assert(after[b] == before[b - 1]);
                            assert(p(before[pos as int]));
                            lemma_key_lt_total(kv, before[pos as int].0);
                            if b - 1 > pos {
                                assert(key_lt(before[pos as int].0, before[b - 1].0));
                                lemma_key_lt_transitive(kv, before[pos as int].0, before[b - 1].0);
                            }
                        } else {
                            assert(after[a] == before[a - 1]);
                            assert(after[b] == before[b - 1]);
                        }
                    }
                }
                self.entries = es;
            },
        }
        proof {
            use_type_invariant(&*self);
        }
    }
}

impl<V: View + Clone> Clone for NameMap<V> {
    /// A copy with the same names, in the same order; each value is the
    /// value's own `clone`.
    fn clone(&self) -> (r: Self)
        ensures
            r@.len() == self@.len(),
            forall|i: int| 0 <= i < self@.len() ==> #[trigger] r@[i].0 == self@[i].0,
    {
        proof {
            use_type_invariant(self);
        }
        let mut es: Vec<(String, V)> = Vec::new();
        let mut i: usize = 0;
        while i < self.entries.len()
            invariant
                i <= self.entries.len(),
                es@.len() == i,
                self@.len() == self.entries.len(),
                sorted_keys(self@),
                forall|j: int| 0 <= j < i ==> #[trigger] es@[j].0@ == self@[j].0,
            decreases self.entries.len() - i,
        {
            proof {
                assert(self@[i as int].0 == self.entries@[i as int].0@);
            }
            let k = self.entries[i].0.clone();
            let v = self.entries[i].1.clone();
            es.push((k, v));
            i += 1;
        }
        proof {
            assert forall|a: int, b: int| 0 <= a < b < entries_view(es@).len() implies key_lt(
                #[trigger] entries_view(es@)[a].0,
                #[trigger] entries_view(es@)[b].0,
            ) by {
                assert(entries_view(es@)[a].0 == es@[a].0@);
                assert(entries_view(es@)[b].0 == es@[b].0@);
            }
        }
        NameMap { entries: es }
    }
}

/// A name found at index `j` means `find_key` finds something.
pub proof fn lemma_find_some<V>(es: Seq<(Seq<char>, V)>, k: Seq<char>, j: int)
    requires
        0 <= j < es.len(),
        es[j].0 == k,
    ensures
        find_key(es, k) is Some,
    decreases j,
{
    if j > 0 && es[0].0 != k {
        assert(es.drop_first()[j - 1] == es[j]);
        lemma_find_some(es.drop_first(), k, j - 1);
    }
}

/// No entry carries a name `find_key` does not find.
pub proof fn lemma_find_none<V>(es: Seq<(Seq<char>, V)>, k: Seq<char>)
    requires
        find_key(es, k) is None,
    ensures
        forall|j: int| 0 <= j < es.len() ==> (#[trigger] es[j]).0 != k,
{
    assert forall|j: int| 0 <= j < es.len() implies (#[trigger] es[j]).0 != k by {
        if es[j].0 == k {
            lemma_find_some(es, k, j);
        }
    }
}

/// What `find_key` finds is an entry with that name.
pub proof fn lemma_find_found<V>(es: Seq<(Seq<char>, V)>, k: Seq<char>)
    ensures
        find_key(es, k) matches Some(i) ==> 0 <= i < es.len() && es[i].0 == k,
    decreases es.len(),
{
    if es.len() > 0 && es[0].0 != k {
        lemma_find_found(es.drop_first(), k);
        if let Some(i) = find_key(es.drop_first(), k) {
            assert(es.drop_first()[i] == es[i + 1]);
        }
    }
}

/// In sorted entries a name occurs once: `find_key` finds exactly where it is.
pub proof fn lemma_find_unique<V>(es: Seq<(Seq<char>, V)>, k: Seq<char>, j: int)
    requires
        sorted_keys(es),
        0 <= j < es.len(),
        es[j].0 == k,
    ensures
        find_key(es, k) == Some(j),
{
    lemma_find_some(es, k, j);
    lemma_find_found(es, k);
    let i = find_key(es, k)->0;
    if i != j {
        if i < j {
            assert(key_lt(es[i].0, es[j].0));
        } else {
            assert(key_lt(es[j].0, es[i].0));
        }
        lemma_key_lt_irreflexive(k);
    }
}

/// `insert_pos` is a position in (or at the end of) the entries.
pub proof fn lemma_insert_pos_range<V>(es: Seq<(Seq<char>, V)>, k: Seq<char>)
    ensures
        0 <= insert_pos(es, k) <= es.len(),
    decreases es.len(),
{
    if es.len() > 0 && key_lt(es[0].0, k) {
        lemma_insert_pos_range(es.drop_first(), k);
    }
}

/// After `insert_spec`: the name maps to the new value, and every entry
/// under another name was there before.
pub proof fn lemma_insert_spec_facts<V>(es: Seq<(Seq<char>, V)>, k: Seq<char>, v: V)
    requires
        sorted_keys(es),
    ensures
        forall|i: int|
            0 <= i < insert_spec(es, k, v).len() && (#[trigger] insert_spec(es, k, v)[i]).0 == k
                ==> insert_spec(es, k, v)[i].1 == v,
        forall|i: int|
            0 <= i < insert_spec(es, k, v).len() && (#[trigger] insert_spec(es, k, v)[i]).0 != k
                ==> exists|j: int| 0 <= j < es.len() && es[j] == insert_spec(es, k, v)[i],
{
    lemma_find_found(es, k);
    lemma_insert_pos_range(es, k);
    let r = insert_spec(es, k, v);
    match find_key(es, k) {
        Some(f) => {
            assert forall|i: int| 0 <= i < r.len() && (#[trigger] r[i]).0 == k implies r[i].1 == v by {
                if i != f {
                    assert(r[i] == es[i]);
                    lemma_find_unique(es, k, i);
                }
            }
            assert forall|i: int| 0 <= i < r.len() && (#[trigger] r[i]).0 != k implies exists|j: int|
                0 <= j < es.len() && es[j] == r[i] by {
                assert(es[i] == r[i]);
            }
        },
        None => {
            lemma_find_none(es, k);
            let pos = insert_pos(es, k);
            assert forall|i: int| 0 <= i < r.len() && (#[trigger] r[i]).0 == k implies r[i].1 == v by {
                if i < pos {
                    assert(r[i] == es[i]);
                } else if i > pos {
                    assert(r[i] == es[i - 1]);
                }
            }
            assert forall|i: int| 0 <= i < r.len() && (#[trigger] r[i]).0 != k implies exists|j: int|
                0 <= j < es.len() && es[j] == r[i] by {
                if i < pos {
                    assert(es[i] == r[i]);
                } else if i > pos {
                    assert(es[i - 1] == r[i]);
                }
            }
        },
    }
}

/// After setting a name, `find_key` finds it, and changing the value found
/// there is the same as having set the changed value in the first place.
pub proof fn lemma_insert_then_update<V>(es: Seq<(Seq<char>, V)>, k: Seq<char>, v: V, v2: V)
    requires
        sorted_keys(es),
    ensures
        find_key(insert_spec(es, k, v), k) matches Some(i) && 0 <= i < insert_spec(es, k, v).len()
            && insert_spec(es, k, v)[i] == (k, v)
            && insert_spec(es, k, v).update(i, (k, v2)) == insert_spec(es, k, v2),
{
    let r = insert_spec(es, k, v);
    lemma_find_found(es, k);
    lemma_insert_pos_range(es, k);
    match find_key(es, k) {
        Some(f) => {
            lemma_find_some(r, k, f);
            lemma_find_found(r, k);
            let i = find_key(r, k)->0;
            if i != f {
                assert(r[i] == es[i]);
                lemma_find_unique(es, k, i);
            }
            assert(r.update(f, (k, v2)) =~= es.update(f, (k, v2)));
        },
        None => {
            lemma_find_none(es, k);
            let pos = insert_pos(es, k);
            assert(r[pos] == (k, v));
            lemma_find_some(r, k, pos);
            lemma_find_found(r, k);
            let i = find_key(r, k)->0;
            if i < pos {
                assert(r[i] == es[i]);
            } else if i > pos {
                assert(r[i] == es[i - 1]);
            }
            assert(r.update(pos, (k, v2)) =~= es.insert(pos, (k, v2)));
        },
    }
}

/// Removing a name from sorted entries leaves no entry with it.
pub proof fn lemma_remove_spec_gone<V>(es: Seq<(Seq<char>, V)>, k: Seq<char>)
    requires
        sorted_keys(es),
    ensures
        lookup(remove_spec(es, k), k) is None,
        sorted_keys(remove_spec(es, k)),
{
    lemma_find_found(es, k);
    let r = remove_spec(es, k);
    match find_key(es, k) {
        Some(f) => {
            assert forall|i: int| 0 <= i < r.len() implies (#[trigger] r[i]).0 != k by {
                let i0 = if i < f {
                    i
                } else {
                    i + 1
                };
                assert(r[i] == es[i0]);
                if es[i0].0 == k {
                    lemma_find_unique(es, k, i0);
                }
            }
            assert forall|a: int, b: int| 0 <= a < b < r.len() implies key_lt(
                #[trigger] r[a].0,
                #[trigger] r[b].0,
            ) by {
                let a0 = if a < f {
                    a
                } else {
                    a + 1
                };
                let b0 = if b < f {
                    b
                } else {
                    b + 1
                };
                assert(r[a] == es[a0]);
                assert(r[b] == es[b0]);
            }
            if find_key(r, k) is Some {
                lemma_find_found(r, k);
            }
        },
        None => {
            lemma_find_none(es, k);
            if find_key(r, k) is Some {
                lemma_find_found(r, k);
            }
        },
    }
}

/// Reading a name back after setting it gives the value set; every other
/// name reads as before.
pub proof fn lemma_insert_lookup<V>(es: Seq<(Seq<char>, V)>, k: Seq<char>, v: V, k2: Seq<char>)
    requires
        sorted_keys(es),
    ensures
        lookup(insert_spec(es, k, v), k) == Some(v),
        k2 != k ==> lookup(insert_spec(es, k, v), k2) == lookup(es, k2),
{
    let r = insert_spec(es, k, v);
    lemma_find_found(es, k);
    lemma_insert_pos_range(es, k);
    match find_key(es, k) {
        Some(f) => {
            assert(r[f].0 == k);
            lemma_find_some(r, k, f);
            lemma_find_found(r, k);
            let i = find_key(r, k)->0;
            if i != f {
                assert(r[i] == es[i]);
                lemma_find_unique(es, k, i);
            }
        },
        None => {
            lemma_find_none(es, k);
            let pos = insert_pos(es, k);
            assert(r[pos] == (k, v));
            lemma_find_some(r, k, pos);
            lemma_find_found(r, k);
            let i = find_key(r, k)->0;
            if i < pos {
                assert(r[i] == es[i]);
            } else if i > pos {
                assert(r[i] == es[i - 1]);
            }
        },
    }
    if k2 != k {
        lemma_find_found(es, k2);
        lemma_find_found(r, k2);
        let pos = match find_key(es, k) {
            Some(f) => f,
            None => insert_pos(es, k),
        };
        // where an entry of `r` other than the one set comes from in `es`
        match find_key(r, k2) {
            Some(i) => {
                let i0 = match find_key(es, k) {
                    Some(f) => i,
                    None => if i < pos {
                        i
                    } else {
                        i - 1
                    },
                };
                if find_key(es, k) is None {
                    if i < pos {
                        assert(r[i] == es[i]);
                    } else {
                        assert(i != pos);
                        assert(r[i] == es[i - 1]);
                    }
                } else {
                    assert(r[i] == es[i]);
                }
                lemma_find_unique(es, k2, i0);
            },
            None => {
                lemma_find_none(r, k2);
                if let Some(j) = find_key(es, k2) {
                    let j1 = match find_key(es, k) {
                        Some(f) => j,
                        None => if j < pos {
                            j
                        } else {
                            j + 1
                        },
                    };
                    assert(r[j1] == es[j]);
                }
            },
        }
    }
}


/// Setting a name greater than every name present appends it.
pub proof fn lemma_insert_at_end<V>(es: Seq<(Seq<char>, V)>, k: Seq<char>, v: V)
    requires
        sorted_keys(es),
        forall|i: int| 0 <= i < es.len() ==> key_lt(#[trigger] es[i].0, k),
    ensures
        insert_spec(es, k, v) == es.push((k, v)),
        sorted_keys(es.push((k, v))),
{
    lemma_find_found(es, k);
    if let Some(i) = find_key(es, k) {
        assert(key_lt(es[i].0, k));
        lemma_key_lt_irreflexive(k);
    }
    let p = |e: (Seq<char>, V)| !key_lt(e.0, k);
    assert forall|j: int| 0 <= j < es.len() implies !p(#[trigger] es[j]) by {
        assert(key_lt(es[j].0, k));
    }
    crate::document::lemma_first_index(es, p, es.len() as int);
    let r = es.push((k, v));
    assert forall|a: int, b: int| 0 <= a < b < r.len() implies key_lt(#[trigger] r[a].0, #[trigger] r[b].0) by {
        if b == es.len() {
            assert(r[a] == es[a]);
        } else {
            assert(r[a] == es[a]);
            assert(r[b] == es[b]);
        }
    }
}

} // verus!

//! A table from names to values, kept in the order of the names.

use crate::text::chars_of;
use vstd::prelude::*;

verus! {

/// Whether `a` comes before `b` in the order of their characters, looking
/// from place `i` on: the first place at which they differ decides, and a
/// text that ends comes before one that goes on.
pub open spec fn lt_from(a: Seq<char>, b: Seq<char>, i: int) -> bool
    decreases a.len() - i,
{
    if i < 0 || i >= b.len() {
        false
    } else if i >= a.len() {
        true
    } else if a[i] != b[i] {
        a[i] < b[i]
    } else {
        lt_from(a, b, i + 1)
    }
}

/// Whether `a` comes before `b` in the order of their characters.
pub open spec fn text_lt(a: Seq<char>, b: Seq<char>) -> bool {
    lt_from(a, b, 0)
}

/// The names of the entries rise from each entry to the next.
pub open spec fn rising<V>(e: Seq<(Seq<char>, V)>) -> bool {
    forall|i: int, j: int| 0 <= i < j < e.len() ==> text_lt(#[trigger] e[i].0, #[trigger] e[j].0)
}

/// The place of the entry named `name`, if there is one.
pub open spec fn place_of<V>(e: Seq<(Seq<char>, V)>, name: Seq<char>) -> Option<int>
    decreases e.len(),
{
    if e.len() == 0 {
        None
    } else if e.last().0 == name {
        Some(e.len() - 1)
    } else {
        place_of(e.drop_last(), name)
    }
}

/// The value of the entry named `name`, if there is one.
pub open spec fn value_of<V>(e: Seq<(Seq<char>, V)>, name: Seq<char>) -> Option<V> {
    match place_of(e, name) {
        Some(i) => Some(e[i].1),
        None => None,
    }
}

/// The number of entries whose name comes before `name`.
pub open spec fn rank<V>(e: Seq<(Seq<char>, V)>, name: Seq<char>) -> int
    decreases e.len(),
{
    if e.len() == 0 {
        0
    } else {
        rank(e.drop_last(), name) + if text_lt(e.last().0, name) {
            1int
        } else {
            0int
        }
    }
}

/// The entries once `name` has the value `value`: in place of the entry of
/// that name if there is one, else at the place that keeps the names rising.
pub open spec fn put<V>(e: Seq<(Seq<char>, V)>, name: Seq<char>, value: V) -> Seq<(Seq<char>, V)> {
    let at = rank(e, name);
    if place_of(e, name) is Some {
        e.update(place_of(e, name).unwrap(), (name, value))
    } else {
        e.take(at).push((name, value)) + e.skip(at)
    }
}

/// The values of the entries, in the order of the names.
pub open spec fn values_of<V>(e: Seq<(Seq<char>, V)>) -> Seq<V> {
    Seq::new(e.len(), |i: int| e[i].1)
}

/// No text comes before itself.
pub proof fn lemma_lt_irreflexive(a: Seq<char>, i: int)
    ensures
        !lt_from(a, a, i),
    decreases a.len() - i,
{
    if 0 <= i < a.len() {
        lemma_lt_irreflexive(a, i + 1);
    }
}

/// Of two texts at most one comes before the other.
pub proof fn lemma_lt_asymmetric(a: Seq<char>, b: Seq<char>, i: int)
    requires
        lt_from(a, b, i),
    ensures
        !lt_from(b, a, i),
    decreases a.len() - i,
{
    if 0 <= i < a.len() && i < b.len() && a[i] == b[i] {
        lemma_lt_asymmetric(a, b, i + 1);
    }
}

/// What comes before a text comes before everything that the text comes before.
pub proof fn lemma_lt_transitive(a: Seq<char>, b: Seq<char>, c: Seq<char>, i: int)
    requires
        lt_from(a, b, i),
        lt_from(b, c, i),
    ensures
        lt_from(a, c, i),
    decreases a.len() - i,
{
    if 0 <= i < a.len() && a[i] == b[i] && b[i] == c[i] {
        lemma_lt_transitive(a, b, c, i + 1);
    }
}

/// How two texts stand to each other.
#[derive(Clone, Copy, Debug, PartialEq, Eq)]
pub enum Rank {
    Before,
    Same,
    After,
}

/// How `a` stands to `b` in the order of their characters.
pub fn rank_texts(a: &str, b: &str) -> (r: Rank)
    ensures
        r == Rank::Before <==> text_lt(a@, b@),
        r == Rank::Same <==> a@ == b@,
        r == Rank::After <==> text_lt(b@, a@),
{
    let x = chars_of(a);
    let y = chars_of(b);
    let mut i: usize = 0;
    while i < x.len() && i < y.len()
        invariant
            i <= x.len(),
            i <= y.len(),
            x@ == a@,
            y@ == b@,
            lt_from(a@, b@, i as int) == text_lt(a@, b@),
            lt_from(b@, a@, i as int) == text_lt(b@, a@),
            forall|k: int| 0 <= k < i ==> x@[k] == y@[k],
        decreases x.len() - i,
    {
        if x[i] < y[i] {
            proof {
                lemma_lt_asymmetric(a@, b@, 0);
                assert(a@ != b@);
            }
            return Rank::Before;
        }
        if x[i] > y[i] {
            proof {
                lemma_lt_asymmetric(b@, a@, 0);
                assert(a@ != b@);
            }
            return Rank::After;
        }
        i = i + 1;
    }
    if x.len() < y.len() {
        proof {
            lemma_lt_asymmetric(a@, b@, 0);
        }
        Rank::Before
    } else if x.len() > y.len() {
        proof {
            lemma_lt_asymmetric(b@, a@, 0);
        }
        Rank::After
    } else {
        proof {
            assert(a@ =~= b@);
            lemma_lt_irreflexive(a@, 0);
        }
        Rank::Same
    }
}

/// In rising entries, the entries before place `at` are those whose name
/// comes before `name`, where none of them at or after `at` does.
pub proof fn lemma_rank<V>(e: Seq<(Seq<char>, V)>, name: Seq<char>, at: int)
    requires
        0 <= at <= e.len(),
        forall|j: int| 0 <= j < at ==> text_lt(#[trigger] e[j].0, name),
        forall|j: int| at <= j < e.len() ==> !text_lt(#[trigger] e[j].0, name),
    ensures
        rank(e, name) == at,
    decreases e.len(),
{
    if e.len() > 0 {
        let init = e.drop_last();
        if at == e.len() {
            assert forall|j: int| 0 <= j < at - 1 implies text_lt(#[trigger] init[j].0, name) by {
                assert(init[j] == e[j]);
            }
            assert(text_lt(e[e.len() - 1].0, name));
            lemma_rank(init, name, at - 1);
        } else {
            assert forall|j: int| 0 <= j < at implies text_lt(#[trigger] init[j].0, name) by {
                assert(init[j] == e[j]);
            }
            assert forall|j: int| at <= j < init.len() implies !text_lt(
                #[trigger] init[j].0,
                name,
            ) by {
                assert(init[j] == e[j]);
            }
            assert(!text_lt(e[e.len() - 1].0, name));
            lemma_rank(init, name, at);
        }
    }
}

/// The place of a name is the place of the one entry that has the name.
pub proof fn lemma_place_of<V>(e: Seq<(Seq<char>, V)>, name: Seq<char>)
    requires
        rising(e),
    ensures
        match place_of(e, name) {
            Some(i) => 0 <= i < e.len() && e[i].0 == name,
            None => forall|j: int| 0 <= j < e.len() ==> (#[trigger] e[j]).0 != name,
        },
    decreases e.len(),
{
    if e.len() > 0 && e.last().0 != name {
        let init = e.drop_last();
        assert forall|i: int, j: int| 0 <= i < j < init.len() implies text_lt(
            #[trigger] init[i].0,
            #[trigger] init[j].0,
        ) by {
            assert(init[i] == e[i] && init[j] == e[j]);
        }
        lemma_place_of(init, name);
        match place_of(init, name) {
            Some(i) => {
                assert(init[i] == e[i]);
            },
            None => {
                assert forall|j: int| 0 <= j < e.len() implies (#[trigger] e[j]).0 != name by {
                    if j < init.len() {
                        assert(init[j] == e[j]);
                    }
                }
            },
        }
    }
}

/// An entry of rising entries is found under its name, at its place.
pub proof fn lemma_place_found<V>(e: Seq<(Seq<char>, V)>, at: int)
    requires
        rising(e),
        0 <= at < e.len(),
    ensures
        place_of(e, e[at].0) == Some(at),
{
    lemma_place_of(e, e[at].0);
    let i = place_of(e, e[at].0).unwrap();
    if i < at {
        assert(text_lt(e[i].0, e[at].0));
        lemma_lt_irreflexive(e[at].0, 0);
    } else if at < i {
        assert(text_lt(e[at].0, e[i].0));
        lemma_lt_irreflexive(e[at].0, 0);
    }
}

/// A table from names to values. The entries stand in the order of their
/// names, and no name stands twice.
#[derive(Debug)]
pub struct Table<V> {
    entries: Vec<(String, V)>,
}

/// A run of entries by the texts of their names and the contents of their values.
pub open spec fn named<V: View>(entries: Seq<(String, V)>) -> Seq<(Seq<char>, V::V)> {
    Seq::new(entries.len(), |i: int| (entries[i].0@, entries[i].1@))
}

impl<V: View> View for Table<V> {
    type V = Seq<(Seq<char>, V::V)>;

    /// The entries, in the order of the names.
    closed spec fn view(&self) -> Seq<(Seq<char>, V::V)> {
        named(self.entries@)
    }
}

/// A run of entries by the texts of their names alone.
pub open spec fn keyed<V>(entries: Seq<(String, V)>) -> Seq<(Seq<char>, ())> {
    Seq::new(entries.len(), |i: int| (entries[i].0@, ()))
}

/// Entries with the same names rise together.
pub proof fn lemma_rising_by_names<A, B>(a: Seq<(Seq<char>, A)>, b: Seq<(Seq<char>, B)>)
    requires
        a.len() == b.len(),
        forall|i: int| 0 <= i < a.len() ==> (#[trigger] a[i]).0 == b[i].0,
        rising(a),
    ensures
        rising(b),
{
    assert forall|i: int, j: int| 0 <= i < j < b.len() implies text_lt(
        #[trigger] b[i].0,
        #[trigger] b[j].0,
    ) by {
        assert(a[i].0 == b[i].0 && a[j].0 == b[j].0);
        assert(text_lt(a[i].0, a[j].0));
    }
}

impl<V> Table<V> {
    #[verifier::type_invariant]
    spec fn well_formed(&self) -> bool {
        rising(keyed(self.entries@))
    }
}

impl<V: View> Table<V> {
    proof fn lemma_rising(&self)
        requires
            rising(keyed(self.entries@)),
        ensures
            rising(self@),
    {
        lemma_rising_by_names(keyed(self.entries@), named(self.entries@));
    }

    /// A table without entries.
    pub fn new() -> (t: Self)
        ensures
            t@.len() == 0,
    {
        Table { entries: Vec::new() }
    }

    /// The number of entries.
    pub fn len(&self) -> (n: usize)
        ensures
            n == self@.len(),
            rising(self@),
    {
        proof {
            use_type_invariant(self);
            self.lemma_rising();
        }
        self.entries.len()
    }

    /// The name of the entry at place `i`.
    pub fn name_at(&self, i: usize) -> (name: &String)
        requires
            i < self@.len(),
        ensures
            name@ == self@[i as int].0,
    {
        &self.entries[i].0
    }

    /// The value of the entry at place `i`.
    pub fn value_at(&self, i: usize) -> (value: &V)
        requires
            i < self@.len(),
        ensures
            value@ == self@[i as int].1,
    {
        &self.entries[i].1
    }

    /// The place of the entry named `name`, if there is one.
    pub fn position(&self, name: &str) -> (r: Option<usize>)
        ensures
            match r {
                Some(i) => place_of(self@, name@) == Some(i as int) && i < self@.len(),
                None => place_of(self@, name@) is None,
            },
    {
        proof {
            use_type_invariant(self);
            self.lemma_rising();
            lemma_place_of(self@, name@);
        }
        let mut i: usize = 0;
        while i < self.entries.len()
            invariant
                i <= self.entries.len(),
                rising(self@),
                self@ == named(self.entries@),
                forall|j: int| 0 <= j < i ==> (#[trigger] self@[j]).0 != name@,
            decreases self.entries.len() - i,
        {
            match rank_texts(self.entries[i].0.as_str(), name) {
                Rank::Same => {
                    proof {
                        lemma_place_found(self@, i as int);
                    }
                    return Some(i);
                },
                _ => {},
            }
            i = i + 1;
        }
        None
    }

    /// The value of the entry named `name`, if there is one.
    pub fn get(&self, name: &str) -> (r: Option<&V>)
        ensures
            match r {
                Some(v) => value_of(self@, name@) == Some(v@),
                None => value_of(self@, name@) is None,
            },
    {
        match self.position(name) {
            Some(i) => Some(&self.entries[i].1),
            None => None,
        }
    }

    /// Gives `name` the value `value`, and hands back the value that it had.
    pub fn insert(&mut self, name: String, value: V) -> (old_value: Option<V>)
        ensures
            final(self)@ == put(old(self)@, name@, value@),
            match old_value {
                Some(v) => value_of(old(self)@, name@) == Some(v@),
                None => value_of(old(self)@, name@) is None,
            },
    {
        proof {
            use_type_invariant(&*self);
            self.lemma_rising();
            lemma_place_of(self@, name@);
        }
        let ghost before = self@;
        let mut taken = Table { entries: Vec::new() };
        std::mem::swap(self, &mut taken);
        let mut entries = taken.entries;
        assert(named(entries@) == before);
        let mut i: usize = 0;
        while i < entries.len()
            invariant
                i <= entries.len(),
                rising(before),
                before == named(entries@),
                before == old(self)@,
                forall|j: int| 0 <= j < i ==> text_lt(#[trigger] before[j].0, name@),
            decreases entries.len() - i,
        {
            match rank_texts(entries[i].0.as_str(), name.as_str()) {
                Rank::Before => {},
                Rank::Same => {
                    proof {
                        lemma_place_found(before, i as int);
                    }
                    let ghost new_name = name@;
                    let ghost new_value = value@;
                    entries.push((name, value));
                    let old_entry = entries.swap_remove(i);
                    proof {
                        assert(named(entries@) =~= before.update(i as int, (new_name, new_value)));
                        assert forall|a: int, b: int|
                            0 <= a < b < named(entries@).len() implies text_lt(
                            #[trigger] named(entries@)[a].0,
                            #[trigger] named(entries@)[b].0,
                        ) by {
                            assert(named(entries@)[a].0 == before[a].0);
                            assert(named(entries@)[b].0 == before[b].0);
                        }
                    }
                    proof {
                        lemma_rising_by_names(named(entries@), keyed(entries@));
                    }
                    self.entries = entries;
                    return Some(old_entry.1);
                },
                Rank::After => {
                    proof {
                        assert forall|j: int| i <= j < before.len() implies !text_lt(
                            #[trigger] before[j].0,
                            name@,
                        ) by {
                            if j > i {
                                assert(text_lt(before[i as int].0, before[j].0));
                                lemma_lt_transitive(name@, before[i as int].0, before[j].0, 0);
                            }
                            lemma_lt_asymmetric(name@, before[j].0, 0);
                        }
                        lemma_rank(before, name@, i as int);
                        assert forall|j: int| 0 <= j < before.len() implies (
                        #[trigger] before[j]).0 != name@ by {
                            lemma_lt_irreflexive(name@, 0);
                            if j > i {
                                assert(text_lt(before[i as int].0, before[j].0));
                                lemma_lt_transitive(name@, before[i as int].0, before[j].0, 0);
                            }
                        }
                        lemma_place_of(before, name@);
                    }
                    let ghost new_name = name@;
                    let ghost new_value = value@;
                    entries.insert(i, (name, value));
                    proof {
                        let now = named(entries@);
                        assert(now =~= before.take(i as int).push((new_name, new_value))
                            + before.skip(i as int));
                        assert forall|a: int, b: int| 0 <= a < b < now.len() implies text_lt(
                            #[trigger] now[a].0,
                            #[trigger] now[b].0,
                        ) by {
                            if b < i {
                                assert(now[a] == before[a] && now[b] == before[b]);
                            } else if b == i {
                                assert(now[a] == before[a]);
                            } else if a == i {
                                assert(now[b] == before[b - 1]);
                                if b - 1 > i {
                                    assert(text_lt(before[i as int].0, before[b - 1].0));
                                    lemma_lt_transitive(
                                        new_name,
                                        before[i as int].0,
                                        before[b - 1].0,
                                        0,
                                    );
                                }
                            } else if a < i {
                                assert(now[a] == before[a] && now[b] == before[b - 1]);
                            } else {
                                assert(now[a] == before[a - 1] && now[b] == before[b - 1]);
                            }
                        }
                    }
                    proof {
                        lemma_rising_by_names(named(entries@), keyed(entries@));
                    }
                    self.entries = entries;
                    return None;
                },
            }
            i = i + 1;
        }
        proof {
            lemma_rank(before, name@, before.len() as int);
            assert forall|j: int| 0 <= j < before.len() implies (#[trigger] before[j]).0
                != name@ by {
                lemma_lt_irreflexive(name@, 0);
            }
            lemma_place_of(before, name@);
        }
        let ghost new_name = name@;
        let ghost new_value = value@;
        entries.push((name, value));
        proof {
            let now = named(entries@);
            assert(before.skip(before.len() as int) =~= Seq::<(Seq<char>, V::V)>::empty());
            assert(before.take(before.len() as int) =~= before);
            assert(now =~= before.take(before.len() as int).push((new_name, new_value))
                + before.skip(before.len() as int));
            assert forall|a: int, b: int| 0 <= a < b < now.len() implies text_lt(
                #[trigger] now[a].0,
                #[trigger] now[b].0,
            ) by {
                assert(now[a] == before[a]);
                if b < before.len() {
                    assert(now[b] == before[b]);
                }
            }
        }
        proof {
            lemma_rising_by_names(named(entries@), keyed(entries@));
        }
        self.entries = entries;
        None
    }

    /// Puts `value` in place of the value at place `i`, and hands back the
    /// value that stood there. The names stay as they are.
    pub fn replace_at(&mut self, i: usize, value: V) -> (old_value: V)
        requires
            i < old(self)@.len(),
        ensures
            final(self)@ == old(self)@.update(i as int, (old(self)@[i as int].0, value@)),
            old_value@ == old(self)@[i as int].1,
    {
        proof {
            use_type_invariant(&*self);
            self.lemma_rising();
        }
        let ghost before = self@;
        let ghost new_value = value@;
        let mut taken = Table { entries: Vec::new() };
        std::mem::swap(self, &mut taken);
        let mut entries = taken.entries;
        let (name, old_value) = entries.swap_remove(i);
        entries.push((name, value));
        let n = entries.len();
        if i < n - 1 {
            let moved = entries.swap_remove(i);
            entries.push(moved);
        }
        proof {
            let now = named(entries@);
            assert(now =~= before.update(i as int, (before[i as int].0, new_value)));
            assert forall|a: int, b: int| 0 <= a < b < now.len() implies text_lt(
                #[trigger] now[a].0,
                #[trigger] now[b].0,
            ) by {
                assert(now[a].0 == before[a].0);
                assert(now[b].0 == before[b].0);
            }
        }
        proof {
            lemma_rising_by_names(named(entries@), keyed(entries@));
        }
        self.entries = entries;
        old_value
    }
}

impl<V: View> Default for Table<V> {
    fn default() -> (t: Self)
        ensures
            t@.len() == 0,
    {
        Table::new()
    }
}

/// Values that can be copied with their contents.
pub trait Duplicate: View + Sized {
    /// A copy with the same contents.
    fn duplicate(&self) -> (copy: Self)
        ensures
            copy@ == self@,
    ;
}

impl<V: Duplicate> Duplicate for Table<V> {
    fn duplicate(&self) -> (copy: Self) {
        proof {
            use_type_invariant(self);
        }
        let mut entries: Vec<(String, V)> = Vec::new();
        let mut i: usize = 0;
        while i < self.entries.len()
            invariant
                i <= self.entries.len(),
                entries@.len() == i,
                forall|k: int|
                    0 <= k < i ==> (#[trigger] entries@[k]).0@ == self.entries@[k].0@
                        && entries@[k].1@ == self.entries@[k].1@,
            decreases self.entries.len() - i,
        {
            entries.push((self.entries[i].0.clone(), self.entries[i].1.duplicate()));
            i = i + 1;
        }
        proof {
            assert(named(entries@) =~= named(self.entries@));
            lemma_rising_by_names(keyed(self.entries@), keyed(entries@));
        }
        Table { entries }
    }
}

impl<V: Duplicate> Clone for Table<V> {
    fn clone(&self) -> (copy: Self)
        ensures
            copy@ == self@,
    {
        self.duplicate()
    }
}

} // verus!

//! The one directory of a session, kept in memory: names and what they hold,
//! in the order of the names.

use vstd::prelude::*;
use vstd::slice::slice_to_vec;

use crate::text::chars_of;

verus! {

/// The order of strings: character by character, a text before what it opens.
pub open spec fn before(a: Seq<char>, b: Seq<char>) -> bool
    decreases a.len(),
{
    if b.len() == 0 {
        false
    } else if a.len() == 0 {
        true
    } else {
        a[0] < b[0] || (a[0] == b[0] && before(a.skip(1), b.skip(1)))
    }
}

/// Whether each name comes before all that follow it.
pub open spec fn ascending(names: Seq<Seq<char>>) -> bool {
    forall|i: int, j: int|
        0 <= i < j < names.len() ==> before(#[trigger] names[i], #[trigger] names[j])
}

/// Whether `names` are the names in `files`, each once, in order.
pub open spec fn lists(files: Map<Seq<char>, Seq<u8>>, names: Seq<Seq<char>>) -> bool {
    &&& ascending(names)
    &&& forall|name: Seq<char>| #[trigger] names.contains(name) <==> files.contains_key(name)
}

/// The names in `files`, in order.
pub open spec fn names_in(files: Map<Seq<char>, Seq<u8>>) -> Seq<Seq<char>> {
    choose|names: Seq<Seq<char>>| lists(files, names)
}

/// A text does not come before itself.
pub proof fn lemma_before_irreflexive(a: Seq<char>)
    ensures
        !before(a, a),
    decreases a.len(),
{
    if a.len() > 0 {
        lemma_before_irreflexive(a.skip(1));
    }
}

/// What comes before a text comes before all that this comes before.
pub proof fn lemma_before_transitive(a: Seq<char>, b: Seq<char>, c: Seq<char>)
    requires
        before(a, b),
        before(b, c),
    ensures
        before(a, c),
    decreases a.len(),
{
    if a.len() > 0 && a[0] == b[0] && b[0] == c[0] {
        lemma_before_transitive(a.skip(1), b.skip(1), c.skip(1));
    }
}

/// Of two texts one comes before the other, or they are the same.
pub proof fn lemma_before_total(a: Seq<char>, b: Seq<char>)
    ensures
        before(a, b) || before(b, a) || a == b,
    decreases a.len(),
{
    if a.len() == 0 || b.len() == 0 {
        if a.len() == b.len() {
            assert(a =~= b);
        }
    } else if a[0] == b[0] {
        lemma_before_total(a.skip(1), b.skip(1));
        if a.skip(1) == b.skip(1) {
            assert(a =~= seq![a[0]] + a.skip(1));
            assert(b =~= seq![b[0]] + b.skip(1));
        }
    }
}

/// A directory has one listing.
pub proof fn lemma_one_listing(
    files: Map<Seq<char>, Seq<u8>>,
    a: Seq<Seq<char>>,
    b: Seq<Seq<char>>,
)
    requires
        lists(files, a),
        lists(files, b),
    ensures
        a == b,
{
    assert forall|n: Seq<char>| #[trigger] a.contains(n) <==> b.contains(n) by {
        assert(files.contains_key(n) <==> a.contains(n));
    }
    lemma_same_names(a, b);
}

/// Two ascending lists of the same names are the same list.
proof fn lemma_same_names(a: Seq<Seq<char>>, b: Seq<Seq<char>>)
    requires
        ascending(a),
        ascending(b),
        forall|n: Seq<char>| #[trigger] a.contains(n) <==> b.contains(n),
    ensures
        a == b,
    decreases a.len(),
{
    if a.len() == 0 {
        if b.len() > 0 {
            assert(b.contains(b[0]));
            assert(a.contains(b[0]));
        }
        assert(a =~= b);
    } else {
        assert(a.contains(a.last()));
        assert(b.len() > 0);
        assert(b.contains(b.last()));
        assert(a.contains(b.last()));
        let i = choose|i: int| 0 <= i < a.len() && a[i] == b.last();
        let j = choose|j: int| 0 <= j < b.len() && b[j] == a.last();
        if a.last() != b.last() {
            lemma_before_transitive(a.last(), b.last(), a.last());
            lemma_before_irreflexive(a.last());
        }
        let a1 = a.drop_last();
        let b1 = b.drop_last();
        assert forall|n: Seq<char>| #[trigger] a1.contains(n) <==> b1.contains(n) by {
            lemma_before_irreflexive(a.last());
            if a1.contains(n) {
                let k = choose|k: int| 0 <= k < a1.len() && a1[k] == n;
                assert(a[k] == n);
                assert(a.contains(n));
                let m = choose|m: int| 0 <= m < b.len() && b[m] == n;
                assert(before(a[k], a[a.len() - 1]));
                assert(m < b.len() - 1);
                assert(b1[m] == n);
            }
            if b1.contains(n) {
                let k = choose|k: int| 0 <= k < b1.len() && b1[k] == n;
                assert(b[k] == n);
                assert(b.contains(n));
                assert(a.contains(n));
                let m = choose|m: int| 0 <= m < a.len() && a[m] == n;
                assert(before(b[k], b[b.len() - 1]));
                assert(m < a.len() - 1);
                assert(a1[m] == n);
            }
        }
        lemma_same_names(a1, b1);
        assert(a =~= a1.push(a.last()));
        assert(b =~= b1.push(b.last()));
    }
}

/// Whether `a` comes before `b`.
pub fn comes_before(a: &str, b: &str) -> (yes: bool)
    ensures
        yes == before(a@, b@),
{
    let left: Vec<char> = chars_of(a);
    let right: Vec<char> = chars_of(b);
    let mut i: usize = 0;
    proof {
        assert(left@.skip(0) =~= left@);
        assert(right@.skip(0) =~= right@);
    }
    while i < left.len() && i < right.len()
        invariant
            left@ == a@,
            right@ == b@,
            i <= left@.len(),
            i <= right@.len(),
            before(left@, right@) == before(left@.skip(i as int), right@.skip(i as int)),
        decreases left@.len() - i,
    {
        if left[i] != right[i] {
            return left[i] < right[i];
        }
        proof {
            assert(left@.skip(i as int).skip(1) =~= left@.skip(i + 1));
            assert(right@.skip(i as int).skip(1) =~= right@.skip(i + 1));
        }
        i += 1;
    }
    i < right.len()
}

/// Names and what they hold, in the order of the names.
pub struct Files {
    entries: Vec<(String, Vec<u8>)>,
}

/// The names of the entries.
spec fn entry_names(entries: Seq<(String, Vec<u8>)>) -> Seq<Seq<char>> {
    Seq::new(entries.len(), |i: int| entries[i].0@)
}

/// What the entries hold, by name.
spec fn entry_map(entries: Seq<(String, Vec<u8>)>) -> Map<Seq<char>, Seq<u8>> {
    Map::new(
        |name: Seq<char>| entry_names(entries).contains(name),
        |name: Seq<char>| entries[entry_names(entries).index_of(name)].1@,
    )
}

/// Entries in order hold each name once.
proof fn lemma_entry(entries: Seq<(String, Vec<u8>)>, i: int)
    requires
        ascending(entry_names(entries)),
        0 <= i < entries.len(),
    ensures
        entry_map(entries).contains_key(entries[i].0@),
        entry_map(entries)[entries[i].0@] == entries[i].1@,
{
    let names = entry_names(entries);
    let name = names[i];
    assert(names.contains(name));
    let k = names.index_of(name);
    lemma_before_irreflexive(name);
    assert(names[k] == name);
}

/// What entries in order hold, entry by entry, is what they hold by name.
proof fn lemma_entry_map(entries: Seq<(String, Vec<u8>)>, files: Map<Seq<char>, Seq<u8>>)
    requires
        ascending(entry_names(entries)),
        forall|i: int|
            0 <= i < entries.len() ==> files.contains_key(#[trigger] entries[i].0@)
                && files[entries[i].0@] == entries[i].1@,
        forall|name: Seq<char>|
            files.contains_key(name) ==> #[trigger] entry_names(entries).contains(name),
    ensures
        entry_map(entries) == files,
{
    let names = entry_names(entries);
    assert forall|name: Seq<char>| #[trigger] entry_map(entries).contains_key(name)
        <==> files.contains_key(name) by {
        if names.contains(name) {
            let k = names.index_of(name);
            assert(entries[k].0@ == name);
        }
    }
    assert forall|name: Seq<char>| files.contains_key(name) implies entry_map(entries)[name]
        == #[trigger] files[name] by {
        assert(names.contains(name));
        let k = names.index_of(name);
        assert(entries[k].0@ == name);
        lemma_entry(entries, k);
    }
    assert(entry_map(entries) =~= files);
}

/// Where `name` stands among entries in order, or belongs.
fn slot(entries: &Vec<(String, Vec<u8>)>, name: &str) -> (at: (usize, bool))
    requires
        ascending(entry_names(entries@)),
    ensures
        at.0 <= entries@.len(),
        forall|i: int| 0 <= i < at.0 ==> before(#[trigger] entries@[i].0@, name@),
        at.1 ==> at.0 < entries@.len() && entries@[at.0 as int].0@ == name@,
        !at.1 ==> forall|i: int|
            at.0 <= i < entries@.len() ==> before(name@, #[trigger] entries@[i].0@),
        at.1 == entry_names(entries@).contains(name@),
{
    let ghost names = entry_names(entries@);
    let mut at: usize = 0;
    while at < entries.len() && comes_before(entries[at].0.as_str(), name)
        invariant
            at <= entries@.len(),
            forall|i: int| 0 <= i < at ==> before(#[trigger] entries@[i].0@, name@),
        decreases entries@.len() - at,
    {
        at += 1;
    }
    let found: bool = at < entries.len() && !comes_before(name, entries[at].0.as_str());
    proof {
        if at < entries@.len() {
            let here = entries@[at as int].0@;
            lemma_before_total(here, name@);
            assert(names[at as int] == here);
            if !found {
                assert forall|i: int| at <= i < entries@.len() implies before(
                    name@,
                    #[trigger] entries@[i].0@,
                ) by {
                    if i > at {
                        assert(names[i] == entries@[i].0@);
                        lemma_before_transitive(name@, here, entries@[i].0@);
                    }
                }
            }
        }
        if names.contains(name@) {
            let k = names.index_of(name@);
            lemma_before_irreflexive(name@);
            assert(entries@[k].0@ == name@);
        }
    }
    (at, found)
}

impl View for Files {
    type V = Map<Seq<char>, Seq<u8>>;

    closed spec fn view(&self) -> Map<Seq<char>, Seq<u8>> {
        entry_map(self.entries@)
    }
}

impl Files {
    #[verifier::type_invariant]
    spec fn in_order(self) -> bool {
        ascending(entry_names(self.entries@))
    }

    /// No files.
    pub fn new() -> (files: Self)
        ensures
            files@ == Map::<Seq<char>, Seq<u8>>::empty(),
    {
        let files: Files = Files { entries: Vec::new() };
        proof {
            assert(files@ =~= Map::<Seq<char>, Seq<u8>>::empty());
        }
        files
    }

    /// Whether there are no files.
    pub fn is_empty(&self) -> (empty: bool)
        ensures
            empty == (self@ == Map::<Seq<char>, Seq<u8>>::empty()),
    {
        let empty: bool = self.entries.len() == 0;
        proof {
            if empty {
                assert(self@ =~= Map::<Seq<char>, Seq<u8>>::empty());
            } else {
                let name = entry_names(self.entries@)[0];
                assert(self@.contains_key(name));
            }
        }
        empty
    }

    /// Put `bytes` under `name`, in place of what was there.
    pub fn insert(&mut self, name: String, bytes: Vec<u8>)
        ensures
            final(self)@ == old(self)@.insert(name@, bytes@),
    {
        proof {
            use_type_invariant(&*self);
        }
        let mut entries: Vec<(String, Vec<u8>)> = Vec::new();
        std::mem::swap(&mut entries, &mut self.entries);
        let ghost was = entries@;
        let ghost files = entry_map(was).insert(name@, bytes@);
        let ghost entry = (name, bytes);
        let (at, found) = slot(&entries, name.as_str());
        if found {
            entries.set(at, (name, bytes));
            proof {
                assert(entry_names(entries@) =~= entry_names(was));
            }
        } else {
            entries.insert(at, (name, bytes));
            proof {
                lemma_inserted(was, at as int, entry);
            }
        }
        proof {
            assert forall|i: int| 0 <= i < entries@.len() implies files.contains_key(
                #[trigger] entries@[i].0@,
            ) && files[entries@[i].0@] == entries@[i].1@ by {
                if i != at {
                    let k = if found || i < at { i } else { i - 1 };
                    assert(entries@[i] == was[k]);
                    lemma_entry(was, k);
                    lemma_before_irreflexive(name@);
                    if found {
                        assert(entry_names(was)[k] != entry_names(was)[at as int]) by {
                            if k < at {
                                assert(before(entry_names(was)[k], entry_names(was)[at as int]));
                            } else {
                                assert(before(entry_names(was)[at as int], entry_names(was)[k]));
                            }
                        }
                    }
                }
            }
            assert forall|n: Seq<char>| files.contains_key(n) implies #[trigger] entry_names(
                entries@,
            ).contains(n) by {
                if n == name@ {
                    assert(entry_names(entries@)[at as int] == n);
                } else {
                    assert(entry_names(was).contains(n));
                    let k = entry_names(was).index_of(n);
                    let i = if found || k < at { k } else { k + 1 };
                    assert(entry_names(entries@)[i] == n);
                }
            }
            lemma_entry_map(entries@, files);
        }
        self.entries = entries;
    }

    /// Take `name` away, and tell whether it was there.
    pub fn remove(&mut self, name: &str) -> (was_there: bool)
        ensures
            was_there == old(self)@.contains_key(name@),
            final(self)@ == old(self)@.remove(name@),
    {
        proof {
            use_type_invariant(&*self);
        }
        let mut entries: Vec<(String, Vec<u8>)> = Vec::new();
        std::mem::swap(&mut entries, &mut self.entries);
        let ghost was = entries@;
        let ghost files = entry_map(was).remove(name@);
        let (at, found) = slot(&entries, name);
        if found {
            entries.remove(at);
            proof {
                assert forall|i: int, j: int| 0 <= i < j < entries@.len() implies before(
                    #[trigger] entry_names(entries@)[i],
                    #[trigger] entry_names(entries@)[j],
                ) by {
                    let p = if i < at { i } else { i + 1 };
                    let q = if j < at { j } else { j + 1 };
                    assert(before(entry_names(was)[p], entry_names(was)[q]));
                }
                assert forall|i: int| 0 <= i < entries@.len() implies files.contains_key(
                    #[trigger] entries@[i].0@,
                ) && files[entries@[i].0@] == entries@[i].1@ by {
                    let k = if i < at { i } else { i + 1 };
                    assert(entries@[i] == was[k]);
                    lemma_entry(was, k);
                    lemma_before_irreflexive(name@);
                    if k < at {
                        assert(before(entry_names(was)[k], entry_names(was)[at as int]));
                    } else {
                        assert(before(entry_names(was)[at as int], entry_names(was)[k]));
                    }
                }
                assert forall|n: Seq<char>| files.contains_key(n) implies #[trigger] entry_names(
                    entries@,
                ).contains(n) by {
                    assert(entry_names(was).contains(n));
                    let k = entry_names(was).index_of(n);
                    let i = if k < at { k } else { k - 1 };
                    assert(entry_names(was)[k] == n);
                    assert(entry_names(entries@)[i] == n);
                }
                lemma_entry_map(entries@, files);
            }
        } else {
            proof {
                assert(files =~= entry_map(was));
            }
        }
        self.entries = entries;
        found
    }

    /// What `name` holds.
    pub fn get(&self, name: &str) -> (bytes: Option<&Vec<u8>>)
        ensures
            match bytes {
                Some(bytes) => self@.contains_key(name@) && self@[name@] == bytes@,
                None => !self@.contains_key(name@),
            },
    {
        proof {
            use_type_invariant(self);
        }
        let (at, found) = slot(&self.entries, name);
        if found {
            proof {
                lemma_entry(self.entries@, at as int);
            }
            Some(&self.entries[at].1)
        } else {
            None
        }
    }

    /// The names, in order.
    pub fn names(&self) -> (names: Vec<String>)
        ensures
            names.deep_view() == names_in(self@),
            lists(self@, names.deep_view()),
    {
        let mut names: Vec<String> = Vec::new();
        let mut i: usize = 0;
        while i < self.entries.len()
            invariant
                i <= self.entries@.len(),
                names@.len() == i,
                forall|j: int| 0 <= j < i ==> #[trigger] names@[j]@ == self.entries@[j].0@,
            decreases self.entries@.len() - i,
        {
            names.push(self.entries[i].0.clone());
            i += 1;
        }
        proof {
            use_type_invariant(self);
            assert(names.deep_view() =~= entry_names(self.entries@));
            assert(lists(self@, names.deep_view()));
            lemma_one_listing(self@, names.deep_view(), names_in(self@));
        }
        names
    }
}

/// An entry put where it belongs keeps the order.
proof fn lemma_inserted(was: Seq<(String, Vec<u8>)>, at: int, entry: (String, Vec<u8>))
    requires
        ascending(entry_names(was)),
        0 <= at <= was.len(),
        forall|i: int| 0 <= i < at ==> before(#[trigger] was[i].0@, entry.0@),
        forall|i: int| at <= i < was.len() ==> before(entry.0@, #[trigger] was[i].0@),
    ensures
        ascending(entry_names(was.insert(at, entry))),
{
    let names = entry_names(was.insert(at, entry));
    assert forall|i: int, j: int| 0 <= i < j < names.len() implies before(
        #[trigger] names[i],
        #[trigger] names[j],
    ) by {
        let p = if i < at { i } else { i - 1 };
        let q = if j < at { j } else { j - 1 };
        if i != at && j != at {
            assert(before(entry_names(was)[p], entry_names(was)[q]));
        } else if i == at {
            assert(before(entry.0@, was[q].0@));
        } else {
            assert(before(was[p].0@, entry.0@));
        }
    }
}

impl Clone for Files {
    fn clone(&self) -> (copy: Self)
        ensures
            copy@ == self@,
    {
        let mut entries: Vec<(String, Vec<u8>)> = Vec::new();
        let mut i: usize = 0;
        while i < self.entries.len()
            invariant
                i <= self.entries@.len(),
                entries@.len() == i,
                forall|j: int|
                    0 <= j < i ==> (#[trigger] entries@[j]).0@ == self.entries@[j].0@
                        && entries@[j].1@ == self.entries@[j].1@,
            decreases self.entries@.len() - i,
        {
            entries.push((self.entries[i].0.clone(), copy_bytes(&self.entries[i].1)));
            i += 1;
        }
        proof {
            use_type_invariant(self);
            assert(entry_names(entries@) =~= entry_names(self.entries@));
            assert(entry_map(entries@) =~= entry_map(self.entries@));
        }
        Files { entries }
    }
}

/// The same bytes once more.
pub(crate) fn copy_bytes(bytes: &Vec<u8>) -> (copy: Vec<u8>)
    ensures
        copy@ == bytes@,
{
    slice_to_vec(bytes.as_slice())
}

} // verus!

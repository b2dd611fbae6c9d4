//! What holds of a directory: the order of its names, and its listing.

use vstd::prelude::*;

use crate::files::{before, lemma_one_listing, lists, names_in};

verus! {

/// Of two names that differ first in one place, the one with the smaller
/// character there comes first.
pub proof fn lemma_the_first_difference_decides(a: Seq<char>, b: Seq<char>, k: int)
    requires
        0 <= k < a.len(),
        k < b.len(),
        a.take(k) == b.take(k),
        a[k] != b[k],
    ensures
        before(a, b) <==> a[k] < b[k],
    decreases k,
{
    if k > 0 {
        assert(a.take(k)[0] == a[0] && b.take(k)[0] == b[0]);
        assert(a.skip(1).take(k - 1) =~= a.take(k).skip(1));
        assert(b.skip(1).take(k - 1) =~= b.take(k).skip(1));
        lemma_the_first_difference_decides(a.skip(1), b.skip(1), k - 1);
    }
}

/// A name comes before every longer one that it opens, and none that opens
/// it, nor itself.
pub proof fn lemma_a_name_comes_before_what_it_opens(a: Seq<char>, more: Seq<char>)
    ensures
        before(a, a + more) <==> more.len() > 0,
        !before(a + more, a),
    decreases a.len(),
{
    if a.len() == 0 {
        assert(a + more =~= more);
    } else {
        lemma_a_name_comes_before_what_it_opens(a.skip(1), more);
        assert((a + more).skip(1) =~= a.skip(1) + more);
    }
}

/// A listing holds each name of the directory, none twice, the earlier ones
/// first, and no other.
pub proof fn lemma_a_listing_holds_the_names(
    files: Map<Seq<char>, Seq<u8>>,
    names: Seq<Seq<char>>,
)
    ensures
        lists(files, names) <==> {
            &&& forall|name: Seq<char>|
                #![trigger files.contains_key(name)]
                files.contains_key(name) <==> exists|i: int|
                    0 <= i < names.len() && #[trigger] names[i] == name
            &&& forall|i: int, j: int|
                0 <= i < j < names.len() ==> before(#[trigger] names[i], #[trigger] names[j])
        },
{
    if lists(files, names) {
        assert forall|name: Seq<char>| files.contains_key(name) <==> exists|i: int|
            0 <= i < names.len() && #[trigger] names[i] == name by {
            assert(names.contains(name) <==> files.contains_key(name));
        }
    }
    if (forall|name: Seq<char>|
        #![trigger files.contains_key(name)]
        files.contains_key(name) <==> exists|i: int|
            0 <= i < names.len() && #[trigger] names[i] == name) && (forall|i: int, j: int|
        0 <= i < j < names.len() ==> before(#[trigger] names[i], #[trigger] names[j])) {
        assert forall|name: Seq<char>| #[trigger] names.contains(name)
            <==> files.contains_key(name) by {
            assert(files.contains_key(name) <==> exists|i: int|
                0 <= i < names.len() && #[trigger] names[i] == name);
        }
    }
}

/// The names of a directory are its listing.
pub proof fn lemma_the_names_are_the_listing(
    files: Map<Seq<char>, Seq<u8>>,
    names: Seq<Seq<char>>,
)
    requires
        forall|name: Seq<char>|
            #![trigger files.contains_key(name)]
            files.contains_key(name) <==> exists|i: int|
                0 <= i < names.len() && #[trigger] names[i] == name,
        forall|i: int, j: int|
            0 <= i < j < names.len() ==> before(#[trigger] names[i], #[trigger] names[j]),
    ensures
        names_in(files) == names,
{
    lemma_a_listing_holds_the_names(files, names);
    lemma_one_listing(files, names, names_in(files));
}

} // verus!

//! Sequence vocabulary shared by the contracts: first occurrences of an item
//! or of a pattern, and the lemmas that pin them down.

use vstd::prelude::*;

verus! {

/// `i` is the first position at or after `from` where `x` stands in `s`.
pub open spec fn is_first_item<A>(s: Seq<A>, x: A, from: int, i: int) -> bool {
    &&& from <= i < s.len()
    &&& 0 <= i
    &&& s[i] == x
    &&& forall|j: int| from <= j < i ==> s[j] != x
}

/// Position of the first `x` in `s` at or after `from`, or -1.
pub open spec fn first_item_from<A>(s: Seq<A>, x: A, from: int) -> int {
    if exists|i: int| is_first_item(s, x, from, i) {
        choose|i: int| is_first_item(s, x, from, i)
    } else {
        -1
    }
}

/// Position of the first `x` in `s`, or -1.
pub open spec fn first_item<A>(s: Seq<A>, x: A) -> int {
    first_item_from(s, x, 0)
}

pub proof fn lemma_first_item_is<A>(s: Seq<A>, x: A, from: int, i: int)
    requires
        is_first_item(s, x, from, i),
    ensures
        first_item_from(s, x, from) == i,
{
    let k = choose|k: int| is_first_item(s, x, from, k);
    assert(is_first_item(s, x, from, k));
    if k < i {
        assert(s[k] != x);
    }
    if i < k {
        assert(s[i] != x);
    }
}

pub proof fn lemma_first_item_none<A>(s: Seq<A>, x: A, from: int)
    requires
        forall|j: int| from <= j < s.len() && 0 <= j ==> s[j] != x,
    ensures
        first_item_from(s, x, from) == -1,
{
    if exists|i: int| is_first_item(s, x, from, i) {
        let k = choose|k: int| is_first_item(s, x, from, k);
        assert(s[k] == x);
    }
}

/// Where `x` stands at or after `from`, a first such position exists.
pub proof fn lemma_first_item_exists<A>(s: Seq<A>, x: A, from: int, j: int)
    requires
        0 <= from <= j < s.len(),
        s[j] == x,
    ensures
        exists|i: int| is_first_item(s, x, from, i),
        0 <= first_item_from(s, x, from) <= j,
    decreases j - from,
{
    if forall|k: int| from <= k < j ==> s[k] != x {
        assert(is_first_item(s, x, from, j));
    } else {
        let k = choose|k: int| from <= k < j && s[k] == x;
        lemma_first_item_exists(s, x, from, k);
    }
    let f = choose|i: int| is_first_item(s, x, from, i);
    assert(is_first_item(s, x, from, f));
    if f > j {
        assert(s[j] != x);
    }
}

/// The first position, when there is one, holds `x` and nothing before it
/// does; when there is none, `x` stands nowhere at or after `from`.
pub proof fn lemma_first_item_facts<A>(s: Seq<A>, x: A, from: int)
    requires
        0 <= from,
    ensures
        first_item_from(s, x, from) == -1 || is_first_item(s, x, from, first_item_from(s, x, from)),
        first_item_from(s, x, from) == -1 ==> forall|j: int| from <= j < s.len() ==> s[j] != x,
{
    if exists|i: int| is_first_item(s, x, from, i) {
        let k = choose|k: int| is_first_item(s, x, from, k);
        assert(is_first_item(s, x, from, k));
    } else {
        assert forall|j: int| from <= j < s.len() implies s[j] != x by {
            if s[j] == x {
                lemma_first_item_exists(s, x, from, j);
            }
        }
    }
}

/// `pat` occurs in `s` starting at position `i`.
pub open spec fn occurs_at<A>(s: Seq<A>, pat: Seq<A>, i: int) -> bool {
    &&& 0 <= i
    &&& i + pat.len() <= s.len()
    &&& s.subrange(i, i + pat.len()) == pat
}

/// `i` is the first position at or after `from` where `pat` occurs in `s`.
pub open spec fn is_first_match<A>(s: Seq<A>, pat: Seq<A>, from: int, i: int) -> bool {
    &&& from <= i
    &&& occurs_at(s, pat, i)
    &&& forall|j: int| from <= j < i ==> !occurs_at(s, pat, j)
}

/// Position of the first occurrence of `pat` in `s` at or after `from`, or -1.
pub open spec fn find_from<A>(s: Seq<A>, pat: Seq<A>, from: int) -> int {
    if exists|i: int| is_first_match(s, pat, from, i) {
        choose|i: int| is_first_match(s, pat, from, i)
    } else {
        -1
    }
}

/// Position of the first occurrence of `pat` in `s`, or -1.
pub open spec fn find<A>(s: Seq<A>, pat: Seq<A>) -> int {
    find_from(s, pat, 0)
}

pub proof fn lemma_find_is<A>(s: Seq<A>, pat: Seq<A>, from: int, i: int)
    requires
        is_first_match(s, pat, from, i),
    ensures
        find_from(s, pat, from) == i,
{
    let k = choose|k: int| is_first_match(s, pat, from, k);
    assert(is_first_match(s, pat, from, k));
    if k < i {
        assert(!occurs_at(s, pat, k));
    }
    if i < k {
        assert(!occurs_at(s, pat, i));
    }
}

pub proof fn lemma_find_none<A>(s: Seq<A>, pat: Seq<A>, from: int)
    requires
        forall|j: int| from <= j ==> !occurs_at(s, pat, j),
    ensures
        find_from(s, pat, from) == -1,
{
    if exists|i: int| is_first_match(s, pat, from, i) {
        let k = choose|k: int| is_first_match(s, pat, from, k);
        assert(occurs_at(s, pat, k));
    }
}

/// A pattern that occurs somewhere is found.
pub proof fn lemma_find_some<A>(s: Seq<A>, pat: Seq<A>, i: int)
    requires
        0 <= i,
        occurs_at(s, pat, i),
    ensures
        find(s, pat) != -1,
    decreases i,
{
    if forall|j: int| 0 <= j < i ==> !occurs_at(s, pat, j) {
        lemma_find_is(s, pat, 0, i);
    } else {
        let j = choose|j: int| 0 <= j < i && occurs_at(s, pat, j);
        lemma_find_some(s, pat, j);
    }
}

/// A match that is found lies inside the sequence.
pub proof fn lemma_find_bounds<A>(s: Seq<A>, pat: Seq<A>, from: int)
    ensures
        find_from(s, pat, from) == -1 || (from <= find_from(s, pat, from) && find_from(s, pat, from)
            + pat.len() <= s.len() && occurs_at(s, pat, find_from(s, pat, from))),
{
    if exists|i: int| is_first_match(s, pat, from, i) {
        let k = choose|k: int| is_first_match(s, pat, from, k);
        assert(is_first_match(s, pat, from, k));
    }
}

/// The strings of a list, each taken by its characters.
pub open spec fn views(items: Seq<String>) -> Seq<Seq<char>> {
    items.map_values(|s: String| s@)
}

} // verus!

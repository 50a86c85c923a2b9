//! Lists of names: membership, first positions, prefixes, removal and
//! repetition.

use std::sync::Arc;

use vstd::prelude::*;

use crate::text::{self, same_text, Text};

verus! {

/// The first position of a name in a list.
pub open spec fn position(list: Seq<Seq<char>>, name: Seq<char>) -> Option<int>
    decreases list.len(),
{
    if list.len() == 0 {
        None
    } else if list[0] == name {
        Some(0int)
    } else {
        match position(list.drop_first(), name) {
            Some(i) => Some(i + 1),
            None => None,
        }
    }
}

/// The names of a list that another list does not hold, in order.
pub open spec fn without(list: Seq<Seq<char>>, excluded: Seq<Seq<char>>) -> Seq<Seq<char>> {
    list.filter(|n: Seq<char>| !excluded.contains(n))
}

/// Whether one list starts with another.
pub open spec fn starts_with(list: Seq<Seq<char>>, prefix: Seq<Seq<char>>) -> bool {
    prefix.len() <= list.len() && list.take(prefix.len() as int) == prefix
}

/// Whether every name of one list occurs in another.
pub open spec fn all_in(list: Seq<Seq<char>>, other: Seq<Seq<char>>) -> bool {
    forall|i: int| 0 <= i < list.len() ==> other.contains(#[trigger] list[i])
}

/// Whether no name of one list occurs in another.
pub open spec fn none_in(list: Seq<Seq<char>>, other: Seq<Seq<char>>) -> bool {
    forall|i: int| 0 <= i < list.len() ==> !other.contains(#[trigger] list[i])
}

/// The names of a list without repetition, each where it first occurs.
pub open spec fn distinct(list: Seq<Seq<char>>) -> Seq<Seq<char>>
    decreases list.len(),
{
    if list.len() == 0 {
        list
    } else if list.drop_last().contains(list.last()) {
        distinct(list.drop_last())
    } else {
        distinct(list.drop_last()).push(list.last())
    }
}

/// The names that occur more than once, each where it first repeats.
pub open spec fn repeated(list: Seq<Seq<char>>) -> Seq<Seq<char>>
    decreases list.len(),
{
    if list.len() == 0 {
        list
    } else {
        let before = repeated(list.drop_last());
        if list.drop_last().contains(list.last()) && !before.contains(list.last()) {
            before.push(list.last())
        } else {
            before
        }
    }
}

/// What [`position`] finds: the least index that holds the name.
pub proof fn position_is_first(list: Seq<Seq<char>>, name: Seq<char>)
    ensures
        match position(list, name) {
            Some(i) => 0 <= i < list.len() && list[i] == name && forall|j: int|
                0 <= j < i ==> list[j] != name,
            None => !list.contains(name),
        },
    decreases list.len(),
{
    if list.len() > 0 && list[0] != name {
        let rest = list.drop_first();
        position_is_first(rest, name);
        match position(rest, name) {
            Some(i) => {
                assert forall|j: int| 0 <= j < i + 1 implies list[j] != name by {
                    if j > 0 {
                        assert(list[j] == rest[j - 1]);
                    }
                }
            },
            None => {
                if list.contains(name) {
                    let k = choose|k: int| 0 <= k < list.len() && list[k] == name;
                    assert(rest[k - 1] == name);
                }
            },
        }
    }
}

/// The least index that holds a name is its position.
pub proof fn position_at(list: Seq<Seq<char>>, name: Seq<char>, i: int)
    requires
        0 <= i < list.len(),
        list[i] == name,
        forall|j: int| 0 <= j < i ==> list[j] != name,
    ensures
        position(list, name) == Some(i),
{
    position_is_first(list, name);
}

/// A name that occurs nowhere has no position.
pub proof fn position_absent(list: Seq<Seq<char>>, name: Seq<char>)
    requires
        !list.contains(name),
    ensures
        position(list, name) is None,
{
    position_is_first(list, name);
}

/// A list has a repeated name exactly when two of its entries are equal.
pub proof fn repeated_iff(list: Seq<Seq<char>>)
    ensures
        repeated(list).len() == 0 <==> list.no_duplicates(),
        forall|n: Seq<char>|
            #[trigger] repeated(list).contains(n) ==> exists|i: int, j: int|
                0 <= i < j < list.len() && list[i] == n && list[j] == n,
    decreases list.len(),
{
    if list.len() > 0 {
        let front = list.drop_last();
        repeated_iff(front);
        assert forall|n: Seq<char>| #[trigger] repeated(list).contains(n) implies exists|
            i: int,
            j: int,
        | 0 <= i < j < list.len() && list[i] == n && list[j] == n by {
            if repeated(front).contains(n) {
                let (i, j) = choose|i: int, j: int|
                    0 <= i < j < front.len() && front[i] == n && front[j] == n;
                assert(list[i] == n && list[j] == n);
            } else {
                assert(n == list.last());
                let i = choose|i: int| 0 <= i < front.len() && front[i] == n;
                assert(list[i] == n && list[list.len() - 1] == n);
            }
        }
        if repeated(list).len() == 0 {
            assert(repeated(front).len() == 0);
            assert(!front.contains(list.last()));
            assert forall|i: int, j: int|
                0 <= i < list.len() && 0 <= j < list.len() && i != j implies list[i]
                != list[j] by {
                if i < front.len() && j < front.len() {
                    assert(front[i] != front[j]);
                } else if i < front.len() {
                    assert(front[i] == list[i]);
                } else {
                    assert(front[j] == list[j]);
                }
            }
        }
        if list.no_duplicates() {
            assert(front.no_duplicates());
            if front.contains(list.last()) {
                let i = choose|i: int| 0 <= i < front.len() && front[i] == list.last();
                assert(list[i] == list[list.len() - 1]);
            }
        }
    }
}

/// Whether a list holds a name.
pub fn contains(list: &[String], name: &str) -> (r: bool)
    ensures
        r == text::names(list@).contains(name@),
{
    let mut i: usize = 0;
    while i < list.len()
        invariant
            i <= list.len(),
            forall|j: int| 0 <= j < i ==> (#[trigger] text::names(list@)[j]) != name@,
        decreases list.len() - i,
    {
        if same_text(list[i].as_str(), name) {
            assert(text::names(list@)[i as int] == name@);
            return true;
        }
        i = i + 1;
    }
    false
}

/// Copies a list.
pub fn clone_list(list: &[String]) -> (r: Vec<String>)
    ensures
        r@ == list@,
{
    let mut out: Vec<String> = Vec::new();
    let mut i: usize = 0;
    while i < list.len()
        invariant
            i <= list.len(),
            out@ =~= list@.take(i as int),
        decreases list.len() - i,
    {
        out.push(list[i].clone());
        i = i + 1;
    }
    assert(list@.take(i as int) =~= list@);
    out
}

/// Borrows every name of a list.
pub fn borrow_list(list: &[String]) -> (r: Vec<&str>)
    ensures
        text::str_names(r@) == text::names(list@),
{
    let mut out: Vec<&str> = Vec::new();
    let mut i: usize = 0;
    while i < list.len()
        invariant
            i <= list.len(),
            out@.len() == i,
            forall|j: int| 0 <= j < i ==> (#[trigger] out@[j])@ == list@[j]@,
        decreases list.len() - i,
    {
        out.push(list[i].as_str());
        i = i + 1;
    }
    assert(text::str_names(out@) =~= text::names(list@));
    out
}

/// Turns every text of a list into an owned name.
pub fn own_list<S: Text>(list: Vec<S>) -> (r: Vec<String>)
    ensures
        text::names(r@) == text::texts(list@),
{
    let mut out: Vec<String> = Vec::new();
    let ghost all = list@;
    for s in it: list
        invariant
            it.seq() == all,
            out@.len() == it.index(),
            forall|j: int| 0 <= j < out@.len() ==> (#[trigger] out@[j])@ == all[j].text(),
    {
        out.push(s.into_text());
    }
    assert(text::names(out@) =~= text::texts(all));
    out
}

/// Whether two lists hold the same names in the same order.
pub fn same_list(a: &[String], b: &[String]) -> (r: bool)
    ensures
        r == (text::names(a@) == text::names(b@)),
{
    if a.len() != b.len() {
        assert(text::names(a@).len() != text::names(b@).len());
        return false;
    }
    let mut i: usize = 0;
    while i < a.len()
        invariant
            i <= a.len(),
            a.len() == b.len(),
            forall|j: int| 0 <= j < i ==> (#[trigger] text::names(a@)[j]) == text::names(b@)[j],
        decreases a.len() - i,
    {
        if !same_text(a[i].as_str(), b[i].as_str()) {
            assert(text::names(a@)[i as int] != text::names(b@)[i as int]);
            return false;
        }
        i = i + 1;
    }
    assert(text::names(a@) =~= text::names(b@));
    true
}

/// Whether `list` starts with `prefix`.
pub fn has_prefix(list: &[String], prefix: &[String]) -> (r: bool)
    ensures
        r == starts_with(text::names(list@), text::names(prefix@)),
{
    if prefix.len() > list.len() {
        return false;
    }
    let ghost head = text::names(list@).take(prefix@.len() as int);
    let mut i: usize = 0;
    while i < prefix.len()
        invariant
            i <= prefix.len(),
            prefix.len() <= list.len(),
            head == text::names(list@).take(prefix@.len() as int),
            forall|j: int| 0 <= j < i ==> (#[trigger] head[j]) == text::names(prefix@)[j],
        decreases prefix.len() - i,
    {
        if !same_text(list[i].as_str(), prefix[i].as_str()) {
            assert(head[i as int] != text::names(prefix@)[i as int]);
            return false;
        }
        i = i + 1;
    }
    assert(head =~= text::names(prefix@));
    true
}

/// Whether `list` holds the names of `first` and then those of `second`.
pub fn is_concat(list: &[String], first: &[String], second: &[String]) -> (r: bool)
    ensures
        r == (text::names(list@) == text::names(first@) + text::names(second@)),
{
    let ghost all = text::names(list@);
    let ghost both = text::names(first@) + text::names(second@);
    if first.len() > list.len() || list.len() - first.len() != second.len() {
        assert(all.len() != both.len());
        return false;
    }
    let mut i: usize = 0;
    while i < list.len()
        invariant
            i <= list.len(),
            list.len() == first.len() + second.len(),
            all == text::names(list@),
            both == text::names(first@) + text::names(second@),
            forall|j: int| 0 <= j < i ==> (#[trigger] all[j]) == both[j],
        decreases list.len() - i,
    {
        let name = if i < first.len() {
            first[i].as_str()
        } else {
            second[i - first.len()].as_str()
        };
        if !same_text(list[i].as_str(), name) {
            assert(all[i as int] != both[i as int]);
            return false;
        }
        i = i + 1;
    }
    assert(all =~= both);
    true
}

/// Whether every name of `list` occurs in `other`.
pub fn is_subset(list: &[String], other: &[String]) -> (r: bool)
    ensures
        r == all_in(text::names(list@), text::names(other@)),
{
    let mut i: usize = 0;
    while i < list.len()
        invariant
            i <= list.len(),
            forall|j: int|
                0 <= j < i ==> text::names(other@).contains(#[trigger] text::names(list@)[j]),
        decreases list.len() - i,
    {
        if !contains(other, list[i].as_str()) {
            assert(!text::names(other@).contains(text::names(list@)[i as int]));
            return false;
        }
        i = i + 1;
    }
    true
}

/// Whether no name of `list` occurs in `other`.
pub fn is_disjoint(list: &[String], other: &[String]) -> (r: bool)
    ensures
        r == none_in(text::names(list@), text::names(other@)),
{
    let mut i: usize = 0;
    while i < list.len()
        invariant
            i <= list.len(),
            forall|j: int|
                0 <= j < i ==> !text::names(other@).contains(#[trigger] text::names(list@)[j]),
        decreases list.len() - i,
    {
        if contains(other, list[i].as_str()) {
            assert(text::names(other@).contains(text::names(list@)[i as int]));
            return false;
        }
        i = i + 1;
    }
    true
}

/// Copies the names of `list` that `excluded` does not hold.
pub fn exclude(list: &[String], excluded: &[String]) -> (r: Vec<String>)
    ensures
        text::names(r@) == without(text::names(list@), text::names(excluded@)),
{
    let mut out: Vec<String> = Vec::new();
    let ghost all = text::names(list@);
    let ghost keep = |n: Seq<char>| !text::names(excluded@).contains(n);
    let mut i: usize = 0;
    proof {
        assert(all.take(0) =~= Seq::<Seq<char>>::empty());
        reveal(Seq::filter);
        assert(text::names(out@) =~= Seq::<Seq<char>>::empty());
    }
    while i < list.len()
        invariant
            i <= list.len(),
            all == text::names(list@),
            keep == (|n: Seq<char>| !text::names(excluded@).contains(n)),
            text::names(out@) == all.take(i as int).filter(keep),
        decreases list.len() - i,
    {
        let ghost before = out@;
        proof {
            reveal(Seq::filter);
            assert(all.take(i + 1).drop_last() =~= all.take(i as int));
            assert(all.take(i + 1).last() == list@[i as int]@);
        }
        if !contains(excluded, list[i].as_str()) {
            out.push(list[i].clone());
            assert(text::names(out@) =~= text::names(before).push(list@[i as int]@));
        }
        i = i + 1;
    }
    assert(all.take(i as int) =~= all);
    out
}

/// Copies a list without repetition.
pub fn dedup(list: &[String]) -> (r: Vec<String>)
    ensures
        text::names(r@) == distinct(text::names(list@)),
{
    let mut out: Vec<String> = Vec::new();
    let ghost all = text::names(list@);
    let mut i: usize = 0;
    assert(all.take(0) =~= Seq::<Seq<char>>::empty());
    assert(text::names(out@) =~= Seq::<Seq<char>>::empty());
    while i < list.len()
        invariant
            i <= list.len(),
            all == text::names(list@),
            text::names(out@) == distinct(all.take(i as int)),
            forall|n: Seq<char>| #[trigger]
                text::names(out@).contains(n) <==> all.take(i as int).contains(n),
        decreases list.len() - i,
    {
        let ghost before = text::names(out@);
        let ghost name = list@[i as int]@;
        let ghost front = all.take(i as int);
        assert(all.take(i + 1).drop_last() =~= front);
        assert(all.take(i + 1) =~= front.push(name));
        if !contains(out.as_slice(), list[i].as_str()) {
            out.push(list[i].clone());
            assert(text::names(out@) =~= before.push(name));
        }
        proof {
            assert forall|n: Seq<char>| #[trigger]
                text::names(out@).contains(n) <==> all.take(i + 1).contains(n) by {
                vstd::seq_lib::lemma_seq_contains_after_push(front, name, n);
                vstd::seq_lib::lemma_seq_contains_after_push(before, name, n);
                assert(before.contains(n) <==> front.contains(n));
                assert(before.contains(name) <==> front.contains(name));
            }
        }
        i = i + 1;
    }
    assert(all.take(i as int) =~= all);
    out
}

/// The names that occur more than once.
pub fn find_repeated(list: &[String]) -> (r: Vec<String>)
    ensures
        text::names(r@) == repeated(text::names(list@)),
{
    let mut out: Vec<String> = Vec::new();
    let ghost all = text::names(list@);
    let mut i: usize = 0;
    assert(all.take(0) =~= Seq::<Seq<char>>::empty());
    assert(text::names(out@) =~= Seq::<Seq<char>>::empty());
    while i < list.len()
        invariant
            i <= list.len(),
            all == text::names(list@),
            text::names(out@) == repeated(all.take(i as int)),
        decreases list.len() - i,
    {
        let ghost before = text::names(out@);
        let ghost front = all.take(i as int);
        assert(all.take(i + 1).drop_last() =~= front);
        let mut seen = false;
        let mut j: usize = 0;
        while j < i
            invariant
                j <= i < list.len(),
                front == text::names(list@).take(i as int),
                seen ==> front.contains(list@[i as int]@),
                !seen ==> forall|k: int| 0 <= k < j ==> (#[trigger] front[k]) != list@[i as int]@,
            decreases i - j,
        {
            if same_text(list[j].as_str(), list[i].as_str()) {
                assert(front[j as int] == list@[i as int]@);
                seen = true;
            }
            j = j + 1;
        }
        assert(seen == front.contains(list@[i as int]@));
        if seen && !contains(out.as_slice(), list[i].as_str()) {
            out.push(list[i].clone());
            assert(text::names(out@) =~= before.push(list@[i as int]@));
        }
        i = i + 1;
    }
    assert(all.take(i as int) =~= all);
    out
}

/// The first name of `list` that `other` does not hold.
pub open spec fn first_absent(list: Seq<Seq<char>>, other: Seq<Seq<char>>) -> Option<Seq<char>>
    decreases list.len(),
{
    if list.len() == 0 {
        None
    } else {
        match first_absent(list.drop_last(), other) {
            Some(name) => Some(name),
            None => if other.contains(list.last()) {
                None
            } else {
                Some(list.last())
            },
        }
    }
}

/// No name is absent exactly where every name is held.
pub proof fn first_absent_iff(list: Seq<Seq<char>>, other: Seq<Seq<char>>)
    ensures
        first_absent(list, other) is None <==> all_in(list, other),
        first_absent(list, other) is Some ==> list.contains(first_absent(list, other)->0)
            && !other.contains(first_absent(list, other)->0),
    decreases list.len(),
{
    if list.len() > 0 {
        let front = list.drop_last();
        first_absent_iff(front, other);
        assert(forall|i: int| 0 <= i < front.len() ==> front[i] == list[i]);
        assert(list.contains(list.last())) by {
            assert(list[list.len() - 1] == list.last());
        }
        if first_absent(front, other) is Some {
            let n = first_absent(front, other)->0;
            let k = choose|k: int| 0 <= k < front.len() && front[k] == n;
            assert(list[k] == n);
        }
        if all_in(front, other) && other.contains(list.last()) {
            assert forall|i: int| 0 <= i < list.len() implies other.contains(#[trigger] list[i]) by {
                if i < front.len() {
                    assert(other.contains(front[i]));
                }
            }
        }
        if all_in(list, other) {
            assert forall|i: int| 0 <= i < front.len() implies other.contains(#[trigger] front[i]) by {
                assert(other.contains(list[i]));
            }
            assert(other.contains(list[list.len() - 1]));
        }
    }
}

/// The place of the first name of `list` that `other` does not hold.
pub fn find_absent(list: &[String], other: &[String]) -> (r: Option<usize>)
    ensures
        match r {
            Some(i) => i < list@.len() && first_absent(
                text::names(list@),
                text::names(other@),
            ) == Some(list@[i as int]@),
            None => first_absent(text::names(list@), text::names(other@)) is None,
        },
{
    let ghost all = text::names(list@);
    let ghost held = text::names(other@);
    let mut i: usize = 0;
    let mut found: Option<usize> = None;
    assert(all.take(0) =~= Seq::<Seq<char>>::empty());
    while i < list.len()
        invariant
            i <= list@.len(),
            all == text::names(list@),
            held == text::names(other@),
            match found {
                Some(k) => k < i && first_absent(all.take(i as int), held) == Some(
                    list@[k as int]@,
                ),
                None => first_absent(all.take(i as int), held) is None,
            },
        decreases list@.len() - i,
    {
        assert(all.take(i + 1).drop_last() =~= all.take(i as int));
        assert(all.take(i + 1).last() == list@[i as int]@);
        if found.is_none() && !contains(other, list[i].as_str()) {
            found = Some(i);
        }
        i = i + 1;
    }
    assert(all.take(i as int) =~= all);
    found
}

/// Finds the first position of a name.
pub fn index_of(list: &[String], name: &str) -> (r: Option<usize>)
    ensures
        match r {
            Some(i) => i < list@.len() && position(text::names(list@), name@) == Some(i as int),
            None => position(text::names(list@), name@) is None,
        },
{
    let mut i: usize = 0;
    while i < list.len()
        invariant
            i <= list@.len(),
            forall|j: int| 0 <= j < i ==> (#[trigger] text::names(list@)[j]) != name@,
        decreases list@.len() - i,
    {
        if same_text(list[i].as_str(), name) {
            proof {
                position_at(text::names(list@), name@, i as int);
            }
            return Some(i);
        }
        i = i + 1;
    }
    proof {
        position_absent(text::names(list@), name@);
    }
    None
}

/// The first positions in `list` of those of `wanted` that it holds, in the
/// order of `wanted`.
pub open spec fn positions(wanted: Seq<Seq<char>>, list: Seq<Seq<char>>) -> Seq<int>
    decreases wanted.len(),
{
    if wanted.len() == 0 {
        Seq::empty()
    } else {
        let before = positions(wanted.drop_last(), list);
        match position(list, wanted.last()) {
            Some(i) => before.push(i),
            None => before,
        }
    }
}

/// Where every wanted name is held, each has its position.
pub proof fn positions_of_held(wanted: Seq<Seq<char>>, list: Seq<Seq<char>>)
    requires
        all_in(wanted, list),
    ensures
        positions(wanted, list).len() == wanted.len(),
        forall|i: int|
            0 <= i < wanted.len() ==> 0 <= #[trigger] positions(wanted, list)[i] < list.len()
                && list[positions(wanted, list)[i]] == wanted[i],
    decreases wanted.len(),
{
    if wanted.len() > 0 {
        let front = wanted.drop_last();
        assert forall|i: int| 0 <= i < front.len() implies list.contains(#[trigger] front[i]) by {
            assert(list.contains(wanted[i]));
        }
        positions_of_held(front, list);
        assert(list.contains(wanted[wanted.len() - 1]));
        position_is_first(list, wanted.last());
    }
}

/// Indices as integers.
pub open spec fn indices(list: Seq<usize>) -> Seq<int> {
    Seq::new(list.len(), |i: int| list[i] as int)
}

/// Finds the first positions of those of `wanted` that `list` holds.
pub fn indices_of(wanted: &[String], list: &[String]) -> (r: Vec<usize>)
    ensures
        indices(r@) == positions(text::names(wanted@), text::names(list@)),
{
    let ghost all = text::names(wanted@);
    let ghost held = text::names(list@);
    let mut out: Vec<usize> = Vec::new();
    let mut i: usize = 0;
    assert(all.take(0) =~= Seq::<Seq<char>>::empty());
    assert(indices(out@) =~= positions(all.take(0), held));
    while i < wanted.len()
        invariant
            i <= wanted@.len(),
            all == text::names(wanted@),
            held == text::names(list@),
            indices(out@) == positions(all.take(i as int), held),
        decreases wanted@.len() - i,
    {
        assert(all.take(i + 1).drop_last() =~= all.take(i as int));
        assert(all.take(i + 1).last() == wanted@[i as int]@);
        let ghost before = out@;
        match index_of(list, wanted[i].as_str()) {
            Some(k) => {
                out.push(k);
                assert(indices(out@) =~= indices(before).push(k as int));
            },
            None => {},
        }
        i = i + 1;
    }
    assert(all.take(i as int) =~= all);
    out
}

/// `Arc::<[T]>::from(Vec<T>)` of std: a shared slice that holds the items of the
/// list, in order.
#[verifier::external_body]
pub(crate) fn share(list: Vec<String>) -> (r: Arc<[String]>)
    ensures
        r@ == list@,
{
    Arc::from(list)
}

/// Leaving names out works name by name, and changes neither the order nor the
/// number of the others.
pub proof fn without_goes_name_by_name(
    first: Seq<Seq<char>>,
    second: Seq<Seq<char>>,
    name: Seq<char>,
    excluded: Seq<Seq<char>>,
)
    ensures
        without(first + second, excluded) == without(first, excluded) + without(second, excluded),
        excluded.contains(name) ==> without(seq![name], excluded).len() == 0,
        !excluded.contains(name) ==> without(seq![name], excluded) == seq![name],
        none_in(without(first, excluded), excluded),
        none_in(first, excluded) ==> without(first, excluded) == first,
        all_in(first, excluded) ==> without(first, excluded).len() == 0,
    decreases first.len(),
{
    let keeps = |n: Seq<char>| !excluded.contains(n);
    Seq::filter_distributes_over_add(first, second, keeps);
    assert(seq![name].drop_last() =~= Seq::<Seq<char>>::empty());
    let one = seq![name];
    assert(one.drop_last().filter(keeps).len() == 0) by {
        one.drop_last().lemma_filter_len(keeps);
    }
    assert(one.filter(keeps) == if keeps(one.last()) {
        one.drop_last().filter(keeps).push(one.last())
    } else {
        one.drop_last().filter(keeps)
    }) by {
        reveal(Seq::filter);
    }
    if keeps(name) {
        assert(one.filter(keeps) =~= seq![name]);
    }
    assert forall|i: int| 0 <= i < without(first, excluded).len() implies !excluded.contains(
        #[trigger] without(first, excluded)[i],
    ) by {
        first.lemma_filter_pred(keeps, i);
    }
    reveal(Seq::filter);
    if first.len() > 0 {
        let front = first.drop_last();
        without_goes_name_by_name(front, second, name, excluded);
        assert(forall|i: int| 0 <= i < front.len() ==> front[i] == first[i]);
        assert(first[first.len() - 1] == first.last());
        if none_in(first, excluded) {
            assert forall|i: int| 0 <= i < front.len() implies !excluded.contains(
                #[trigger] front[i],
            ) by {
                assert(!excluded.contains(first[i]));
            }
            assert(first =~= front.push(first.last()));
        }
        if all_in(first, excluded) {
            assert forall|i: int| 0 <= i < front.len() implies excluded.contains(
                #[trigger] front[i],
            ) by {
                assert(excluded.contains(first[i]));
            }
        }
    }
}

/// A list starts with another exactly where it is that list and something more.
pub proof fn starts_with_iff(list: Seq<Seq<char>>, prefix: Seq<Seq<char>>, rest: Seq<Seq<char>>)
    ensures
        starts_with(prefix + rest, prefix),
        starts_with(list, prefix) ==> list == prefix + list.skip(prefix.len() as int),
{
    assert((prefix + rest).take(prefix.len() as int) =~= prefix);
    if starts_with(list, prefix) {
        assert(list =~= list.take(prefix.len() as int) + list.skip(prefix.len() as int));
    }
}

/// All names of a list are in another, or none of them is, as it is of the sets of
/// their names.
pub proof fn in_as_sets(list: Seq<Seq<char>>, other: Seq<Seq<char>>)
    ensures
        all_in(list, other) <==> list.to_set().subset_of(other.to_set()),
        none_in(list, other) <==> list.to_set().disjoint(other.to_set()),
{
    if list.to_set().subset_of(other.to_set()) {
        assert forall|i: int| 0 <= i < list.len() implies other.contains(#[trigger] list[i]) by {
            assert(list.to_set().contains(list[i]));
            assert(other.to_set().contains(list[i]));
        }
    }
    if list.to_set().disjoint(other.to_set()) {
        assert forall|i: int| 0 <= i < list.len() implies !other.contains(#[trigger] list[i]) by {
            assert(list.to_set().contains(list[i]));
            assert(!other.to_set().contains(list[i]));
        }
    }
}

/// What is left of a list when later occurrences go: the same names, none twice,
/// in the order in which they first occur.
pub proof fn distinct_keeps_first_occurrences(list: Seq<Seq<char>>, n: int)
    requires
        0 <= n <= list.len(),
    ensures
        distinct(list).no_duplicates(),
        forall|name: Seq<char>| #[trigger] distinct(list).contains(name) <==> list.contains(name),
        distinct(list.take(n)).is_prefix_of(distinct(list)),
        list.no_duplicates() ==> distinct(list) == list,
    decreases list.len(),
{
    if list.len() > 0 {
        let front = list.drop_last();
        let last = list.last();
        distinct_keeps_first_occurrences(front, if n < list.len() { n } else { n - 1 });
        assert(list =~= front.push(last));
        assert(distinct(front).contains(last) <==> front.contains(last));
        assert forall|name: Seq<char>| #[trigger] distinct(list).contains(name) <==> list.contains(
            name,
        ) by {
            assert(distinct(front).contains(name) <==> front.contains(name));
            if list.contains(name) {
                let i = choose|i: int| 0 <= i < list.len() && list[i] == name;
                if i < front.len() {
                    assert(front[i] == name);
                    let k = choose|k: int|
                        0 <= k < distinct(front).len() && distinct(front)[k] == name;
                    assert(distinct(list)[k] == name);
                } else if front.contains(last) {
                    let k = choose|k: int|
                        0 <= k < distinct(front).len() && distinct(front)[k] == name;
                    assert(distinct(list)[k] == name);
                } else {
                    assert(distinct(list)[distinct(front).len() as int] == name);
                }
            }
            if distinct(list).contains(name) {
                let k = choose|k: int| 0 <= k < distinct(list).len() && distinct(list)[k] == name;
                if k < distinct(front).len() {
                    assert(distinct(front)[k] == name);
                    let i = choose|i: int| 0 <= i < front.len() && front[i] == name;
                    assert(list[i] == name);
                } else {
                    assert(list[list.len() - 1] == name);
                }
            }
        }
        if n < list.len() {
            assert(list.take(n) =~= front.take(n));
        } else {
            assert(list.take(n) =~= list);
        }
        if list.no_duplicates() {
            assert forall|i: int, j: int|
                0 <= i < front.len() && 0 <= j < front.len() && i != j implies front[i]
                != front[j] by {
                assert(list[i] != list[j]);
            }
            if front.contains(last) {
                let i = choose|i: int| 0 <= i < front.len() && front[i] == last;
                assert(list[i] != list[list.len() - 1]);
            }
        }
    } else {
        assert(list.take(n) =~= list);
    }
}

/// The names that are repeated: all that occur twice, each once, in the order in
/// which they occur again.
pub proof fn repeated_are_all(list: Seq<Seq<char>>, i: int, j: int, n: int)
    requires
        0 <= i < j < list.len(),
        list[i] == list[j],
        0 <= n <= list.len(),
    ensures
        repeated(list).contains(list[i]),
        repeated(list).no_duplicates(),
        repeated(list.take(n)).is_prefix_of(repeated(list)),
    decreases list.len(),
{
    let front = list.drop_last();
    let last = list.last();
    repeated_are_distinct(list, n);
    if j < front.len() {
        repeated_are_all(front, i, j, 0);
        let k = choose|k: int| 0 <= k < repeated(front).len() && repeated(front)[k] == list[i];
        assert(repeated(list)[k] == list[i]);
    } else {
        assert(front[i] == last);
        if !repeated(front).contains(last) {
            assert(repeated(list)[repeated(front).len() as int] == last);
        }
    }
}

proof fn repeated_are_distinct(list: Seq<Seq<char>>, n: int)
    requires
        0 <= n <= list.len(),
    ensures
        repeated(list).no_duplicates(),
        repeated(list.take(n)).is_prefix_of(repeated(list)),
    decreases list.len(),
{
    if list.len() > 0 {
        let front = list.drop_last();
        repeated_are_distinct(front, if n < list.len() { n } else { n - 1 });
        if n < list.len() {
            assert(list.take(n) =~= front.take(n));
        } else {
            assert(list.take(n) =~= list);
        }
    } else {
        assert(list.take(n) =~= list);
    }
}

/// The first absent name has only held ones before it.
pub proof fn first_absent_is_first(list: Seq<Seq<char>>, other: Seq<Seq<char>>, k: int)
    requires
        0 <= k < list.len(),
        !other.contains(list[k]),
        forall|j: int| 0 <= j < k ==> other.contains(#[trigger] list[j]),
    ensures
        first_absent(list, other) == Some(list[k]),
    decreases list.len(),
{
    let front = list.drop_last();
    assert(forall|j: int| 0 <= j < front.len() ==> #[trigger] front[j] == list[j]);
    if k < front.len() {
        first_absent_is_first(front, other, k);
    } else {
        first_absent_iff(front, other);
        assert forall|j: int| 0 <= j < front.len() implies other.contains(#[trigger] front[j]) by {
            assert(other.contains(list[j]));
        }
        assert(all_in(front, other));
    }
}

/// Positions are found name by name, in the order of the wanted names.
pub proof fn positions_go_name_by_name(
    first: Seq<Seq<char>>,
    second: Seq<Seq<char>>,
    name: Seq<char>,
    list: Seq<Seq<char>>,
)
    ensures
        positions(first + second, list) == positions(first, list) + positions(second, list),
        list.contains(name) ==> positions(seq![name], list) == seq![position(list, name)->0],
        !list.contains(name) ==> positions(seq![name], list).len() == 0,
    decreases second.len(),
{
    position_is_first(list, name);
    assert(seq![name].drop_last() =~= Seq::<Seq<char>>::empty());
    assert(seq![name].last() == name);
    reveal_with_fuel(positions, 2);
    if second.len() > 0 {
        positions_go_name_by_name(first, second.drop_last(), name, list);
        assert((first + second).drop_last() =~= first + second.drop_last());
        assert((first + second).last() == second.last());
    } else {
        assert(first + second =~= first);
    }
}

} // verus!

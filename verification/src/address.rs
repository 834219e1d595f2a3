//! Account addresses, written as their Stellar strkey text.
use vstd::prelude::*;

verus! {

/// An account or contract address, held as its strkey (`G...` or `C...`).
pub type Address = String;

/// The abstract value of a list of addresses.
pub open spec fn addresses_view(v: Seq<Address>) -> Seq<Seq<char>> {
    v.map_values(|a: Address| a@)
}

/// Whether two addresses are the same account.
pub fn same_address(a: &Address, b: &Address) -> (res: bool)
    ensures
        res == (a@ == b@),
{
    *a == *b
}

/// Whether `a` occurs in `list`.
pub fn contains_address(list: &Vec<Address>, a: &Address) -> (res: bool)
    ensures
        res == addresses_view(list@).contains(a@),
{
    let mut i: usize = 0;
    while i < list.len()
        invariant
            0 <= i <= list.len(),
            forall|j: int| 0 <= j < i ==> list@[j]@ != a@,
        decreases list.len() - i,
    {
        if same_address(&list[i], a) {
            assert(addresses_view(list@)[i as int] == a@);
            return true;
        }
        i = i + 1;
    }
    proof {
        if addresses_view(list@).contains(a@) {
            let k = choose|k: int| 0 <= k < addresses_view(list@).len() && addresses_view(list@)[k] == a@;
            assert(list@[k]@ == a@);
        }
    }
    false
}

/// A copy of a list of addresses.
pub fn copy_addresses(list: &Vec<Address>) -> (res: Vec<Address>)
    ensures
        addresses_view(res@) == addresses_view(list@),
{
    let mut out: Vec<Address> = Vec::new();
    let mut i: usize = 0;
    while i < list.len()
        invariant
            0 <= i <= list.len(),
            out@.len() == i,
            forall|j: int| 0 <= j < i ==> out@[j]@ == list@[j]@,
        decreases list.len() - i,
    {
        out.push(list[i].clone());
        i = i + 1;
    }
    assert(addresses_view(out@) =~= addresses_view(list@));
    out
}

/// The number of different addresses in `s`.
pub open spec fn distinct_count(s: Seq<Seq<char>>) -> nat
    decreases s.len(),
{
    if s.len() == 0 {
        0
    } else {
        distinct_count(s.drop_last()) + if s.drop_last().contains(s.last()) {
            0nat
        } else {
            1nat
        }
    }
}

/// The number of different addresses in `list`.
pub fn count_distinct(list: &Vec<Address>) -> (res: usize)
    ensures
        res == distinct_count(addresses_view(list@)),
        res == addresses_view(list@).to_set().len(),
{
    let ghost whole = addresses_view(list@);
    let mut seen: Vec<Address> = Vec::new();
    let mut n: usize = 0;
    let mut i: usize = 0;
    assert(whole.take(0) =~= addresses_view(seen@));
    while i < list.len()
        invariant
            0 <= i <= list.len(),
            whole == addresses_view(list@),
            addresses_view(seen@) == whole.take(i as int),
            n == distinct_count(whole.take(i as int)),
            n <= i,
        decreases list.len() - i,
    {
        let ghost prefix = whole.take(i as int);
        assert(whole.take(i + 1).drop_last() =~= prefix);
        assert(whole.take(i + 1).last() == list@[i as int]@);
        if !contains_address(&seen, &list[i]) {
            n = n + 1;
        }
        let ghost prev = seen@;
        seen.push(list[i].clone());
        assert(addresses_view(seen@) =~= addresses_view(prev).push(list@[i as int]@));
        assert(whole.take(i + 1) =~= prefix.push(list@[i as int]@));
        i = i + 1;
    }
    assert(whole.take(list.len() as int) =~= whole);
    proof {
        law_distinct_count_is_set_size(whole);
    }
    n
}

/// `first` followed by a copy of `rest`.
pub fn prepend_address(first: &Address, rest: &Vec<Address>) -> (res: Vec<Address>)
    ensures
        addresses_view(res@) == seq![first@] + addresses_view(rest@),
{
    let mut out: Vec<Address> = Vec::new();
    out.push(first.clone());
    let mut i: usize = 0;
    while i < rest.len()
        invariant
            0 <= i <= rest.len(),
            out@.len() == i + 1,
            out@[0]@ == first@,
            forall|j: int| 0 <= j < i ==> out@[j + 1]@ == rest@[j]@,
        decreases rest.len() - i,
    {
        out.push(rest[i].clone());
        i = i + 1;
    }
    assert(addresses_view(out@) =~= seq![first@] + addresses_view(rest@));
    out
}

/// `distinct_count` counts the different addresses: it is the size of the set
/// of the sequence's elements.
pub proof fn law_distinct_count_is_set_size(s: Seq<Seq<char>>)
    ensures
        distinct_count(s) == s.to_set().len(),
        s.to_set().finite(),
    decreases s.len(),
{
    broadcast use {vstd::set::group_set_axioms, vstd::seq_lib::seq_to_set_is_finite};

    if s.len() == 0 {
        assert(s.to_set() =~= Set::<Seq<char>>::empty());
    } else {
        let p = s.drop_last();
        law_distinct_count_is_set_size(p);
        assert(s.to_set() =~= p.to_set().insert(s.last())) by {
            assert forall|x: Seq<char>| s.to_set().contains(x) <==> p.to_set().insert(s.last()).contains(x) by {
                if s.contains(x) {
                    let k = choose|k: int| 0 <= k < s.len() && s[k] == x;
                    if k < p.len() {
                        assert(p[k] == x);
                    }
                }
                if p.contains(x) {
                    let k = choose|k: int| 0 <= k < p.len() && p[k] == x;
                    assert(s[k] == x);
                }
                if x == s.last() {
                    assert(s[s.len() - 1] == x);
                }
            }
        }
        if p.contains(s.last()) {
            assert(p.to_set().contains(s.last()));
        } else {
            assert(!p.to_set().contains(s.last()));
        }
    }
}

} // verus!

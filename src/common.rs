use vstd::prelude::*;

verus! {

/// An account or contract identity, reduced to an opaque number.
#[derive(Clone, Copy, Debug, PartialEq, Eq, Structural, Hash)]
pub struct Address {
    pub id: u64,
}

impl Address {
    pub fn new(id: u64) -> (r: Address)
        ensures
            r.id == id,
    {
        Address { id }
    }
}

/// One movement of `amount` units of `token` from `from` to `to`.
#[derive(Clone, Copy, Debug, PartialEq, Eq, Structural)]
pub struct Transfer {
    pub token: Address,
    pub from: Address,
    pub to: Address,
    pub amount: i128,
}

/// The number of basis points that make up the whole (100%).
pub const BASIS_POINTS: i128 = 10_000;

pub open spec fn transfer_of(token: Address, from: Address, to: Address, amount: int) -> Transfer {
    Transfer { token, from, to, amount: amount as i128 }
}

/// The sum of a sequence of amounts.
pub open spec fn sum_of(s: Seq<i128>) -> int
    decreases s.len(),
{
    if s.len() == 0 {
        0
    } else {
        sum_of(s.drop_last()) + s.last()
    }
}

/// The total of the amounts moved by a sequence of transfers.
pub open spec fn total_of(ts: Seq<Transfer>) -> int
    decreases ts.len(),
{
    if ts.len() == 0 {
        0
    } else {
        total_of(ts.drop_last()) + ts.last().amount
    }
}

/// Whether no value occurs twice in `s`.
pub open spec fn distinct(s: Seq<Address>) -> bool {
    forall|i: int, j: int| 0 <= i < j < s.len() ==> s[i] != s[j]
}

/// The position of `x` in `s`, meaningful when `s` holds `x`.
pub open spec fn index_of(s: Seq<Address>, x: Address) -> int {
    choose|i: int| 0 <= i < s.len() && s[i] == x
}

pub proof fn lemma_index_of(s: Seq<Address>, x: Address)
    requires
        s.contains(x),
    ensures
        0 <= index_of(s, x) < s.len(),
        s[index_of(s, x)] == x,
{
}

pub proof fn lemma_sum_push(s: Seq<i128>, v: i128)
    ensures
        sum_of(s.push(v)) == sum_of(s) + v,
{
    assert(s.push(v).drop_last() =~= s);
}

pub proof fn lemma_total_push(ts: Seq<Transfer>, t: Transfer)
    ensures
        total_of(ts.push(t)) == total_of(ts) + t.amount,
{
    assert(ts.push(t).drop_last() =~= ts);
}

pub proof fn lemma_total_concat(a: Seq<Transfer>, b: Seq<Transfer>)
    ensures
        total_of(a + b) == total_of(a) + total_of(b),
    decreases b.len(),
{
    if b.len() == 0 {
        assert(a + b =~= a);
    } else {
        assert((a + b).drop_last() =~= a + b.drop_last());
        lemma_total_concat(a, b.drop_last());
    }
}

pub proof fn lemma_sum_update(s: Seq<i128>, i: int, v: i128)
    requires
        0 <= i < s.len(),
    ensures
        sum_of(s.update(i, v)) == sum_of(s) - s[i] + v,
    decreases s.len(),
{
    if i == s.len() - 1 {
        assert(s.update(i, v).drop_last() =~= s.drop_last());
    } else {
        assert(s.update(i, v).drop_last() =~= s.drop_last().update(i, v));
        lemma_sum_update(s.drop_last(), i, v);
    }
}

/// Entry-wise bounds carry over to the sums.
pub proof fn lemma_sum_bounded(s: Seq<i128>, t: Seq<i128>)
    requires
        s.len() == t.len(),
        forall|i: int| 0 <= i < s.len() ==> 0 <= #[trigger] s[i] <= t[i],
    ensures
        0 <= sum_of(s) <= sum_of(t),
    decreases s.len(),
{
    if s.len() > 0 {
        lemma_sum_bounded(s.drop_last(), t.drop_last());
    }
}

} // verus!

verus! {

/// In a sequence without repeats, the position of a value is the only one holding it.
pub proof fn lemma_index_of_unique(s: Seq<Address>, x: Address, j: int)
    requires
        distinct(s),
        0 <= j < s.len(),
        s[j] == x,
    ensures
        index_of(s, x) == j,
{
    assert(s.contains(x));
    lemma_index_of(s, x);
}

/// Finds where `who` stands in `list`.
pub fn find_address(list: &Vec<Address>, who: Address) -> (r: Option<usize>)
    ensures
        match r {
            Some(i) => i < list@.len() && list@[i as int] == who,
            None => !list@.contains(who),
        },
{
    let mut i: usize = 0;
    while i < list.len()
        invariant
            i <= list@.len(),
            forall|k: int| 0 <= k < i ==> list@[k] != who,
        decreases list@.len() - i,
    {
        if list[i] == who {
            return Some(i);
        }
        i += 1;
    }
    None
}

/// Whether `who` occurs in `list`.
pub fn contains_address(list: &Vec<Address>, who: Address) -> (r: bool)
    ensures
        r == list@.contains(who),
{
    match find_address(list, who) {
        Some(i) => {
            assert(list@[i as int] == who);
            true
        },
        None => false,
    }
}

/// Whether no address occurs twice in `list`.
pub fn all_distinct(list: &Vec<Address>) -> (r: bool)
    ensures
        r == distinct(list@),
{
    let n = list.len();
    let mut i: usize = 0;
    while i < n
        invariant
            n == list@.len(),
            i <= n,
            forall|a: int, b: int| 0 <= a < b < n && a < i ==> list@[a] != list@[b],
        decreases n - i,
    {
        let mut j: usize = i + 1;
        while j < n
            invariant
                n == list@.len(),
                i < n,
                i + 1 <= j <= n,
                forall|a: int, b: int| 0 <= a < b < n && a < i ==> list@[a] != list@[b],
                forall|b: int| i < b < j ==> list@[i as int] != list@[b],
            decreases n - j,
        {
            if list[i] == list[j] {
                return false;
            }
            j += 1;
        }
        i += 1;
    }
    true
}

} // verus!

verus! {

pub proof fn lemma_distinct_remove(s: Seq<Address>, i: int)
    requires
        distinct(s),
        0 <= i < s.len(),
    ensures
        distinct(s.remove(i)),
{
    let t = s.remove(i);
    assert forall|a: int, b: int| 0 <= a < b < t.len() implies t[a] != t[b] by {
        let a2 = if a < i { a } else { a + 1 };
        let b2 = if b < i { b } else { b + 1 };
        assert(t[a] == s[a2] && t[b] == s[b2]);
    }
}

pub proof fn lemma_distinct_push(s: Seq<Address>, x: Address)
    requires
        distinct(s),
        !s.contains(x),
    ensures
        distinct(s.push(x)),
{
    let t = s.push(x);
    assert forall|a: int, b: int| 0 <= a < b < t.len() implies t[a] != t[b] by {
        if b == s.len() {
            assert(s[a] == t[a]);
        }
    }
}

} // verus!

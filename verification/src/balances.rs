//! A book of amounts kept per account.

use crate::account::AccountId;
use crate::Balance;
use vstd::prelude::*;

verus! {

/// A book that records one amount per account. An account that was never
/// written has no line and counts as holding nothing. The view maps each
/// recorded account to its amount.
pub struct Balances {
    entries: Vec<(AccountId, Balance)>,
}

/// The amount that the map `m` gives to `owner`: what is recorded, or zero.
pub open spec fn amount_of(m: Map<Seq<u8>, nat>, owner: Seq<u8>) -> nat {
    if m.dom().contains(owner) {
        m[owner]
    } else {
        0
    }
}

/// The book that results from writing the lines of `list` one after the
/// other into an empty book: a later line replaces an earlier line of the
/// same account.
pub open spec fn recorded(list: Seq<(AccountId, Balance)>) -> Map<Seq<u8>, nat>
    decreases list.len(),
{
    if list.len() == 0 {
        Map::empty()
    } else {
        recorded(list.drop_last()).insert(list.last().0@, list.last().1 as nat)
    }
}

/// The sum of the amounts in the book `recorded(list)`.
pub open spec fn recorded_sum(list: Seq<(AccountId, Balance)>) -> nat
    decreases list.len(),
{
    if list.len() == 0 {
        0
    } else {
        (recorded_sum(list.drop_last()) - amount_of(recorded(list.drop_last()), list.last().0@)
            + list.last().1) as nat
    }
}

/// No account has two lines in `list`.
pub open spec fn distinct_owners(list: Seq<(AccountId, Balance)>) -> bool {
    forall|i: int, j: int| #![trigger list[i], list[j]]
        0 <= i < list.len() && 0 <= j < list.len() && list[i].0@ == list[j].0@ ==> i == j
}

/// The sum of the amounts of all lines of `list`.
pub open spec fn sum_of_amounts(list: Seq<(AccountId, Balance)>) -> nat
    decreases list.len(),
{
    if list.len() == 0 {
        0
    } else {
        sum_of_amounts(list.drop_last()) + list.last().1 as nat
    }
}

/// An account without a line in `s` is not in the book.
proof fn lemma_recorded_absent(s: Seq<(AccountId, Balance)>, owner: Seq<u8>)
    requires
        forall|i: int| 0 <= i < s.len() ==> (#[trigger] s[i]).0@ != owner,
    ensures
        !recorded(s).dom().contains(owner),
    decreases s.len(),
{
    if s.len() > 0 {
        lemma_recorded_absent(s.drop_last(), owner);
    }
}

/// Where no account has two lines, the book holds every line of `s`.
proof fn lemma_recorded_at(s: Seq<(AccountId, Balance)>, i: int)
    requires
        distinct_owners(s),
        0 <= i < s.len(),
    ensures
        recorded(s).dom().contains(s[i].0@),
        recorded(s)[s[i].0@] == s[i].1,
    decreases s.len(),
{
    if i < s.len() - 1 {
        lemma_recorded_at(s.drop_last(), i);
    }
}

/// An account in the book has a line in `s`: the result is its place.
proof fn lemma_recorded_present(s: Seq<(AccountId, Balance)>, owner: Seq<u8>) -> (i: int)
    requires
        recorded(s).dom().contains(owner),
    ensures
        0 <= i < s.len(),
        s[i].0@ == owner,
    decreases s.len(),
{
    if s.last().0@ == owner {
        s.len() - 1
    } else {
        lemma_recorded_present(s.drop_last(), owner)
    }
}

/// Replacing the line of an account in `s` replaces its amount in the
/// book, and changes the sum of the amounts by the difference. No amount
/// exceeds the sum.
proof fn lemma_recorded_update(s: Seq<(AccountId, Balance)>, i: int, line: (AccountId, Balance))
    requires
        distinct_owners(s),
        0 <= i < s.len(),
        line.0@ == s[i].0@,
    ensures
        recorded(s.update(i, line)) == recorded(s).insert(line.0@, line.1 as nat),
        sum_of_amounts(s.update(i, line)) == sum_of_amounts(s) - s[i].1 + line.1,
        s[i].1 <= sum_of_amounts(s),
    decreases s.len(),
{
    let t = s.update(i, line);
    if i == s.len() - 1 {
        assert(t.drop_last() =~= s.drop_last());
    } else {
        assert(t.drop_last() =~= s.drop_last().update(i, line));
        lemma_recorded_update(s.drop_last(), i, line);
    }
}

/// Where no account has two lines, the sum of the book is the sum of the
/// amounts of all lines.
pub proof fn lemma_sum_of_distinct(s: Seq<(AccountId, Balance)>)
    requires
        distinct_owners(s),
    ensures
        recorded_sum(s) == sum_of_amounts(s),
    decreases s.len(),
{
    if s.len() > 0 {
        lemma_sum_of_distinct(s.drop_last());
        assert forall|i: int| 0 <= i < s.drop_last().len() implies (#[trigger] s.drop_last()[i]).0@
            != s.last().0@ by {}
        lemma_recorded_absent(s.drop_last(), s.last().0@);
    }
}

impl View for Balances {
    type V = Map<Seq<u8>, nat>;

    closed spec fn view(&self) -> Map<Seq<u8>, nat> {
        recorded(self.entries@)
    }
}

impl Balances {
    /// No account has two lines.
    pub closed spec fn wf(&self) -> bool {
        distinct_owners(self.entries@)
    }

    /// The sum of all recorded amounts.
    pub closed spec fn sum(&self) -> nat {
        sum_of_amounts(self.entries@)
    }

    /// No single amount exceeds the sum of all amounts.
    pub proof fn lemma_amount_le_sum(&self, owner: Seq<u8>)
        requires
            self.wf(),
        ensures
            amount_of(self@, owner) <= self.sum(),
    {
        if self@.dom().contains(owner) {
            let i = lemma_recorded_present(self.entries@, owner);
            lemma_recorded_at(self.entries@, i);
            lemma_recorded_update(self.entries@, i, self.entries@[i]);
        }
    }

    /// An empty book.
    pub fn new() -> (book: Balances)
        ensures
            book.wf(),
            book@ == Map::<Seq<u8>, nat>::empty(),
            book.sum() == 0,
    {
        Balances { entries: Vec::new() }
    }

    /// The place of the line of `owner`, if it has one.
    fn find(&self, owner: &AccountId) -> (found: Option<usize>)
        ensures
            match found {
                Some(i) => i < self.entries@.len() && self.entries@[i as int].0@ == owner@,
                None => forall|i: int|
                    0 <= i < self.entries@.len() ==> (#[trigger] self.entries@[i]).0@ != owner@,
            },
    {
        let mut i: usize = 0;
        while i < self.entries.len()
            invariant
                0 <= i <= self.entries.len(),
                forall|j: int| 0 <= j < i ==> (#[trigger] self.entries@[j]).0@ != owner@,
            decreases self.entries.len() - i,
        {
            if self.entries[i].0 == *owner {
                return Some(i);
            }
            i += 1;
        }
        None
    }

    /// The amount recorded for `owner`, or zero where none is.
    pub fn get(&self, owner: &AccountId) -> (amount: Balance)
        requires
            self.wf(),
        ensures
            amount == amount_of(self@, owner@),
    {
        match self.find(owner) {
            Some(i) => {
                proof {
                    lemma_recorded_at(self.entries@, i as int);
                }
                self.entries[i].1
            },
            None => {
                proof {
                    lemma_recorded_absent(self.entries@, owner@);
                }
                0
            },
        }
    }

    /// Records `amount` for `owner`, in place of what was recorded before.
    pub fn insert(&mut self, owner: AccountId, amount: Balance)
        requires
            old(self).wf(),
        ensures
            final(self).wf(),
            final(self)@ == old(self)@.insert(owner@, amount as nat),
            final(self).sum() == old(self).sum() - amount_of(old(self)@, owner@) + amount,
    {
        let ghost before = self.entries@;
        let line: (AccountId, Balance) = (owner, amount);
        match self.find(&owner) {
            Some(i) => {
                proof {
                    lemma_recorded_at(before, i as int);
                    lemma_recorded_update(before, i as int, line);
                }
                self.entries[i] = line;
            },
            None => {
                proof {
                    lemma_recorded_absent(before, owner@);
                }
                self.entries.push(line);
                assert(self.entries@.drop_last() =~= before);
            },
        }
    }

    /// The lines of the book: each recorded account once, with its amount.
    /// Written into an empty book they give this book again.
    pub fn entries(&self) -> (list: Vec<(AccountId, Balance)>)
        requires
            self.wf(),
        ensures
            distinct_owners(list@),
            recorded(list@) == self@,
            recorded_sum(list@) == self.sum(),
            sum_of_amounts(list@) == self.sum(),
    {
        let mut list: Vec<(AccountId, Balance)> = Vec::new();
        let mut i: usize = 0;
        while i < self.entries.len()
            invariant
                0 <= i <= self.entries.len(),
                list@ == self.entries@.take(i as int),
            decreases self.entries.len() - i,
        {
            list.push(self.entries[i]);
            i += 1;
        }
        assert(list@ =~= self.entries@);
        proof {
            lemma_sum_of_distinct(self.entries@);
        }
        list
    }

    /// The book that holds the lines of `list`, written one after the other.
    pub fn from_entries(list: &Vec<(AccountId, Balance)>) -> (book: Balances)
        ensures
            book.wf(),
            book@ == recorded(list@),
            book.sum() == recorded_sum(list@),
    {
        let mut book = Balances::new();
        let mut i: usize = 0;
        while i < list.len()
            invariant
                0 <= i <= list.len(),
                book.wf(),
                book@ == recorded(list@.take(i as int)),
                book.sum() == recorded_sum(list@.take(i as int)),
            decreases list.len() - i,
        {
            assert(list@.take(i + 1).drop_last() =~= list@.take(i as int));
            proof {
                book.lemma_amount_le_sum(list@[i as int].0@);
            }
            book.insert(list[i].0, list[i].1);
            i += 1;
        }
        assert(list@.take(i as int) =~= list@);
        book
    }

    /// The sum of all recorded amounts, or `None` where it does not fit the
    /// machine word.
    pub fn checked_sum(&self) -> (sum: Option<Balance>)
        ensures
            match sum {
                Some(s) => s == self.sum(),
                None => self.sum() > u128::MAX,
            },
    {
        let mut sum: Balance = 0;
        let mut i: usize = 0;
        while i < self.entries.len()
            invariant
                0 <= i <= self.entries.len(),
                sum == sum_of_amounts(self.entries@.take(i as int)),
            decreases self.entries.len() - i,
        {
            assert(self.entries@.take(i + 1).drop_last() =~= self.entries@.take(i as int));
            match sum.checked_add(self.entries[i].1) {
                Some(next) => {
                    sum = next;
                },
                None => {
                    proof {
                        lemma_sum_grows(self.entries@, i + 1);
                    }
                    return None;
                },
            }
            i += 1;
        }
        assert(self.entries@.take(i as int) =~= self.entries@);
        Some(sum)
    }
}

/// The sum of the first lines does not exceed the sum of all lines.
proof fn lemma_sum_grows(s: Seq<(AccountId, Balance)>, n: int)
    requires
        0 <= n <= s.len(),
    ensures
        sum_of_amounts(s.take(n)) <= sum_of_amounts(s),
    decreases s.len() - n,
{
    if n < s.len() {
        assert(s.take(n + 1).drop_last() =~= s.take(n));
        lemma_sum_grows(s, n + 1);
    } else {
        assert(s.take(n) =~= s);
    }
}

} // verus!

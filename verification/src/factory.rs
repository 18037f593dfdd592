//! The registry of pools: one pool per unordered pair of assets.
//!
//! The registry deploys nothing itself. [`Factory::pairDeployment`] tests a
//! request and says what is to be deployed; once that is done,
//! [`Factory::createPair`] records the new pool's address and returns the
//! notification to send.

pub mod laws;
pub mod view;

pub use self::view::{canonical, le_bytes, replayed, FactoryView};

use self::laws::{lemma_after_create_pair_wf, lemma_create_pair_order_independent};
use crate::account::{id_less, lemma_id_order_total, AccountId};
use crate::Balance;
use vstd::prelude::*;

verus! {

/// Why a registry operation was refused.
#[derive(Debug, Copy, Clone, PartialEq, Eq, Structural)]
pub enum Error {
    IdenticalAddresses,
    PairExists,
    ZeroAddress,
    Unauthorized,
}

/// The notification of a new pool: its two assets in canonical order, its
/// address, and the number of pools that the registry then holds.
#[derive(Debug, Clone, Copy, PartialEq, Eq)]
pub struct PairCreated {
    pub token0: AccountId,
    pub token1: AccountId,
    pub pair: AccountId,
    pub current_pair_length: u64,
}

/// What is to be deployed for a new pool: the pool of `token0` and `token1`,
/// endowed with `endowment`, at the address that `salt` determines.
#[derive(Debug, Clone, Copy, PartialEq, Eq)]
pub struct PairDeployment {
    pub token0: AccountId,
    pub token1: AccountId,
    pub endowment: Balance,
    pub salt: [u8; 4],
}

/// One pool of the registry: its two assets in canonical order, and its
/// address.
#[derive(Debug, Clone, Copy, PartialEq, Eq)]
pub struct PairRecord {
    pub token0: AccountId,
    pub token1: AccountId,
    pub pair: AccountId,
}

/// The registry of pools and its fee administration. The view is a
/// [`FactoryView`].
pub struct Factory {
    created: Vec<PairRecord>,
    feeTo: AccountId,
    feeToSetter: AccountId,
}

/// `record` is the pool of `a` and `b`, in either order.
spec fn names(record: PairRecord, a: Seq<u8>, b: Seq<u8>) -> bool {
    (record.token0@ == a && record.token1@ == b) || (record.token0@ == b && record.token1@ == a)
}

/// The record at `i` names its assets in canonical order.
spec fn ordered_at(list: Seq<PairRecord>, i: int) -> bool {
    id_less(list[i].token0@, list[i].token1@)
}

/// Every record names its assets in canonical order.
spec fn in_order(list: Seq<PairRecord>) -> bool {
    forall|i: int| 0 <= i < list.len() ==> #[trigger] ordered_at(list, i)
}

/// Records in canonical order stay so without the last, which is in
/// canonical order itself.
proof fn lemma_in_order_drop_last(list: Seq<PairRecord>)
    requires
        in_order(list),
        list.len() > 0,
    ensures
        in_order(list.drop_last()),
        id_less(list.last().token0@, list.last().token1@),
{
    assert(ordered_at(list, list.len() - 1));
    assert forall|i: int| 0 <= i < list.drop_last().len() implies #[trigger] ordered_at(
        list.drop_last(),
        i,
    ) by {
        assert(ordered_at(list, i));
    }
}

/// A registry made by recording pools is well-formed, keeps its fee
/// administration, and lists as many pools as were recorded.
proof fn lemma_replayed(fee_to: Seq<u8>, fee_to_setter: Seq<u8>, list: Seq<PairRecord>)
    requires
        replayed(FactoryView::initial(fee_to, fee_to_setter), list) is Some,
    ensures
        ({
            let registry = replayed(FactoryView::initial(fee_to, fee_to_setter), list)->0;
            &&& registry.wf()
            &&& registry.fee_to == fee_to
            &&& registry.fee_to_setter == fee_to_setter
            &&& registry.all_pairs.len() == list.len()
        }),
    decreases list.len(),
{
    let start = FactoryView::initial(fee_to, fee_to_setter);
    if list.len() > 0 {
        lemma_replayed(fee_to, fee_to_setter, list.drop_last());
        let before = replayed(start, list.drop_last())->0;
        lemma_after_create_pair_wf(before, list.last().token0@, list.last().token1@, list.last().pair@);
    }
}

/// Every pool that was recorded is listed at its place and found under both
/// orders of its assets.
proof fn lemma_replayed_at(fee_to: Seq<u8>, fee_to_setter: Seq<u8>, list: Seq<PairRecord>, i: int)
    requires
        in_order(list),
        replayed(FactoryView::initial(fee_to, fee_to_setter), list) is Some,
        0 <= i < list.len(),
    ensures
        ({
            let registry = replayed(FactoryView::initial(fee_to, fee_to_setter), list)->0;
            &&& registry.all_pairs.len() == list.len()
            &&& registry.all_pairs[i] == list[i].pair@
            &&& registry.pair_of(list[i].token0@, list[i].token1@) == Some(list[i].pair@)
            &&& registry.pair_of(list[i].token1@, list[i].token0@) == Some(list[i].pair@)
        }),
    decreases list.len(),
{
    lemma_in_order_drop_last(list);
    lemma_replayed(fee_to, fee_to_setter, list);
    lemma_replayed(fee_to, fee_to_setter, list.drop_last());
    if i < list.len() - 1 {
        lemma_replayed_at(fee_to, fee_to_setter, list.drop_last(), i);
    }
}

/// Every pool that is found was recorded: the result is the place of a
/// record that names its assets.
proof fn lemma_replayed_named(
    fee_to: Seq<u8>,
    fee_to_setter: Seq<u8>,
    list: Seq<PairRecord>,
    a: Seq<u8>,
    b: Seq<u8>,
) -> (i: int)
    requires
        in_order(list),
        replayed(FactoryView::initial(fee_to, fee_to_setter), list) is Some,
        (replayed(FactoryView::initial(fee_to, fee_to_setter), list)->0).pairs.dom().contains((a, b)),
    ensures
        0 <= i < list.len(),
        names(list[i], a, b),
    decreases list.len(),
{
    let start = FactoryView::initial(fee_to, fee_to_setter);
    if list.len() == 0 {
        0
    } else {
        lemma_in_order_drop_last(list);
        let before = replayed(start, list.drop_last())->0;
        if before.pairs.dom().contains((a, b)) {
            let i = lemma_replayed_named(fee_to, fee_to_setter, list.drop_last(), a, b);
            i
        } else {
            list.len() - 1
        }
    }
}

/// Recording pools and changing the fee administration do not touch each
/// other.
proof fn lemma_replayed_fees(registry: FactoryView, fee_to: Seq<u8>, fee_to_setter: Seq<u8>, list: Seq<PairRecord>)
    ensures
        match replayed(registry, list) {
            Some(after) => replayed(FactoryView { fee_to, fee_to_setter, ..registry }, list) == Some(
                FactoryView { fee_to, fee_to_setter, ..after },
            ),
            None => replayed(FactoryView { fee_to, fee_to_setter, ..registry }, list) is None,
        },
    decreases list.len(),
{
    if list.len() > 0 {
        lemma_replayed_fees(registry, fee_to, fee_to_setter, list.drop_last());
    }
}

/// Once a pool is refused, recording further pools does not mend it.
proof fn lemma_replayed_stays_none(registry: FactoryView, list: Seq<PairRecord>, n: int)
    requires
        0 <= n <= list.len(),
        replayed(registry, list.take(n)) is None,
    ensures
        replayed(registry, list) is None,
    decreases list.len() - n,
{
    if n < list.len() {
        assert(list.take(n + 1).drop_last() =~= list.take(n));
        lemma_replayed_stays_none(registry, list, n + 1);
    } else {
        assert(list.take(n) =~= list);
    }
}

impl View for Factory {
    type V = FactoryView;

    closed spec fn view(&self) -> FactoryView {
        let start = FactoryView::initial(self.feeTo@, self.feeToSetter@);
        let registry = match replayed(start, self.created@) {
            Some(registry) => registry,
            None => start,
        };
        FactoryView { fee_to: self.feeTo@, fee_to_setter: self.feeToSetter@, ..registry }
    }
}

impl Factory {
    /// The registry is consistent: it holds the pools that were recorded in
    /// it one after the other, each under its assets in canonical order.
    pub closed spec fn wf(&self) -> bool {
        &&& in_order(self.created@)
        &&& replayed(FactoryView::initial(self.feeTo@, self.feeToSetter@), self.created@) is Some
    }

    /// In a well-formed registry the state is well-formed, and the list of
    /// pools fits the machine word.
    pub proof fn lemma_wf(&self)
        requires
            self.wf(),
        ensures
            self@.wf(),
            self@.all_pairs.len() <= usize::MAX,
    {
        lemma_replayed(self.feeTo@, self.feeToSetter@, self.created@);
        assert(self.created.len() == self.created@.len());
    }

    /// A registry without pools, whose fees go to `_feeTo` and whose
    /// administrator is `_feeToSetter`.
    pub fn new(_feeTo: AccountId, _feeToSetter: AccountId) -> (registry: Factory)
        ensures
            registry.wf(),
            registry@ == FactoryView::initial(_feeTo@, _feeToSetter@),
    {
        Factory { created: Vec::new(), feeTo: _feeTo, feeToSetter: _feeToSetter }
    }

    /// The recipient of fees.
    pub fn feeTo(&self) -> (recipient: AccountId)
        ensures
            recipient@ == self@.fee_to,
    {
        self.feeTo
    }

    /// The administrator who names the recipient of fees.
    pub fn feeToSetter(&self) -> (administrator: AccountId)
        ensures
            administrator@ == self@.fee_to_setter,
    {
        self.feeToSetter
    }

    /// Names `_feeTo` as recipient of fees, on behalf of `caller`.
    pub fn setFeeTo(&mut self, caller: AccountId, _feeTo: AccountId) -> (result: Result<(), Error>)
        requires
            old(self).wf(),
        ensures
            final(self).wf(),
            result == old(self)@.admin_result(caller@),
            final(self)@ == old(self)@.after_set_fee_to(caller@, _feeTo@),
    {
        proof {
            lemma_replayed(self.feeTo@, self.feeToSetter@, self.created@);
        }
        if caller != self.feeToSetter {
            return Err(Error::Unauthorized);
        }
        proof {
            lemma_replayed_fees(
                FactoryView::initial(self.feeTo@, self.feeToSetter@),
                _feeTo@,
                self.feeToSetter@,
                self.created@,
            );
        }
        self.feeTo = _feeTo;
        Ok(())
    }

    /// Names `_feeToSetter` as administrator, on behalf of `caller`.
    pub fn setFeeToSetter(&mut self, caller: AccountId, _feeToSetter: AccountId) -> (result: Result<
        (),
        Error,
    >)
        requires
            old(self).wf(),
        ensures
            final(self).wf(),
            result == old(self)@.admin_result(caller@),
            final(self)@ == old(self)@.after_set_fee_to_setter(caller@, _feeToSetter@),
    {
        proof {
            lemma_replayed(self.feeTo@, self.feeToSetter@, self.created@);
        }
        if caller != self.feeToSetter {
            return Err(Error::Unauthorized);
        }
        proof {
            lemma_replayed_fees(
                FactoryView::initial(self.feeTo@, self.feeToSetter@),
                self.feeTo@,
                _feeToSetter@,
                self.created@,
            );
        }
        self.feeToSetter = _feeToSetter;
        Ok(())
    }

    /// The two assets in canonical order.
    fn sorted(tokenA: AccountId, tokenB: AccountId) -> (tokens: (AccountId, AccountId))
        ensures
            (tokens.0@, tokens.1@) == canonical(tokenA@, tokenB@),
    {
        if tokenA.lt(&tokenB) {
            (tokenA, tokenB)
        } else {
            (tokenB, tokenA)
        }
    }

    /// The place of the record of `tokenA` and `tokenB`, if they have a
    /// pool.
    fn find(&self, tokenA: AccountId, tokenB: AccountId) -> (found: Option<usize>)
        requires
            self.wf(),
        ensures
            match found {
                Some(i) => {
                    &&& i < self.created@.len()
                    &&& self@.pair_of(tokenA@, tokenB@) == Some(self.created@[i as int].pair@)
                    &&& self@.pair_of(tokenB@, tokenA@) == Some(self.created@[i as int].pair@)
                },
                None => {
                    &&& self@.pair_of(tokenA@, tokenB@) is None
                    &&& self@.pair_of(tokenB@, tokenA@) is None
                },
            },
    {
        proof {
            lemma_id_order_total(tokenA@, tokenB@);
        }
        let tokens: (AccountId, AccountId) = Factory::sorted(tokenA, tokenB);
        let mut i: usize = 0;
        while i < self.created.len()
            invariant
                0 <= i <= self.created.len(),
                self.wf(),
                (tokens.0@, tokens.1@) == canonical(tokenA@, tokenB@),
                forall|j: int|
                    0 <= j < i ==> !(#[trigger] names(self.created@[j], tokens.0@, tokens.1@)
                        && self.created@[j].token0@ == tokens.0@),
            decreases self.created.len() - i,
        {
            if self.created[i].token0 == tokens.0 && self.created[i].token1 == tokens.1 {
                proof {
                    lemma_replayed_at(self.feeTo@, self.feeToSetter@, self.created@, i as int);
                }
                return Some(i);
            }
            assert(!(names(self.created@[i as int], tokens.0@, tokens.1@) && self.created@[i as int].token0@
                == tokens.0@));
            i += 1;
        }
        proof {
            lemma_replayed(self.feeTo@, self.feeToSetter@, self.created@);
            if self@.pairs.dom().contains((tokenA@, tokenB@)) || self@.pairs.dom().contains(
                (tokenB@, tokenA@),
            ) {
                let k = lemma_replayed_named(
                    self.feeTo@,
                    self.feeToSetter@,
                    self.created@,
                    tokenA@,
                    tokenB@,
                );
                let record = self.created@[k];
                assert(ordered_at(self.created@, k));
                assert(names(record, tokens.0@, tokens.1@));
            }
        }
        None
    }

    /// The pool of `tokenA` and `tokenB`, if they have one.
    pub fn getPair(&self, tokenA: AccountId, tokenB: AccountId) -> (pair: Option<AccountId>)
        requires
            self.wf(),
        ensures
            match pair {
                Some(p) => self@.pair_of(tokenA@, tokenB@) == Some(p@),
                None => self@.pair_of(tokenA@, tokenB@) is None,
            },
    {
        match self.find(tokenA, tokenB) {
            Some(i) => Some(self.created[i].pair),
            None => None,
        }
    }

    /// The number of pools created.
    pub fn allPairsLength(&self) -> (length: u64)
        requires
            self.wf(),
        ensures
            length == self@.all_pairs.len(),
    {
        proof {
            lemma_replayed(self.feeTo@, self.feeToSetter@, self.created@);
        }
        self.created.len() as u64
    }

    /// The pool that was created as number `index`, counting from zero.
    pub fn allPairs(&self, index: u64) -> (pair: Option<AccountId>)
        requires
            self.wf(),
        ensures
            match pair {
                Some(p) => index < self@.all_pairs.len() && self@.all_pairs[index as int] == p@,
                None => index >= self@.all_pairs.len(),
            },
    {
        proof {
            lemma_replayed(self.feeTo@, self.feeToSetter@, self.created@);
        }
        if index < self.created.len() as u64 {
            proof {
                lemma_replayed_at(self.feeTo@, self.feeToSetter@, self.created@, index as int);
            }
            Some(self.created[index as usize].pair)
        } else {
            None
        }
    }

    /// Tests a request for the pool of `tokenA` and `tokenB`, and returns
    /// the two in canonical order where it may be created.
    fn check(&self, tokenA: AccountId, tokenB: AccountId) -> (result: Result<(AccountId, AccountId), Error>)
        requires
            self.wf(),
        ensures
            match result {
                Ok(tokens) => {
                    &&& self@.create_pair_result(tokenA@, tokenB@) is Ok
                    &&& (tokens.0@, tokens.1@) == canonical(tokenA@, tokenB@)
                    &&& id_less(tokens.0@, tokens.1@)
                },
                Err(e) => self@.create_pair_result(tokenA@, tokenB@) == Err::<(), Error>(e),
            },
    {
        if tokenA == tokenB {
            return Err(Error::IdenticalAddresses);
        }
        if tokenA.is_zero() || tokenB.is_zero() {
            return Err(Error::ZeroAddress);
        }
        proof {
            lemma_id_order_total(tokenA@, tokenB@);
        }
        match self.find(tokenA, tokenB) {
            Some(_) => Err(Error::PairExists),
            None => Ok(Factory::sorted(tokenA, tokenB)),
        }
    }

    /// Tests a request for the pool of `tokenA` and `tokenB` and says what
    /// is to be deployed for it: the pool of the two assets in canonical
    /// order, endowed with half of the registry's balance `total_balance`,
    /// at the address that the bytes of `version` determine.
    pub fn pairDeployment(
        &self,
        tokenA: AccountId,
        tokenB: AccountId,
        version: u32,
        total_balance: Balance,
    ) -> (result: Result<PairDeployment, Error>)
        requires
            self.wf(),
        ensures
            match result {
                Ok(deployment) => {
                    &&& self@.create_pair_result(tokenA@, tokenB@) is Ok
                    &&& (deployment.token0@, deployment.token1@) == canonical(tokenA@, tokenB@)
                    &&& id_less(deployment.token0@, deployment.token1@)
                    &&& deployment.endowment == total_balance / 2
                    &&& deployment.salt@ == le_bytes(version)
                },
                Err(e) => self@.create_pair_result(tokenA@, tokenB@) == Err::<(), Error>(e),
            },
    {
        match self.check(tokenA, tokenB) {
            Err(e) => Err(e),
            Ok(tokens) => {
                let salt: [u8; 4] = [
                    (version & 0xff) as u8,
                    ((version >> 8) & 0xff) as u8,
                    ((version >> 16) & 0xff) as u8,
                    (version >> 24) as u8,
                ];
                assert((version & 0xff) as u8 == (version % 256) as u8) by (bit_vector);
                assert(((version >> 8) & 0xff) as u8 == (version / 256 % 256) as u8) by (bit_vector);
                assert(((version >> 16) & 0xff) as u8 == (version / 65536 % 256) as u8)
                    by (bit_vector);
                assert((version >> 24) as u8 == (version / 16777216) as u8) by (bit_vector);
                Ok(
                    PairDeployment {
                        token0: tokens.0,
                        token1: tokens.1,
                        endowment: total_balance / 2,
                        salt,
                    },
                )
            },
        }
    }

    /// Records `pair`, the address of the pool that was deployed for
    /// `tokenA` and `tokenB`, and returns the notification of it. A request
    /// that is refused changes nothing.
    pub fn createPair(&mut self, tokenA: AccountId, tokenB: AccountId, pair: AccountId) -> (result:
        Result<PairCreated, Error>)
        requires
            old(self).wf(),
        ensures
            final(self).wf(),
            final(self)@ == old(self)@.after_create_pair(tokenA@, tokenB@, pair@),
            match result {
                Ok(event) => {
                    &&& old(self)@.create_pair_result(tokenA@, tokenB@) is Ok
                    &&& (event.token0@, event.token1@) == canonical(tokenA@, tokenB@)
                    &&& id_less(event.token0@, event.token1@)
                    &&& event.pair@ == pair@
                    &&& event.current_pair_length == old(self)@.all_pairs.len() + 1
                },
                Err(e) => old(self)@.create_pair_result(tokenA@, tokenB@) == Err::<(), Error>(e),
            },
    {
        let tokens: (AccountId, AccountId) = match self.check(tokenA, tokenB) {
            Err(e) => {
                return Err(e);
            },
            Ok(tokens) => tokens,
        };
        let token0: AccountId = tokens.0;
        let token1: AccountId = tokens.1;
        let ghost before = *self;
        proof {
            lemma_replayed(self.feeTo@, self.feeToSetter@, self.created@);
            lemma_id_order_total(tokenA@, tokenB@);
            lemma_create_pair_order_independent(before@, tokenA@, tokenB@, pair@);
        }
        self.created.push(PairRecord { token0, token1, pair });
        proof {
            assert(self.created@.drop_last() =~= before.created@);
            assert forall|i: int| 0 <= i < self.created@.len() implies #[trigger] ordered_at(
                self.created@,
                i,
            ) by {
                if i < before.created@.len() {
                    assert(ordered_at(before.created@, i));
                }
            }
            assert(before@.after_create_pair(token0@, token1@, pair@) == before@.after_create_pair(
                tokenA@,
                tokenB@,
                pair@,
            ));
            lemma_replayed(self.feeTo@, self.feeToSetter@, self.created@);
        }
        Ok(PairCreated { token0, token1, pair, current_pair_length: self.created.len() as u64 })
    }

    /// The pools of the registry in the order of their creation. Recorded
    /// one after the other in a registry without pools, under the same fee
    /// administration, they give this registry again.
    pub fn records(&self) -> (list: Vec<PairRecord>)
        requires
            self.wf(),
        ensures
            replayed(FactoryView::initial(self@.fee_to, self@.fee_to_setter), list@) == Some(self@),
    {
        proof {
            lemma_replayed(self.feeTo@, self.feeToSetter@, self.created@);
        }
        let mut list: Vec<PairRecord> = Vec::new();
        let mut i: usize = 0;
        while i < self.created.len()
            invariant
                0 <= i <= self.created.len(),
                list@ == self.created@.take(i as int),
            decreases self.created.len() - i,
        {
            list.push(self.created[i]);
            i += 1;
        }
        assert(list@ =~= self.created@);
        list
    }

    /// The registry that holds the pools of `list`, recorded one after the
    /// other, under the fee administration given; `None` where one of the
    /// pools is refused.
    pub fn restore(_feeTo: AccountId, _feeToSetter: AccountId, list: &Vec<PairRecord>) -> (registry:
        Option<Factory>)
        ensures
            match registry {
                Some(r) => r.wf() && replayed(FactoryView::initial(_feeTo@, _feeToSetter@), list@)
                    == Some(r@),
                None => replayed(FactoryView::initial(_feeTo@, _feeToSetter@), list@) is None,
            },
    {
        let mut registry = Factory::new(_feeTo, _feeToSetter);
        let ghost start = FactoryView::initial(_feeTo@, _feeToSetter@);
        let mut i: usize = 0;
        while i < list.len()
            invariant
                0 <= i <= list.len(),
                registry.wf(),
                start == FactoryView::initial(_feeTo@, _feeToSetter@),
                replayed(start, list@.take(i as int)) == Some(registry@),
            decreases list.len() - i,
        {
            assert(list@.take(i + 1).drop_last() =~= list@.take(i as int));
            let record: PairRecord = list[i];
            match registry.createPair(record.token0, record.token1, record.pair) {
                Ok(_) => {},
                Err(_) => {
                    proof {
                        lemma_replayed_stays_none(start, list@, i + 1);
                    }
                    return None;
                },
            }
            i += 1;
        }
        assert(list@.take(i as int) =~= list@);
        Some(registry)
    }
}

} // verus!

//! The state of a registry and the rules of its operations.

use crate::account::{id_less, zero_id};
use crate::factory::{Error, PairRecord};
use vstd::prelude::*;

verus! {

/// The state of a registry: the pool of each ordered pair of assets that has
/// one, the pools in the order of their creation, the recipient of fees and
/// the administrator who names it.
#[verifier::ext_equal]
pub struct FactoryView {
    pub pairs: Map<(Seq<u8>, Seq<u8>), Seq<u8>>,
    pub all_pairs: Seq<Seq<u8>>,
    pub fee_to: Seq<u8>,
    pub fee_to_setter: Seq<u8>,
}

/// The two assets in canonical order: the smaller identifier first.
pub open spec fn canonical(a: Seq<u8>, b: Seq<u8>) -> (Seq<u8>, Seq<u8>) {
    if id_less(a, b) {
        (a, b)
    } else {
        (b, a)
    }
}

/// The four bytes of `version`, the lowest first.
pub open spec fn le_bytes(version: u32) -> Seq<u8> {
    seq![
        (version % 256) as u8,
        (version / 256 % 256) as u8,
        (version / 65536 % 256) as u8,
        (version / 16777216) as u8,
    ]
}

impl FactoryView {
    /// A registry without pools.
    pub open spec fn initial(fee_to: Seq<u8>, fee_to_setter: Seq<u8>) -> FactoryView {
        FactoryView { pairs: Map::empty(), all_pairs: Seq::empty(), fee_to, fee_to_setter }
    }

    /// What holds of every registry: a pool that is found under one order of
    /// its assets is found under the other.
    pub open spec fn wf(self) -> bool {
        forall|a: Seq<u8>, b: Seq<u8>| #[trigger]
            self.pairs.dom().contains((a, b)) ==> self.pairs.dom().contains((b, a))
                && self.pairs[(b, a)] == self.pairs[(a, b)]
    }

    /// The pool of `a` and `b`, looked up in this order.
    pub open spec fn pair_of(self, a: Seq<u8>, b: Seq<u8>) -> Option<Seq<u8>> {
        if self.pairs.dom().contains((a, b)) {
            Some(self.pairs[(a, b)])
        } else {
            None
        }
    }

    /// Whether a pool of `a` and `b` may be created: not of an asset with
    /// itself (`IdenticalAddresses`), not of the null asset (`ZeroAddress`),
    /// and not where the two have a pool already (`PairExists`).
    pub open spec fn create_pair_result(self, a: Seq<u8>, b: Seq<u8>) -> Result<(), Error> {
        if a == b {
            Err(Error::IdenticalAddresses)
        } else if a == zero_id() || b == zero_id() {
            Err(Error::ZeroAddress)
        } else if self.pairs.dom().contains(canonical(a, b)) {
            Err(Error::PairExists)
        } else {
            Ok(())
        }
    }

    /// The registry after it was asked to record `pair` as the pool of `a`
    /// and `b`: unchanged where that is refused; else `pair` is found under
    /// both orders of the two assets and is the last in the order of
    /// creation.
    pub open spec fn after_create_pair(self, a: Seq<u8>, b: Seq<u8>, pair: Seq<u8>) -> FactoryView {
        match self.create_pair_result(a, b) {
            Err(_) => self,
            Ok(_) => {
                let (token0, token1) = canonical(a, b);
                FactoryView {
                    pairs: self.pairs.insert((token0, token1), pair).insert((token1, token0), pair),
                    all_pairs: self.all_pairs.push(pair),
                    ..self
                }
            },
        }
    }

    /// Only the administrator may change the fee administration.
    pub open spec fn admin_result(self, caller: Seq<u8>) -> Result<(), Error> {
        if caller == self.fee_to_setter {
            Ok(())
        } else {
            Err(Error::Unauthorized)
        }
    }

    /// The registry after `caller` asked to name `fee_to` as recipient of
    /// fees.
    pub open spec fn after_set_fee_to(self, caller: Seq<u8>, fee_to: Seq<u8>) -> FactoryView {
        match self.admin_result(caller) {
            Err(_) => self,
            Ok(_) => FactoryView { fee_to, ..self },
        }
    }

    /// The registry after `caller` asked to name `fee_to_setter` as
    /// administrator.
    pub open spec fn after_set_fee_to_setter(self, caller: Seq<u8>, fee_to_setter: Seq<u8>) -> FactoryView {
        match self.admin_result(caller) {
            Err(_) => self,
            Ok(_) => FactoryView { fee_to_setter, ..self },
        }
    }
}

/// The registry that results from recording the pools of `list`, one after
/// the other, in `registry`; `None` where one of them is refused.
pub open spec fn replayed(registry: FactoryView, list: Seq<PairRecord>) -> Option<FactoryView>
    decreases list.len(),
{
    if list.len() == 0 {
        Some(registry)
    } else {
        match replayed(registry, list.drop_last()) {
            None => None,
            Some(before) => if before.create_pair_result(list.last().token0@, list.last().token1@)
                is Ok {
                Some(
                    before.after_create_pair(
                        list.last().token0@,
                        list.last().token1@,
                        list.last().pair@,
                    ),
                )
            } else {
                None
            },
        }
    }
}

} // verus!

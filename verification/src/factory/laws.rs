//! What holds of every registry, whatever it is asked to do.

use crate::account::{lemma_id_order_total, zero_id};
use crate::factory::view::FactoryView;
use crate::factory::Error;
use vstd::prelude::*;

verus! {

/// Recording a pool keeps the registry well-formed.
pub proof fn lemma_after_create_pair_wf(registry: FactoryView, a: Seq<u8>, b: Seq<u8>, pair: Seq<u8>)
    requires
        registry.wf(),
    ensures
        registry.after_create_pair(a, b, pair).wf(),
{
    let next = registry.after_create_pair(a, b, pair);
    if registry.create_pair_result(a, b) is Ok {
        assert forall|x: Seq<u8>, y: Seq<u8>| #[trigger]
            next.pairs.dom().contains((x, y)) implies next.pairs.dom().contains((y, x))
            && next.pairs[(y, x)] == next.pairs[(x, y)] by {}
    }
}

/// The order in which a request names its two assets makes no difference:
/// it is accepted or refused alike and leaves the same registry. Once a
/// pool of two assets is recorded, a request for a pool of the two is
/// refused as `PairExists` in either order.
pub proof fn lemma_create_pair_order_independent(
    registry: FactoryView,
    a: Seq<u8>,
    b: Seq<u8>,
    pair: Seq<u8>,
)
    requires
        a.len() == b.len(),
    ensures
        registry.create_pair_result(a, b) == registry.create_pair_result(b, a),
        registry.after_create_pair(a, b, pair) == registry.after_create_pair(b, a, pair),
        registry.create_pair_result(a, b) is Ok ==> {
            let next = registry.after_create_pair(a, b, pair);
            &&& next.create_pair_result(a, b) == Err::<(), Error>(Error::PairExists)
            &&& next.create_pair_result(b, a) == Err::<(), Error>(Error::PairExists)
        },
{
    lemma_id_order_total(a, b);
}

/// A pool of an asset with itself is refused as `IdenticalAddresses`, and a
/// pool of the null asset with another as `ZeroAddress`, whatever the
/// registry holds; the registry stays as it was.
pub proof fn lemma_create_pair_rejects(registry: FactoryView, a: Seq<u8>, pair: Seq<u8>)
    ensures
        registry.create_pair_result(a, a) == Err::<(), Error>(Error::IdenticalAddresses),
        registry.after_create_pair(a, a, pair) == registry,
        a != zero_id() ==> {
            &&& registry.create_pair_result(zero_id(), a) == Err::<(), Error>(Error::ZeroAddress)
            &&& registry.create_pair_result(a, zero_id()) == Err::<(), Error>(Error::ZeroAddress)
            &&& registry.after_create_pair(zero_id(), a, pair) == registry
            &&& registry.after_create_pair(a, zero_id(), pair) == registry
        },
{
}

/// After a pool was recorded, it is found under both orders of its two
/// assets, and the list of pools is longer by this one pool, which is its
/// last.
pub proof fn lemma_created_pair_is_found(registry: FactoryView, a: Seq<u8>, b: Seq<u8>, pair: Seq<u8>)
    requires
        registry.create_pair_result(a, b) is Ok,
    ensures
        ({
            let next = registry.after_create_pair(a, b, pair);
            &&& next.pair_of(a, b) == Some(pair)
            &&& next.pair_of(b, a) == Some(pair)
            &&& next.all_pairs.len() == registry.all_pairs.len() + 1
            &&& next.all_pairs.last() == pair
            &&& forall|i: int| 0 <= i < registry.all_pairs.len() ==> next.all_pairs[i] == registry.all_pairs[i]
        }),
{
}

/// A registry only grows: whatever it is asked to record, a pool that was
/// found before is found after, under the same address, and the pools
/// created before keep their places in the order of creation.
pub proof fn lemma_registry_only_grows(
    registry: FactoryView,
    a: Seq<u8>,
    b: Seq<u8>,
    pair: Seq<u8>,
    x: Seq<u8>,
    y: Seq<u8>,
    i: int,
)
    requires
        registry.wf(),
    ensures
        ({
            let next = registry.after_create_pair(a, b, pair);
            &&& registry.pair_of(x, y) is Some ==> next.pair_of(x, y) == registry.pair_of(x, y)
            &&& 0 <= i < registry.all_pairs.len() ==> next.all_pairs.len() >= registry.all_pairs.len()
                && next.all_pairs[i] == registry.all_pairs[i]
        }),
{
    if registry.pairs.dom().contains((x, y)) {
        assert(registry.pairs.dom().contains((y, x)));
    }
}

/// In every registry a lookup gives the same pool under both orders of the
/// two assets.
pub proof fn lemma_lookup_symmetric(registry: FactoryView, a: Seq<u8>, b: Seq<u8>)
    requires
        registry.wf(),
    ensures
        registry.pair_of(a, b) == registry.pair_of(b, a),
{
}

/// A caller who is not the administrator is refused as `Unauthorized`, and
/// the recipient of fees and the administrator stay as they were.
pub proof fn lemma_only_administrator(registry: FactoryView, caller: Seq<u8>, named: Seq<u8>)
    requires
        caller != registry.fee_to_setter,
    ensures
        registry.admin_result(caller) == Err::<(), Error>(Error::Unauthorized),
        registry.after_set_fee_to(caller, named) == registry,
        registry.after_set_fee_to_setter(caller, named) == registry,
{
}

} // verus!

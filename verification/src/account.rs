//! Account identifiers: 32-byte values, ordered byte by byte.

use vstd::prelude::*;

verus! {

/// Identifier of an account: an asset, a pool, a share owner or an
/// administrator. Its view is the sequence of its 32 bytes.
#[derive(Clone, Copy, Debug)]
pub struct AccountId {
    pub bytes: [u8; 32],
}

impl View for AccountId {
    type V = Seq<u8>;

    open spec fn view(&self) -> Seq<u8> {
        self.bytes@
    }
}

/// The identifier whose bytes are all zero: the null account.
pub open spec fn zero_id() -> Seq<u8> {
    Seq::new(32, |i: int| 0u8)
}

/// `k` is the first position at which `a` and `b` differ.
pub open spec fn first_difference(a: Seq<u8>, b: Seq<u8>, k: int) -> bool {
    &&& 0 <= k < a.len()
    &&& k < b.len()
    &&& a[k] != b[k]
    &&& forall|j: int| 0 <= j < k ==> a[j] == b[j]
}

/// The order on identifiers of equal length: `a` comes before `b` when, at
/// the first position where they differ, `a` holds the smaller byte.
pub open spec fn id_less(a: Seq<u8>, b: Seq<u8>) -> bool {
    exists|k: int| #[trigger] first_difference(a, b, k) && a[k] < b[k]
}

/// Two identifiers of the same length that agree up to `i` and are not
/// equal differ first at some position from `i` on.
proof fn lemma_difference_from(a: Seq<u8>, b: Seq<u8>, i: int)
    requires
        a.len() == b.len(),
        0 <= i <= a.len(),
        a != b,
        forall|j: int| 0 <= j < i ==> a[j] == b[j],
    ensures
        exists|k: int| first_difference(a, b, k),
    decreases a.len() - i,
{
    if i == a.len() {
        assert(a =~= b);
    } else if a[i] != b[i] {
        assert(first_difference(a, b, i));
    } else {
        lemma_difference_from(a, b, i + 1);
    }
}

/// The order is total on identifiers of equal length: of two different
/// identifiers exactly one comes before the other, and none comes before
/// itself.
pub proof fn lemma_id_order_total(a: Seq<u8>, b: Seq<u8>)
    requires
        a.len() == b.len(),
    ensures
        a == b ==> !id_less(a, b) && !id_less(b, a),
        a != b ==> (id_less(a, b) <==> !id_less(b, a)),
{
    if a != b {
        lemma_difference_from(a, b, 0);
        let k = choose|k: int| first_difference(a, b, k);
        assert(first_difference(b, a, k));
        assert forall|m: int| first_difference(a, b, m) implies m == k by {}
        assert forall|m: int| first_difference(b, a, m) implies m == k by {}
    }
}

impl AccountId {
    /// The null account.
    pub fn zero() -> (id: AccountId)
        ensures
            id@ == zero_id(),
    {
        AccountId { bytes: [0u8; 32] }
    }

    /// Whether this is the null account.
    pub fn is_zero(&self) -> (r: bool)
        ensures
            r == (self@ == zero_id()),
    {
        let mut i: usize = 0;
        while i < 32
            invariant
                0 <= i <= 32,
                forall|j: int| 0 <= j < i ==> self.bytes[j] == 0,
            decreases 32 - i,
        {
            if self.bytes[i] != 0 {
                return false;
            }
            i += 1;
        }
        assert(self@ =~= zero_id());
        true
    }

    /// Whether `self` comes before `other` in the order on identifiers.
    pub fn lt(&self, other: &AccountId) -> (r: bool)
        ensures
            r == id_less(self@, other@),
    {
        let mut i: usize = 0;
        while i < 32
            invariant
                0 <= i <= 32,
                forall|j: int| 0 <= j < i ==> self.bytes[j] == other.bytes[j],
            decreases 32 - i,
        {
            if self.bytes[i] != other.bytes[i] {
                assert(first_difference(self@, other@, i as int));
                assert forall|m: int| first_difference(self@, other@, m) implies m == i by {}
                return self.bytes[i] < other.bytes[i];
            }
            i += 1;
        }
        proof {
            lemma_id_order_total(self@, other@);
        }
        false
    }
}

impl PartialEq for AccountId {
    /// Two identifiers are equal when all their bytes are.
    fn eq(&self, other: &AccountId) -> (r: bool) {
        let mut i: usize = 0;
        while i < 32
            invariant
                0 <= i <= 32,
                forall|j: int| 0 <= j < i ==> self.bytes[j] == other.bytes[j],
            decreases 32 - i,
        {
            if self.bytes[i] != other.bytes[i] {
                return false;
            }
            i += 1;
        }
        assert(self@ =~= other@);
        true
    }
}

impl Eq for AccountId {}

impl vstd::std_specs::cmp::PartialEqSpecImpl for AccountId {
    open spec fn obeys_eq_spec() -> bool {
        true
    }

    open spec fn eq_spec(&self, other: &AccountId) -> bool {
        self@ == other@
    }
}

impl From<[u8; 32]> for AccountId {
    /// The identifier with the bytes given.
    fn from(bytes: [u8; 32]) -> (id: AccountId) {
        AccountId { bytes }
    }
}

impl vstd::std_specs::convert::FromSpecImpl<[u8; 32]> for AccountId {
    open spec fn obeys_from_spec() -> bool {
        true
    }

    open spec fn from_spec(bytes: [u8; 32]) -> AccountId {
        AccountId { bytes }
    }
}

} // verus!

//! The order of selector keys: the order of their values.

use vstd::prelude::*;

use crate::registry::ProtocolKey;

verus! {

impl PartialOrd for ProtocolKey {
    fn partial_cmp(&self, other: &Self) -> (r: Option<core::cmp::Ordering>) {
        let a = self.get();
        let b = other.get();
        if a < b {
            Some(core::cmp::Ordering::Less)
        } else if a == b {
            Some(core::cmp::Ordering::Equal)
        } else {
            Some(core::cmp::Ordering::Greater)
        }
    }
}

impl vstd::std_specs::cmp::PartialOrdSpecImpl for ProtocolKey {
    open spec fn obeys_partial_cmp_spec() -> bool {
        true
    }

    open spec fn partial_cmp_spec(&self, other: &Self) -> Option<core::cmp::Ordering> {
        if self.spec_get() < other.spec_get() {
            Some(core::cmp::Ordering::Less)
        } else if self.spec_get() == other.spec_get() {
            Some(core::cmp::Ordering::Equal)
        } else {
            Some(core::cmp::Ordering::Greater)
        }
    }
}

/// Law of keys: comparing two keys compares their selector values, so
/// [`ProtocolKey::new`] keeps the order of the values it is given.
pub proof fn law_key_order_is_value_order(x: ProtocolKey, y: ProtocolKey)
    ensures
        vstd::std_specs::cmp::PartialOrdSpec::partial_cmp_spec(&x, &y) == Some(core::cmp::Ordering::Less) <==> x.spec_get() < y.spec_get(),
        vstd::std_specs::cmp::PartialOrdSpec::partial_cmp_spec(&x, &y) == Some(core::cmp::Ordering::Equal) <==> x.spec_get() == y.spec_get(),
        vstd::std_specs::cmp::PartialOrdSpec::partial_cmp_spec(&x, &y) == Some(core::cmp::Ordering::Greater) <==> x.spec_get() > y.spec_get(),
{
}

} // verus!

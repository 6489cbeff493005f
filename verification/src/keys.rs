//! What the library asks of host-defined key types.
//!
//! Axis, button and raw-input identifiers are arbitrary host types; the
//! registry only ever compares them with `==`. Verified reasoning about
//! those comparisons needs the host's `PartialEq` to agree with logical
//! equality, which is what [`equatable`] states. Integer keys satisfy it
//! out of the box; a host type does so when its `PartialEq` is written by
//! hand together with a `PartialEqSpecImpl` that ties `eq` to `==`.

use vstd::prelude::*;
use vstd::std_specs::cmp::PartialEqSpec;

verus! {

/// The executable `==` of `K` agrees with logical equality.
pub open spec fn equatable<K: PartialEq>() -> bool {
    &&& K::obeys_eq_spec()
    &&& forall|x: K, y: K| #[trigger] x.eq_spec(&y) <==> x == y
}

} // verus!

//! Containment checks over driver-reported name lists: validation layers and
//! device extensions are requested by name and must all be present.

use vstd::prelude::*;
use crate::errors::DeviceError;

verus! {

/// Some element of `names` spells exactly `name`.
pub open spec fn spec_contains_name(names: Seq<String>, name: Seq<char>) -> bool {
    exists|i: int| 0 <= i < names.len() && names[i]@ == name
}

/// Every requested name appears among the available ones.
pub open spec fn spec_supports_all(available: Seq<String>, requested: Seq<String>) -> bool {
    forall|i: int| 0 <= i < requested.len() ==> spec_contains_name(available, requested[i]@)
}

/// Linear scan for `target` in `names`.
pub fn contains_name(names: &Vec<String>, target: &String) -> (found: bool)
    ensures
        found == spec_contains_name(names@, target@),
{
    let mut i: usize = 0;
    while i < names.len()
        invariant
            i <= names@.len(),
            forall|j: int| 0 <= j < i ==> names@[j]@ != target@,
        decreases names@.len() - i,
    {
        if names[i] == *target {
            return true;
        }
        i = i + 1;
    }
    false
}

/// True when every name in `requested` is also in `available`.
pub fn supports_all(available: &Vec<String>, requested: &Vec<String>) -> (ok: bool)
    ensures
        ok == spec_supports_all(available@, requested@),
{
    let mut i: usize = 0;
    while i < requested.len()
        invariant
            i <= requested@.len(),
            forall|j: int| 0 <= j < i ==> spec_contains_name(available@, requested@[j]@),
        decreases requested@.len() - i,
    {
        if !contains_name(available, &requested[i]) {
            return false;
        }
        i = i + 1;
    }
    true
}

/// Checks that every requested validation layer is available, reporting the
/// first missing layer by name.
pub fn check_validation_layer_support(available: &Vec<String>, requested: &Vec<String>) -> (r:
    Result<(), DeviceError>)
    ensures
        r is Ok <==> spec_supports_all(available@, requested@),
        r matches Err(e) ==> ({
            &&& e matches DeviceError::LayerUnsupported { layer }
            &&& exists|i: int|
                {
                    &&& 0 <= i < requested@.len()
                    &&& requested@[i]@ == layer@
                    &&& !spec_contains_name(available@, layer@)
                    &&& forall|j: int|
                        0 <= j < i ==> spec_contains_name(available@, requested@[j]@)
                }
        }),
{
    let mut i: usize = 0;
    while i < requested.len()
        invariant
            i <= requested@.len(),
            forall|j: int| 0 <= j < i ==> spec_contains_name(available@, requested@[j]@),
        decreases requested@.len() - i,
    {
        if !contains_name(available, &requested[i]) {
            return Err(DeviceError::LayerUnsupported { layer: requested[i].clone() });
        }
        i = i + 1;
    }
    Ok(())
}

} // verus!

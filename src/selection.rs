use vstd::prelude::*;
use vstd::string::StringExecFns;

verus! {

/// The validation layer enabled where the system has it.
pub const VALIDATION_LAYER: &'static str = "VK_LAYER_LUNARG_standard_validation";

/// Whether some queue family in `families` supports compute.
pub open spec fn has_compute(families: Seq<bool>) -> bool {
    exists|j: int| 0 <= j < families.len() && families[j]
}

/// `j` is the first queue family that supports compute.
pub open spec fn is_first_compute(families: Seq<bool>, j: int) -> bool {
    0 <= j < families.len() && families[j] && forall|i: int| 0 <= i < j ==> !families[i]
}

/// The compute support of each queue family of each device.
pub open spec fn support_view(devices: Seq<Vec<bool>>) -> Seq<Seq<bool>> {
    Seq::new(devices.len(), |d: int| devices[d]@)
}

/// `(d, f)` is the first device that has a compute queue family, and the first
/// such family of it.
pub open spec fn is_selection(devices: Seq<Seq<bool>>, d: int, f: int) -> bool {
    0 <= d < devices.len() && is_first_compute(devices[d], f) && forall|i: int|
        0 <= i < d ==> !has_compute(#[trigger] devices[i])
}

/// The index of the first queue family that supports compute, if any.
pub fn first_compute_family(families: &Vec<bool>) -> (r: Option<usize>)
    ensures
        r is None <==> !has_compute(families@),
        r matches Some(j) ==> is_first_compute(families@, j as int),
{
    let mut i: usize = 0;
    while i < families.len()
        invariant
            i <= families@.len(),
            forall|k: int| 0 <= k < i ==> !families@[k],
        decreases families@.len() - i,
    {
        if families[i] {
            return Some(i);
        }
        i = i + 1;
    }
    None
}

/// Picks the first device that exposes a compute queue family, and the first
/// such family of that device. `devices[d][f]` tells whether family `f` of
/// device `d` supports compute.
pub fn select_compute_queue(devices: &Vec<Vec<bool>>) -> (r: Option<(usize, usize)>)
    ensures
        r is None <==> forall|d: int|
            0 <= d < devices@.len() ==> !has_compute(#[trigger] support_view(devices@)[d]),
        r matches Some((d, f)) ==> is_selection(support_view(devices@), d as int, f as int),
{
    let ghost sv = support_view(devices@);
    let mut d: usize = 0;
    while d < devices.len()
        invariant
            d <= devices@.len(),
            sv == support_view(devices@),
            forall|i: int| 0 <= i < d ==> !has_compute(#[trigger] sv[i]),
        decreases devices@.len() - d,
    {
        match first_compute_family(&devices[d]) {
            Some(f) => {
                assert(sv[d as int] == devices@[d as int]@);
                assert(has_compute(sv[d as int]));
                return Some((d, f));
            },
            None => {},
        }
        d = d + 1;
    }
    None
}

/// Whether `wanted` is among the names in `available`.
pub open spec fn listed(available: Seq<String>, wanted: Seq<char>) -> bool {
    exists|i: int| 0 <= i < available.len() && (#[trigger] available[i])@ == wanted
}

/// The layer to enable: the validation layer where `available` lists it,
/// none otherwise.
pub fn requested_layer(available: &Vec<String>) -> (r: Option<&'static str>)
    ensures
        r is Some <==> listed(available@, VALIDATION_LAYER@),
        r matches Some(l) ==> l@ == VALIDATION_LAYER@,
{
    let wanted = String::from_str(VALIDATION_LAYER);
    let mut i: usize = 0;
    while i < available.len()
        invariant
            i <= available@.len(),
            wanted@ == VALIDATION_LAYER@,
            forall|k: int| 0 <= k < i ==> (#[trigger] available@[k])@ != VALIDATION_LAYER@,
        decreases available@.len() - i,
    {
        if available[i] == wanted {
            return Some(VALIDATION_LAYER);
        }
        i = i + 1;
    }
    None
}

} // verus!

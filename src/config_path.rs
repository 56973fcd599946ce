use vstd::prelude::*;

verus! {

/// `dir` is a leading run of whole components of `target` (component-wise prefix).
pub open spec fn starts_with_components(target: Seq<String>, dir: Seq<String>) -> bool {
    &&& dir.len() <= target.len()
    &&& forall|i: int| 0 <= i < dir.len() ==> (#[trigger] dir[i])@ == target[i]@
}

/// `target` lies inside one of the `allowed` directories.
pub open spec fn within_any(target: Seq<String>, allowed: Seq<Vec<String>>) -> bool {
    exists|j: int| 0 <= j < allowed.len() && starts_with_components(target, (#[trigger] allowed[j])@)
}

/// Whether the path given by `target`'s components starts with the components of `dir`.
pub fn path_starts_with(target: &Vec<String>, dir: &Vec<String>) -> (r: bool)
    ensures
        r == starts_with_components(target@, dir@),
{
    if dir.len() > target.len() {
        return false;
    }
    let mut i: usize = 0;
    while i < dir.len()
        invariant
            i <= dir@.len() <= target@.len(),
            forall|k: int| 0 <= k < i ==> (#[trigger] dir@[k])@ == target@[k]@,
        decreases dir@.len() - i,
    {
        if dir[i] != target[i] {
            return false;
        }
        i = i + 1;
    }
    true
}

/// Whether an already canonical config path lies within one of the already canonical
/// allowed directories; a config file may only be written there.
pub fn validate_config_path(target: &Vec<String>, allowed: &Vec<Vec<String>>) -> (r: bool)
    ensures
        r == within_any(target@, allowed@),
{
    let mut j: usize = 0;
    while j < allowed.len()
        invariant
            j <= allowed@.len(),
            forall|k: int| 0 <= k < j ==> !starts_with_components(target@, (#[trigger] allowed@[k])@),
        decreases allowed@.len() - j,
    {
        if path_starts_with(target, &allowed[j]) {
            return true;
        }
        j = j + 1;
    }
    false
}

} // verus!

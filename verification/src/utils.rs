use vstd::prelude::*;
use vstd::string::StringSliceAdditionalSpecFns;

verus! {

/// True when the two bytes at `i` form a whole `..` path component of `b`:
/// they are preceded by a separator (or the start of the path) and followed
/// by a separator (or the end of the path).
pub open spec fn dotdot_component_at(b: Seq<u8>, i: int) -> bool {
    &&& 0 <= i
    &&& i + 2 <= b.len()
    &&& b[i] == 46u8
    &&& b[i + 1] == 46u8
    &&& (i == 0 || b[i - 1] == 47u8)
    &&& (i + 2 == b.len() || b[i + 2] == 47u8)
}

/// True when some component of `b` is a parent-directory reference.
pub open spec fn has_dotdot_component(b: Seq<u8>) -> bool {
    exists|i: int| dotdot_component_at(b, i)
}

/// A relative archive-entry path (UTF-8 bytes, `/`-separated as on Unix) is
/// safe to join onto an extraction root exactly when it carries no absolute
/// root marker and none of its components is a parent-directory reference.
pub open spec fn path_is_safe(b: Seq<u8>) -> bool {
    &&& !(b.len() > 0 && b[0] == 47u8)
    &&& !has_dotdot_component(b)
}

/// Byte-level form of the path-safety validator, applied to every entry an
/// archive yields before it may be written below a destination root.
pub fn bytes_path_is_safe(b: &[u8]) -> (r: bool)
    ensures
        r == path_is_safe(b@),
{
    if b.len() > 0 && b[0] == 47u8 {
        return false;
    }
    let n = b.len();
    let mut i: usize = 0;
    while i < n
        invariant
            n == b@.len(),
            i <= b@.len(),
            forall|j: int| j < i ==> !dotdot_component_at(b@, j),
            !(b@.len() > 0 && b@[0] == 47u8),
        decreases b@.len() - i,
    {
        if n - i >= 2 && b[i] == 46u8 && b[i + 1] == 46u8 {
            let before_ok = i == 0 || b[i - 1] == 47u8;
            let after_ok = n - i == 2 || b[i + 2] == 47u8;
            if before_ok && after_ok {
                assert(dotdot_component_at(b@, i as int));
                return false;
            }
        }
        i = i + 1;
    }
    assert(forall|j: int| !dotdot_component_at(b@, j));
    true
}

/// The path-safety validator: may this relative archive-entry path be
/// resolved against a destination root without escaping it?
pub fn is_safe_path(path: &str) -> (r: bool)
    ensures
        r == path_is_safe(path.spec_bytes()),
{
    bytes_path_is_safe(path.as_bytes())
}

} // verus!

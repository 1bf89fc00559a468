//! Serialization into the manifest text format.

use vstd::prelude::*;

verus! {

/// Write the element out in the manifest text format relevant for that
/// element. `ini_repr` is the exact text an implementor stands for, and
/// `write_ini` appends exactly that text to `out`.
pub trait ToIniFile {
    spec fn ini_repr(&self) -> Seq<char>;

    fn write_ini(&self, out: &mut String)
        ensures
            final(out)@ == old(out)@ + self.ini_repr(),
    ;
}

} // verus!

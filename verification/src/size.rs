//! Sizes in bytes, written the way people read them.

use vstd::prelude::*;

verus! {

/// A size in bytes in binary units, as humansize's `format_size` writes it
/// with its `BINARY` options: the number, a space and the unit (`B`, `KiB`,
/// `MiB`, ...), where each unit is 1024 of the one before.
pub uninterp spec fn human_size(bytes: u64) -> Seq<char>;

/// `format_size` of humansize with the options `BINARY`. The result is a
/// function of the size alone; the contract names it and says no more.
#[verifier::external_body]
pub(crate) fn format_size(bytes: u64) -> (out: String)
    ensures
        out@ == human_size(bytes),
{
    humansize::format_size(bytes, humansize::BINARY)
}

} // verus!

//! Fragment-table entries: the shared blocks that pack small file tails.

use crate::error::SquashfsError;
use crate::le::le32;
use crate::le::le64;
use crate::le::read_u32;
use crate::le::read_u64;
use vstd::prelude::*;

verus! {

/// On-disk width of one fragment entry, in bytes.
pub const FRAGMENT_SIZE: usize = 16;

/// One fragment-table entry.
#[derive(Clone, Copy, Debug, PartialEq, Eq, Structural)]
pub struct Fragment {
    /// Image offset of the fragment block.
    pub start: u64,
    /// On-disk size of the fragment block; bit 24 set means stored
    /// uncompressed.
    pub size: u32,
    pub unused: u32,
}

/// The fragment entry at index `k` of the concatenated table bytes.
pub open spec fn spec_fragment(b: Seq<u8>, k: int) -> Fragment {
    Fragment { start: le64(b, 16 * k), size: le32(b, 16 * k + 8), unused: le32(b, 16 * k + 12) }
}

/// The first `n` fragment entries of the concatenated table bytes.
pub open spec fn spec_fragment_table(b: Seq<u8>, n: int) -> Seq<Fragment> {
    Seq::new(n as nat, |k: int| spec_fragment(b, k))
}

/// Decode `n` fragment entries from the concatenated table bytes `b`.
pub fn parse_fragment_table(b: &[u8], n: usize) -> (r: Result<Vec<Fragment>, SquashfsError>)
    ensures
        r matches Ok(v) ==> 16 * n <= b@.len() && v@ == spec_fragment_table(b@, n as int),
        r matches Err(e) ==> 16 * n > b@.len() && e == SquashfsError::Truncated,
{
    let blen: usize = b.len();
    proof {
        assert(16 * ((blen as int) / 16) <= blen as int);
        assert((blen as int) < 16 * ((blen as int) / 16) + 16);
    }
    if n > blen / 16 {
        return Err(SquashfsError::Truncated);
    }
    let mut v: Vec<Fragment> = Vec::new();
    let mut k: usize = 0;
    while k < n
        invariant
            k <= n,
            16 * n <= blen,
            blen == b@.len(),
            v@.len() == k,
            forall|q: int| 0 <= q < k ==> v@[q] == spec_fragment(b@, q),
        decreases n - k,
    {
        let f = Fragment {
            start: read_u64(b, 16 * k),
            size: read_u32(b, 16 * k + 8),
            unused: read_u32(b, 16 * k + 12),
        };
        v.push(f);
        k = k + 1;
    }
    proof {
        assert(v@ =~= spec_fragment_table(b@, n as int));
    }
    Ok(v)
}

} // verus!

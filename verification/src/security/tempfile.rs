//! Names for temporary files that carry secrets to a helper process, or
//! that serve as socket paths: unpredictable (random), so that nobody can
//! place a symlink at the name ahead of time.

use crate::ip::{hex_pair};
use crate::text::{join_path, path_join};
use vstd::prelude::*;

verus! {

/// The random bytes as lowercase hex, two digits each.
pub open spec fn hex_of(b: Seq<u8>) -> Seq<char>
    decreases b.len(),
{
    if b.len() == 0 {
        seq![]
    } else {
        hex_of(b.drop_last()) + hex_pair(b.last())
    }
}

pub fn hex_string_of(b: &[u8]) -> (s: String)
    ensures
        s@ == hex_of(b@),
{
    let mut s = String::new();
    let mut i: usize = 0;
    while i < b.len()
        invariant
            i <= b.len(),
            s@ == hex_of(b@.subrange(0, i as int)),
        decreases b.len() - i,
    {
        assert(b@.subrange(0, i + 1).drop_last() =~= b@.subrange(0, i as int));
        let x = b[i];
        let hi = crate::ip::hex_string((x / 16) as u64);
        let lo = crate::ip::hex_string((x % 16) as u64);
        s.append(hi.as_str());
        s.append(lo.as_str());
        proof {
            assert(crate::ip::hex_text((x / 16) as nat) == seq![crate::ip::hex_digit((x / 16) as int)]);
            assert(crate::ip::hex_text((x % 16) as nat) == seq![crate::ip::hex_digit((x % 16) as int)]);
            assert(s@ =~= hex_of(b@.subrange(0, i as int)) + hex_pair(x));
        }
        i += 1;
    }
    assert(b@.subrange(0, b.len() as int) =~= b@);
    s
}

/// `<tmp>/<prefix>-<random hex>.<suffix>`.
pub fn random_temp_path(tmp_dir: &str, prefix: &str, random: &[u8], suffix: &str) -> (p: String)
    ensures
        p@ == path_join(tmp_dir@, prefix@ + "-"@ + hex_of(random@) + "."@ + suffix@),
{
    let mut name = String::from_str(prefix);
    name.append("-");
    let h = hex_string_of(random);
    name.append(h.as_str());
    name.append(".");
    name.append(suffix);
    join_path(tmp_dir, name.as_str())
}

/// How many fresh names creating a secret temp file tries before giving
/// up (a collision is already unlikely; more means something is wrong).
pub const CREATE_ATTEMPTS: u32 = 4;

} // verus!

//! Connection-profile files: one `<id>.toml` per profile under the
//! profiles directory. Secrets never live in these files.

use crate::errors::{join3, NetworkError};
use crate::security::validation::{identifier_error, is_identifier, validate_identifier};
use crate::text::{join_path, path_join};
use vstd::prelude::*;

verus! {

/// `<dir>/<id>.toml`, once `id` is checked to be a safe file name.
pub fn profile_path(dir: &str, id: &str) -> (r: Result<String, NetworkError>)
    ensures
        is_identifier(id) ==> (r matches Ok(p) && p@ == path_join(dir@, id@ + ".toml"@)),
        !is_identifier(id) ==> crate::errors::parse_err(r, identifier_error(id)),
{
    match validate_identifier(id) {
        Err(e) => Err(e),
        Ok(()) => {
            let name = crate::errors::join2(id, ".toml");
            Ok(join_path(dir, name.as_str()))
        },
    }
}

/// The error for deleting a profile whose file does not exist.
pub fn missing_profile(id: &str) -> (e: NetworkError)
    ensures
        e.view() == (crate::errors::ErrKind::NotFound, "connection profile '"@ + id@ + "'"@),
{
    NetworkError::NotFound(join3("connection profile '", id, "'"))
}

} // verus!

verus! {

/// `perm` lists each index below `n` exactly once.
pub open spec fn is_permutation(perm: Seq<int>, n: int) -> bool {
    &&& perm.len() == n
    &&& forall|k: int| 0 <= k < n ==> 0 <= #[trigger] perm[k] < n
    &&& forall|a: int, b: int| 0 <= a < b < n ==> #[trigger] perm[a] != #[trigger] perm[b]
}

/// Ordering `items` by `perm` puts them most recent first, and items used
/// at the same time keep their original order.
pub open spec fn recent_first_order(keys: Seq<i128>, perm: Seq<int>) -> bool {
    &&& forall|a: int, b: int| 0 <= a < b < perm.len() ==> keys[perm[a]] >= keys[perm[b]]
    &&& forall|a: int, b: int|
        0 <= a < b < perm.len() && keys[perm[a]] == keys[perm[b]] ==> perm[a] < perm[b]
}

/// Sorts profiles most-recently-used first by their last-use times
/// (`mtimes[i]` belongs to `profiles[i]`); a stable sort.
pub fn recently_used_first<T>(profiles: Vec<T>, mtimes: Vec<i128>) -> (out: Vec<T>)
    requires
        profiles.len() == mtimes.len(),
    ensures
        exists|perm: Seq<int>|
            is_permutation(perm, profiles.len() as int) && recent_first_order(mtimes@, perm) && out.len()
                == profiles.len() && forall|k: int| 0 <= k < out.len() ==> #[trigger] out@[k] == profiles@[perm[k]],
{
    let n = profiles.len();
    let ghost orig = profiles@;
    let keys = mtimes;
    let mut rest = crate::collections::reversed(profiles);
    let mut out: Vec<T> = Vec::new();
    let mut out_keys: Vec<i128> = Vec::new();
    let ghost mut perm: Seq<int> = seq![];
    let mut i: usize = 0;
    while i < n
        invariant
            i <= n == orig.len() == keys.len(),
            rest.len() == n - i,
            forall|k: int| 0 <= k < n - i ==> #[trigger] rest@[k] == orig[n - 1 - k],
            out.len() == i,
            out_keys.len() == i,
            perm.len() == i,
            forall|k: int| 0 <= k < i ==> 0 <= #[trigger] perm[k] < i,
            forall|a: int, b: int| 0 <= a < b < i ==> #[trigger] perm[a] != #[trigger] perm[b],
            forall|k: int| 0 <= k < i ==> #[trigger] out@[k] == orig[perm[k]],
            forall|k: int| 0 <= k < i ==> #[trigger] out_keys@[k] == keys@[perm[k]],
            recent_first_order(keys@, perm),
        decreases n - i,
    {
        let x = rest.pop().unwrap();
        let key = keys[i];
        // Insert before the first entry used strictly earlier.
        let mut p: usize = 0;
        while p < out_keys.len() && out_keys[p] >= key
            invariant
                p <= out_keys.len(),
                forall|k: int| 0 <= k < p ==> out_keys@[k] >= key,
            decreases out_keys.len() - p,
        {
            p += 1;
        }
        let ghost old_perm = perm;
        let ghost old_out = out@;
        let ghost old_keys = out_keys@;
        out.insert(p, x);
        out_keys.insert(p, key);
        proof {
            perm = old_perm.insert(p as int, i as int);
            assert forall|k: int| 0 <= k < i + 1 implies 0 <= #[trigger] perm[k] < i + 1 by {
                if k < p {
                    assert(perm[k] == old_perm[k]);
                } else if k > p {
                    assert(perm[k] == old_perm[k - 1]);
                }
            }
            assert forall|a: int, b: int| 0 <= a < b < i + 1 implies #[trigger] perm[a] != #[trigger] perm[b] by {
                let pa = if a < p { old_perm[a] } else if a == p { i as int } else { old_perm[a - 1] };
                let pb = if b < p { old_perm[b] } else if b == p { i as int } else { old_perm[b - 1] };
                assert(perm[a] == pa);
                assert(perm[b] == pb);
                if a != p && b != p {
                    let a0 = if a < p { a } else { a - 1 };
                    let b0 = if b < p { b } else { b - 1 };
                    assert(a0 < b0);
                    assert(old_perm[a0] != old_perm[b0]);
                }
            }
            assert forall|k: int| 0 <= k < i + 1 implies #[trigger] out@[k] == orig[perm[k]] by {
                if k < p {
                    assert(out@[k] == old_out[k]);
                } else if k > p {
                    assert(out@[k] == old_out[k - 1]);
                } else {
                    assert(x == orig[i as int]);
                }
            }
            assert forall|k: int| 0 <= k < i + 1 implies #[trigger] out_keys@[k] == keys@[perm[k]] by {
                if k < p {
                    assert(out_keys@[k] == old_keys[k]);
                } else if k > p {
                    assert(out_keys@[k] == old_keys[k - 1]);
                }
            }
            // Everything before `p` was used no earlier than `key`,
            // everything from `p` on strictly earlier.
            assert forall|k: int| p <= k < i implies old_keys[k] < key by {
                assert(old_keys[p as int] < key);
                assert(old_keys[p as int] == keys@[old_perm[p as int]]);
                assert(old_keys[k] == keys@[old_perm[k]]);
                if p < k {
                    assert(keys@[old_perm[p as int]] >= keys@[old_perm[k]]);
                }
            }
            assert forall|a: int, b: int| 0 <= a < b < perm.len() implies keys@[perm[a]] >= keys@[perm[b]] by {
                assert(out_keys@[a] == keys@[perm[a]]);
                assert(out_keys@[b] == keys@[perm[b]]);
                if a < p && b < p {
                    assert(old_perm[a] == perm[a] && old_perm[b] == perm[b]);
                } else if a < p && b == p {
                    assert(old_keys[a] >= key);
                } else if a < p && b > p {
                    assert(old_perm[b - 1] == perm[b]);
                } else if a == p {
                    assert(old_keys[b - 1] < key);
                } else {
                    assert(old_perm[a - 1] == perm[a] && old_perm[b - 1] == perm[b]);
                }
            }
            assert forall|a: int, b: int|
                0 <= a < b < perm.len() && keys@[perm[a]] == keys@[perm[b]] implies perm[a] < perm[b] by {
                if a < p && b < p {
                    assert(old_perm[a] == perm[a] && old_perm[b] == perm[b]);
                } else if a < p && b == p {
                    assert(perm[b] == i);
                } else if a < p && b > p {
                    assert(old_perm[b - 1] == perm[b]);
                } else if a == p {
                    assert(out_keys@[b] == old_keys[b - 1]);
                    assert(old_keys[b - 1] < key);
                } else {
                    assert(old_perm[a - 1] == perm[a] && old_perm[b - 1] == perm[b]);
                }
            }
        }
        i += 1;
    }
    proof {
        assert(is_permutation(perm, n as int));
    }
    out
}

} // verus!

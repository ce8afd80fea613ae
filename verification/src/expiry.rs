//! Response-level expiry aggregation: several concurrently fetched
//! resources each carry an optional expiry; a response is only as fresh as
//! its least-fresh constituent.

use vstd::prelude::*;

use crate::calendar::{rfc2822_utc, spec_rfc2822_utc, MAX_FORMAT_EPOCH};

verus! {

/// The earliest of the present expiries, `None` when none is present.
pub open spec fn spec_combine(expiries: Seq<Option<u64>>) -> Option<u64>
    decreases expiries.len(),
{
    if expiries.len() == 0 {
        None
    } else {
        spec_combine_step(spec_combine(expiries.drop_last()), expiries.last())
    }
}

/// Fold one more optional expiry into an aggregate.
pub open spec fn spec_combine_step(acc: Option<u64>, next: Option<u64>) -> Option<u64> {
    match next {
        None => acc,
        Some(t) => match acc {
            None => Some(t),
            Some(m) => if t < m {
                Some(t)
            } else {
                Some(m)
            },
        },
    }
}

/// Combine the expiry timestamps of several constituent resources into one
/// response-level expiry: absent values are ignored, nothing present means
/// no expiry, and otherwise the earliest timestamp wins.
pub fn combine(expiry_times: &Vec<Option<u64>>) -> (r: Option<u64>)
    ensures
        r == spec_combine(expiry_times@),
{
    let n = expiry_times.len();
    let mut acc: Option<u64> = None;
    let mut i: usize = 0;
    proof {
        assert(expiry_times@.take(0) =~= Seq::<Option<u64>>::empty());
    }
    while i < n
        invariant
            i <= n,
            n == expiry_times@.len(),
            acc == spec_combine(expiry_times@.take(i as int)),
        decreases n - i,
    {
        proof {
            assert(expiry_times@.take(i + 1).drop_last() =~= expiry_times@.take(i as int));
            assert(expiry_times@.take(i + 1).last() == expiry_times@[i as int]);
        }
        acc = match (expiry_times[i], acc) {
            (None, prev) => prev,
            (Some(t), None) => Some(t),
            (Some(t), Some(m)) => if t < m {
                Some(t)
            } else {
                Some(m)
            },
        };
        i = i + 1;
    }
    proof {
        assert(expiry_times@.take(n as int) =~= expiry_times@);
    }
    acc
}

/// The aggregate expiry is absent exactly when every constituent expiry is
/// absent.
pub proof fn lemma_combine_none_iff_all_absent(expiries: Seq<Option<u64>>)
    ensures
        (spec_combine(expiries) is None) <==> (forall|i: int|
            0 <= i < expiries.len() ==> expiries[i] is None),
    decreases expiries.len(),
{
    if expiries.len() > 0 {
        lemma_combine_none_iff_all_absent(expiries.drop_last());
        assert(expiries.last() == expiries[expiries.len() - 1]);
        assert forall|i: int| 0 <= i < expiries.len() - 1 implies expiries.drop_last()[i]
            == expiries[i] by {}
    }
}

/// When the aggregate expiry is present, it is one of the constituent
/// expiries and no present constituent expiry is earlier.
pub proof fn lemma_combine_is_earliest(expiries: Seq<Option<u64>>, m: u64)
    requires
        spec_combine(expiries) == Some(m),
    ensures
        exists|i: int| 0 <= i < expiries.len() && expiries[i] == Some(m),
        forall|i: int|
            0 <= i < expiries.len() ==> match #[trigger] expiries[i] {
                Some(t) => m <= t,
                None => true,
            },
    decreases expiries.len(),
{
    if expiries.len() > 0 {
        let prefix = expiries.drop_last();
        assert(expiries.last() == expiries[expiries.len() - 1]);
        assert forall|i: int| 0 <= i < expiries.len() - 1 implies prefix[i] == expiries[i] by {}
        match spec_combine(prefix) {
            None => {
                lemma_combine_none_iff_all_absent(prefix);
                assert(expiries[expiries.len() - 1] == Some(m));
            },
            Some(pm) => {
                lemma_combine_is_earliest(prefix, pm);
                if m == pm {
                    let w = choose|i: int| 0 <= i < prefix.len() && prefix[i] == Some(pm);
                    assert(expiries[w] == Some(m));
                } else {
                    assert(expiries[expiries.len() - 1] == Some(m));
                }
            },
        }
    }
}

/// The `Expires` header announcing an expiry time: its name, and the time
/// per RFC 2822.
pub fn generate_expiry_header(expires_at: u64) -> (r: (String, String))
    requires
        expires_at <= MAX_FORMAT_EPOCH,
    ensures
        r.0@ == "expires"@,
        r.1@ == spec_rfc2822_utc(expires_at as int),
{
    ("expires".to_owned(), rfc2822_utc(expires_at))
}

} // verus!

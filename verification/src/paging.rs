//! Paged listings over records kept in id order: the ids from a starting
//! id on that a filter keeps, one page of them.

use vstd::prelude::*;

verus! {

/// The ids, in order, from position `i` on, that are at least `start` and
/// whose flag is set.
pub open spec fn kept_ids(ids: Seq<u64>, keep: Seq<bool>, i: int, start: int) -> Seq<u64>
    decreases ids.len() - i,
{
    if i >= ids.len() || i < 0 {
        Seq::empty()
    } else if ids[i] >= start && keep[i] {
        seq![ids[i]] + kept_ids(ids, keep, i + 1, start)
    } else {
        kept_ids(ids, keep, i + 1, start)
    }
}

/// The first `n` elements of `s`, or all of them.
pub open spec fn first_n<T>(s: Seq<T>, n: int) -> Seq<T> {
    if n < s.len() { s.take(n) } else { s }
}

/// The given limit or `default`, at most `max`.
pub open spec fn capped_limit(limit: Option<u32>, default: u32, max: u32) -> int {
    let l = match limit { Some(l) => l, None => default };
    if l < max { l as int } else { max as int }
}

/// `limit.unwrap_or(default).min(max)`.
pub fn cap_limit(limit: Option<u32>, default: u32, max: u32) -> (r: usize)
    ensures
        r == capped_limit(limit, default, max),
{
    let l = match limit { Some(l) => l, None => default };
    if l < max { l as usize } else { max as usize }
}

/// One page of the kept ids from `start` on.
pub fn page(ids: &Vec<u64>, keep: &Vec<bool>, start: u64, lim: usize) -> (r: Vec<u64>)
    requires
        ids.len() == keep.len(),
    ensures
        r@ == first_n(kept_ids(ids@, keep@, 0, start as int), lim as int),
{
    let ghost all = kept_ids(ids@, keep@, 0, start as int);
    let mut out: Vec<u64> = Vec::new();
    if lim == 0 {
        assert(out@ =~= first_n(all, 0));
        return out;
    }
    let mut i: usize = 0;
    loop
        invariant_except_break
            i <= ids.len(),
            out@.len() < lim,
            all == out@ + kept_ids(ids@, keep@, i as int, start as int),
        invariant
            ids.len() == keep.len(),
            all == kept_ids(ids@, keep@, 0, start as int),
        ensures
            out@ == first_n(all, lim as int),
        decreases ids.len() - i,
    {
        if i >= ids.len() {
            assert(all =~= out@);
            break;
        }
        if ids[i] >= start && keep[i] {
            out.push(ids[i]);
            assert(all =~= out@ + kept_ids(ids@, keep@, i as int + 1, start as int));
            if out.len() >= lim {
                assert(out@ =~= first_n(all, lim as int)) by {
                    assert(all.take(lim as int) =~= out@);
                }
                break;
            }
        } else {
            assert(all =~= out@ + kept_ids(ids@, keep@, i as int + 1, start as int));
        }
        i += 1;
    }
    out
}

} // verus!

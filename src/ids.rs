//! Neighbours in a set of identifiers, taken by value rather than by position.
use vstd::prelude::*;

verus! {

/// `r` is the smallest identifier of `ids`.
pub open spec fn is_min(ids: Seq<u32>, r: u32) -> bool {
    ids.contains(r) && forall|k: int| 0 <= k < ids.len() ==> r <= #[trigger] ids[k]
}

/// `r` is the largest identifier of `ids`.
pub open spec fn is_max(ids: Seq<u32>, r: u32) -> bool {
    ids.contains(r) && forall|k: int| 0 <= k < ids.len() ==> #[trigger] ids[k] <= r
}

pub open spec fn has_below(ids: Seq<u32>, cur: u32) -> bool {
    exists|k: int| 0 <= k < ids.len() && #[trigger] ids[k] < cur
}

pub open spec fn has_above(ids: Seq<u32>, cur: u32) -> bool {
    exists|k: int| 0 <= k < ids.len() && #[trigger] ids[k] > cur
}

/// `r` is the largest identifier of `ids` below `cur`.
pub open spec fn is_next_below(ids: Seq<u32>, cur: u32, r: u32) -> bool {
    &&& ids.contains(r)
    &&& r < cur
    &&& forall|k: int| 0 <= k < ids.len() && ids[k] < cur ==> #[trigger] ids[k] <= r
}

/// `r` is the smallest identifier of `ids` above `cur`.
pub open spec fn is_next_above(ids: Seq<u32>, cur: u32, r: u32) -> bool {
    &&& ids.contains(r)
    &&& r > cur
    &&& forall|k: int| 0 <= k < ids.len() && ids[k] > cur ==> r <= #[trigger] ids[k]
}

pub fn min_id(ids: &Vec<u32>) -> (r: Option<u32>)
    ensures
        r is None <==> ids@.len() == 0,
        r matches Some(m) ==> is_min(ids@, m),
{
    if ids.len() == 0 {
        return None;
    }
    let mut best = ids[0];
    assert(ids@[0] == best);
    let mut i: usize = 1;
    while i < ids.len()
        invariant
            1 <= i <= ids@.len(),
            ids@.contains(best),
            forall|k: int| 0 <= k < i ==> best <= #[trigger] ids@[k],
        decreases ids@.len() - i,
    {
        if ids[i] < best {
            best = ids[i];
        }
        i = i + 1;
    }
    Some(best)
}

pub fn max_id(ids: &Vec<u32>) -> (r: Option<u32>)
    ensures
        r is None <==> ids@.len() == 0,
        r matches Some(m) ==> is_max(ids@, m),
{
    if ids.len() == 0 {
        return None;
    }
    let mut best = ids[0];
    assert(ids@[0] == best);
    let mut i: usize = 1;
    while i < ids.len()
        invariant
            1 <= i <= ids@.len(),
            ids@.contains(best),
            forall|k: int| 0 <= k < i ==> #[trigger] ids@[k] <= best,
        decreases ids@.len() - i,
    {
        if ids[i] > best {
            best = ids[i];
        }
        i = i + 1;
    }
    Some(best)
}

/// The largest identifier below `cur`, if there is one.
pub fn next_below(ids: &Vec<u32>, cur: u32) -> (r: Option<u32>)
    ensures
        r is None <==> !has_below(ids@, cur),
        r matches Some(m) ==> is_next_below(ids@, cur, m),
{
    let mut best: Option<u32> = None;
    let mut i: usize = 0;
    while i < ids.len()
        invariant
            0 <= i <= ids@.len(),
            best is None ==> forall|k: int| 0 <= k < i ==> #[trigger] ids@[k] >= cur,
            best matches Some(m) ==> m < cur && ids@.contains(m) && forall|k: int|
                0 <= k < i && ids@[k] < cur ==> #[trigger] ids@[k] <= m,
        decreases ids@.len() - i,
    {
        let x = ids[i];
        if x < cur {
            match best {
                Some(m) => {
                    if x > m {
                        best = Some(x);
                    }
                },
                None => {
                    best = Some(x);
                },
            }
        }
        i = i + 1;
    }
    proof {
        if best is None && has_below(ids@, cur) {
            let k = choose|k: int| 0 <= k < ids@.len() && #[trigger] ids@[k] < cur;
            assert(ids@[k] >= cur);
        }
    }
    best
}

/// The smallest identifier above `cur`, if there is one.
pub fn next_above(ids: &Vec<u32>, cur: u32) -> (r: Option<u32>)
    ensures
        r is None <==> !has_above(ids@, cur),
        r matches Some(m) ==> is_next_above(ids@, cur, m),
{
    let mut best: Option<u32> = None;
    let mut i: usize = 0;
    while i < ids.len()
        invariant
            0 <= i <= ids@.len(),
            best is None ==> forall|k: int| 0 <= k < i ==> #[trigger] ids@[k] <= cur,
            best matches Some(m) ==> m > cur && ids@.contains(m) && forall|k: int|
                0 <= k < i && ids@[k] > cur ==> m <= #[trigger] ids@[k],
        decreases ids@.len() - i,
    {
        let x = ids[i];
        if x > cur {
            match best {
                Some(m) => {
                    if x < m {
                        best = Some(x);
                    }
                },
                None => {
                    best = Some(x);
                },
            }
        }
        i = i + 1;
    }
    proof {
        if best is None && has_above(ids@, cur) {
            let k = choose|k: int| 0 <= k < ids@.len() && #[trigger] ids@[k] > cur;
            assert(ids@[k] <= cur);
        }
    }
    best
}

} // verus!

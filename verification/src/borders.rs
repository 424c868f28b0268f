//! Border pixel sets of a binary mask (the point sets that the text
//! detector turns into boxes): the outer border of every 8-connected
//! foreground component, and the border of every hole (4-connected
//! background region not reachable from the image border) along each
//! component. Points are `(x, y)` pixel coordinates, in scan order.
//!
//! The labelings are flood fills; each one is certified: labels are closed
//! under adjacency, and every labeled pixel reaches a root of its label
//! through a chain of adjacent pixels of the same label.

use vstd::prelude::*;
use crate::imgops::{lemma_coords_pixel, lemma_pixel_coords};

verus! {

/// Horizontal step of direction `k`: 0 right, 1 left, 2 down, 3 up,
/// 4 down-right, 5 down-left, 6 up-right, 7 up-left.
pub open spec fn step_dx(k: int) -> int {
    if k == 0 || k == 4 || k == 6 {
        1
    } else if k == 1 || k == 5 || k == 7 {
        -1
    } else {
        0
    }
}

/// Vertical step of direction `k` (y grows downwards).
pub open spec fn step_dy(k: int) -> int {
    if k == 2 || k == 4 || k == 5 {
        1
    } else if k == 3 || k == 6 || k == 7 {
        -1
    } else {
        0
    }
}

/// Neighbour of pixel `p` in direction `k` in a `w` x `h` image, if inside.
pub open spec fn nb(w: int, h: int, p: int, k: int) -> Option<int> {
    let nx = p % w + step_dx(k);
    let ny = p / w + step_dy(k);
    if 0 <= nx < w && 0 <= ny < h {
        Some(ny * w + nx)
    } else {
        None
    }
}

/// The direction back.
pub open spec fn opposite(k: int) -> int {
    if k == 0 {
        1
    } else if k == 1 {
        0
    } else if k == 2 {
        3
    } else if k == 3 {
        2
    } else if k == 4 {
        7
    } else if k == 7 {
        4
    } else if k == 5 {
        6
    } else {
        5
    }
}

/// Number of directions: 8-connectivity or 4-connectivity (the first four).
pub open spec fn dirs(conn8: bool) -> int {
    if conn8 {
        8
    } else {
        4
    }
}

proof fn lemma_nb(w: int, h: int, p: int, k: int)
    requires
        0 < w,
        0 <= p < w * h,
        0 <= k < 8,
    ensures
        nb(w, h, p, k) matches Some(q) ==> 0 <= q < w * h && nb(w, h, q, opposite(k)) == Some(p),
        0 <= opposite(k) < 8,
        k < 4 ==> opposite(k) < 4,
{
    lemma_pixel_coords(p, w, h);
    if let Some(q) = nb(w, h, p, k) {
        let nx = p % w + step_dx(k);
        let ny = p / w + step_dy(k);
        lemma_coords_pixel(nx, ny, w, h);
        assert(q % w == nx && q / w == ny);
        assert(nx + step_dx(opposite(k)) == p % w);
        assert(ny + step_dy(opposite(k)) == p / w);
    }
}

/// Neighbours stay inside the image.
pub open spec fn nb_in_range(w: int, h: int) -> bool {
    forall|p: int, k: int|
        0 <= p < w * h && 0 <= k < 8 && #[trigger] nb(w, h, p, k) is Some ==> 0 <= nb(w, h, p, k)->0 < w * h
}

proof fn lemma_nb_in_range(w: int, h: int)
    requires
        0 < w,
    ensures
        nb_in_range(w, h),
{
    assert forall|p: int, k: int| 0 <= p < w * h && 0 <= k < 8 && #[trigger] nb(w, h, p, k) is Some implies 0 <= nb(
        w,
        h,
        p,
        k,
    )->0 < w * h by {
        lemma_nb(w, h, p, k);
    }
}

/// Every neighbour of `p` that is a member is labeled.
pub open spec fn nbrs_labeled(member: Seq<bool>, w: int, h: int, conn8: bool, labels: Seq<i32>, p: int) -> bool {
    forall|k: int|
        0 <= k < dirs(conn8) && #[trigger] nb(w, h, p, k) is Some && member[nb(w, h, p, k)->0] ==> labels[nb(
            w,
            h,
            p,
            k,
        )->0] >= 0
}

/// Every neighbour of `p` that is a member has `p`'s label.
pub open spec fn nbrs_same(member: Seq<bool>, w: int, h: int, conn8: bool, labels: Seq<i32>, p: int) -> bool {
    forall|k: int|
        0 <= k < dirs(conn8) && #[trigger] nb(w, h, p, k) is Some && member[nb(w, h, p, k)->0] ==> labels[nb(
            w,
            h,
            p,
            k,
        )->0] == labels[p]
}

/// Parent links: every labeled pixel that is not its own parent has an
/// adjacent parent with the same label and a smaller rank.
pub open spec fn certified(w: int, h: int, conn8: bool, labels: Seq<i32>, par: Seq<int>, rank: Seq<int>) -> bool {
    &&& par.len() == labels.len()
    &&& rank.len() == labels.len()
    &&& forall|q: int|
        0 <= q < labels.len() && labels[q] >= 0 && #[trigger] par[q] != q ==> {
            &&& 0 <= par[q] < labels.len()
            &&& labels[par[q]] == labels[q]
            &&& rank[par[q]] < rank[q]
            &&& exists|k: int| 0 <= k < dirs(conn8) && #[trigger] nb(w, h, par[q], k) == Some(q)
        }
}

/// Labels are -1 (unlabeled) or non-negative, and only members are labeled.
pub open spec fn labels_basic(member: Seq<bool>, labels: Seq<i32>) -> bool {
    &&& labels.len() == member.len()
    &&& forall|p: int| 0 <= p < labels.len() ==> #[trigger] labels[p] >= -1
    &&& forall|p: int| 0 <= p < labels.len() && labels[p] >= 0 ==> #[trigger] member[p]
}

/// Number of unlabeled pixels.
pub open spec fn unl(s: Seq<i32>) -> nat
    decreases s.len(),
{
    if s.len() == 0 {
        0
    } else {
        unl(s.drop_last()) + if s.last() < 0 {
            1nat
        } else {
            0nat
        }
    }
}

proof fn lemma_unl_update(s: Seq<i32>, i: int, v: i32)
    requires
        0 <= i < s.len(),
        s[i] < 0,
        v >= 0,
    ensures
        unl(s.update(i, v)) + 1 == unl(s),
    decreases s.len(),
{
    let t = s.update(i, v);
    if i < s.len() - 1 {
        assert(t.drop_last() =~= s.drop_last().update(i, v));
        lemma_unl_update(s.drop_last(), i, v);
    } else {
        assert(t.drop_last() =~= s.drop_last());
    }
}

/// Neighbour of `p` in direction `k`.
fn neighbor(w: usize, h: usize, p: usize, k: usize) -> (r: Option<usize>)
    requires
        0 < w,
        p < w * h,
        w * h <= usize::MAX,
        k < 8,
    ensures
        r matches Some(q) ==> nb(w as int, h as int, p as int, k as int) == Some(q as int),
        r is None ==> nb(w as int, h as int, p as int, k as int) is None,
{
    proof {
        lemma_pixel_coords(p as int, w as int, h as int);
    }
    let x = p % w;
    let y = p / w;
    let dx: i8 = if k == 0 || k == 4 || k == 6 {
        1
    } else if k == 1 || k == 5 || k == 7 {
        -1
    } else {
        0
    };
    let dy: i8 = if k == 2 || k == 4 || k == 5 {
        1
    } else if k == 3 || k == 6 || k == 7 {
        -1
    } else {
        0
    };
    if (dx == 1 && x + 1 >= w) || (dx == -1 && x == 0) || (dy == 1 && y + 1 >= h) || (dy == -1 && y == 0) {
        return None;
    }
    let nx = if dx == 1 {
        x + 1
    } else if dx == -1 {
        x - 1
    } else {
        x
    };
    let ny = if dy == 1 {
        y + 1
    } else if dy == -1 {
        y - 1
    } else {
        y
    };
    proof {
        lemma_coords_pixel(nx as int, ny as int, w as int, h as int);
        assert(ny * w <= ny * w + nx);
    }
    Some(ny * w + nx)
}

/// Flood fill of label `c` from the pixels on `stack`.
fn flood(
    member: &Vec<bool>,
    w: usize,
    h: usize,
    conn8: bool,
    labels: &mut Vec<i32>,
    stack: Vec<usize>,
    c: i32,
    Ghost(par0): Ghost<Seq<int>>,
    Ghost(rank0): Ghost<Seq<int>>,
    Ghost(tick0): Ghost<int>,
) -> (res: Ghost<(Seq<int>, Seq<int>, int)>)
    requires
        0 < w,
        w * h <= usize::MAX,
        member@.len() == w * h,
        labels_basic(member@, old(labels)@),
        c >= 0,
        forall|i: int| 0 <= i < stack@.len() ==> #[trigger] stack@[i] < w * h && old(labels)@[stack@[i] as int] == c,
        forall|p: int|
            0 <= p < w * h && #[trigger] old(labels)@[p] == c && !stack@.contains(p as usize) ==> nbrs_labeled(
                member@,
                w as int,
                h as int,
                conn8,
                old(labels)@,
                p,
            ),
        certified(w as int, h as int, conn8, old(labels)@, par0, rank0),
        forall|p: int| 0 <= p < w * h && old(labels)@[p] >= 0 ==> #[trigger] rank0[p] < tick0,
    ensures
        labels_basic(member@, final(labels)@),
        forall|p: int| 0 <= p < w * h && old(labels)@[p] >= 0 ==> #[trigger] final(labels)@[p] == old(labels)@[p],
        forall|p: int| 0 <= p < w * h && old(labels)@[p] < 0 && #[trigger] final(labels)@[p] >= 0 ==> final(labels)@[p] == c,
        forall|p: int| 0 <= p < w * h && #[trigger] final(labels)@[p] == c ==> nbrs_labeled(
            member@,
            w as int,
            h as int,
            conn8,
            final(labels)@,
            p,
        ),
        certified(w as int, h as int, conn8, final(labels)@, res@.0, res@.1),
        forall|p: int| 0 <= p < w * h && final(labels)@[p] >= 0 ==> #[trigger] res@.1[p] < res@.2,
        forall|p: int| 0 <= p < w * h && old(labels)@[p] >= 0 ==> #[trigger] res@.0[p] == par0[p],
        forall|p: int| 0 <= p < w * h && old(labels)@[p] < 0 && final(labels)@[p] >= 0 ==> #[trigger] res@.0[p] != p,
{
    let n = w * h;
    proof {
        lemma_nb_in_range(w as int, h as int);
    }
    let ghost orig = labels@;
    let ghost mut par = par0;
    let ghost mut rank = rank0;
    let ghost mut tick = tick0;
    let mut stack = stack;
    let kmax: usize = if conn8 {
        8
    } else {
        4
    };
    while stack.len() > 0
        invariant
            0 < w,
            n == w * h,
            n <= usize::MAX,
            member@.len() == n,
            kmax == dirs(conn8),
            c >= 0,
            nb_in_range(w as int, h as int),
            labels_basic(member@, labels@),
            forall|i: int| 0 <= i < stack@.len() ==> #[trigger] stack@[i] < n && labels@[stack@[i] as int] == c,
            forall|p: int|
                0 <= p < n && #[trigger] labels@[p] == c && !stack@.contains(p as usize) ==> nbrs_labeled(
                    member@,
                    w as int,
                    h as int,
                    conn8,
                    labels@,
                    p,
                ),
            forall|p: int| 0 <= p < n && orig[p] >= 0 ==> #[trigger] labels@[p] == orig[p],
            forall|p: int| 0 <= p < n && orig[p] < 0 && #[trigger] labels@[p] >= 0 ==> labels@[p] == c,
            certified(w as int, h as int, conn8, labels@, par, rank),
            forall|p: int| 0 <= p < n && labels@[p] >= 0 ==> #[trigger] rank[p] < tick,
            forall|p: int| 0 <= p < n && orig[p] >= 0 ==> #[trigger] par[p] == par0[p],
            forall|p: int| 0 <= p < n && orig[p] < 0 && labels@[p] >= 0 ==> #[trigger] par[p] != p,
        decreases 2 * unl(labels@) + stack@.len(),
    {
        let ghost m0 = 2 * unl(labels@) + stack@.len();
        let ghost st0 = stack@;
        let p = stack.pop().unwrap();
        proof {
            assert(st0 == stack@.push(p));
            assert(labels@[p as int] == c);
            assert forall|r: int|
                0 <= r < n && r != p && #[trigger] labels@[r] == c && !stack@.contains(r as usize) implies nbrs_labeled(
                member@,
                w as int,
                h as int,
                conn8,
                labels@,
                r,
            ) by {
                if st0.contains(r as usize) {
                    let i = choose|i: int| 0 <= i < st0.len() && st0[i] == r as usize;
                    if i < stack@.len() {
                        assert(stack@[i] == r as usize);
                    }
                }
            }
        }
        let mut k: usize = 0;
        while k < kmax
            invariant
                0 < w,
                n == w * h,
                n <= usize::MAX,
                member@.len() == n,
                kmax == dirs(conn8),
                kmax <= 8,
                c >= 0,
                nb_in_range(w as int, h as int),
                p < n,
                labels@[p as int] == c,
                labels_basic(member@, labels@),
                forall|i: int| 0 <= i < stack@.len() ==> #[trigger] stack@[i] < n && labels@[stack@[i] as int] == c,
                forall|r: int|
                    0 <= r < n && r != p && #[trigger] labels@[r] == c && !stack@.contains(r as usize) ==> nbrs_labeled(
                        member@,
                        w as int,
                        h as int,
                        conn8,
                        labels@,
                        r,
                    ),
                forall|j: int|
                    0 <= j < k && #[trigger] nb(w as int, h as int, p as int, j) is Some && member@[nb(
                        w as int,
                        h as int,
                        p as int,
                        j,
                    )->0] ==> labels@[nb(w as int, h as int, p as int, j)->0] >= 0,
                forall|q: int| 0 <= q < n && orig[q] >= 0 ==> #[trigger] labels@[q] == orig[q],
                forall|q: int| 0 <= q < n && orig[q] < 0 && #[trigger] labels@[q] >= 0 ==> labels@[q] == c,
                certified(w as int, h as int, conn8, labels@, par, rank),
                forall|q: int| 0 <= q < n && labels@[q] >= 0 ==> #[trigger] rank[q] < tick,
                forall|q: int| 0 <= q < n && orig[q] >= 0 ==> #[trigger] par[q] == par0[q],
                forall|q: int| 0 <= q < n && orig[q] < 0 && labels@[q] >= 0 ==> #[trigger] par[q] != q,
                2 * unl(labels@) + stack@.len() < m0,
            decreases kmax - k,
        {
            match neighbor(w, h, p, k) {
                Some(q) => {
                    proof {
                        lemma_nb(w as int, h as int, p as int, k as int);
                    }
                    if member[q] && labels[q] < 0 {
                        let ghost before = labels@;
                        let ghost st_before = stack@;
                        proof {
                            lemma_unl_update(labels@, q as int, c);
                        }
                        labels.set(q, c);
                        stack.push(q);
                        proof {
                            par = par.update(q as int, p as int);
                            rank = rank.update(q as int, tick);
                            tick = tick + 1;
                            assert(nb(w as int, h as int, par[q as int], k as int) == Some(q as int));
                            assert(stack@[stack@.len() - 1] == q);
                            assert forall|j: int|
                                0 <= j < k && #[trigger] nb(w as int, h as int, p as int, j) is Some && member@[nb(
                                    w as int,
                                    h as int,
                                    p as int,
                                    j,
                                )->0] implies labels@[nb(w as int, h as int, p as int, j)->0] >= 0 by {
                                let q2 = nb(w as int, h as int, p as int, j)->0;
                                assert(before[q2] >= 0);
                            }
                            assert forall|r: int|
                                0 <= r < n && r != p && #[trigger] labels@[r] == c && !stack@.contains(r as usize)
                                    implies nbrs_labeled(member@, w as int, h as int, conn8, labels@, r) by {
                                assert(r != q);
                                assert(stack@ == st_before.push(q));
                                if st_before.contains(r as usize) {
                                    let i = choose|i: int| 0 <= i < st_before.len() && st_before[i] == r as usize;
                                    assert(stack@[i] == r as usize);
                                }
                                assert(nbrs_labeled(member@, w as int, h as int, conn8, before, r));
                            }
                        }
                    }
                },
                None => {},
            }
            k += 1;
        }
    }
    Ghost((par, rank, tick))
}


/// Some pixel has label `c`.
pub open spec fn label_used(labels: Seq<i32>, c: int) -> bool {
    exists|p: int| 0 <= p < labels.len() && labels[p] == c
}

/// `labels` numbers the connected components of the members: only members
/// are labeled, member neighbours share labels, every label below `count`
/// is used, labels appear in scan order, and a certificate links every
/// labeled pixel to the first pixel of its label.
pub open spec fn components_ok(member: Seq<bool>, w: int, h: int, conn8: bool, labels: Seq<i32>, count: int) -> bool {
    &&& labels.len() == w * h
    &&& member.len() == w * h
    &&& count >= 0
    &&& forall|p: int| 0 <= p < w * h ==> (#[trigger] labels[p] >= 0) == member[p]
    &&& forall|p: int| 0 <= p < w * h ==> -1 <= #[trigger] labels[p] < count
    &&& forall|p: int| 0 <= p < w * h && #[trigger] labels[p] >= 0 ==> nbrs_same(member, w, h, conn8, labels, p)
    &&& forall|q: int| 0 <= q < w * h && #[trigger] labels[q] > 0 ==> exists|r: int| 0 <= r < q && labels[r] == labels[q] - 1
    &&& forall|c: int| 0 <= c < count ==> #[trigger] label_used(labels, c)
    &&& exists|par: Seq<int>, rank: Seq<int>|
        {
            &&& certified(w, h, conn8, labels, par, rank)
            &&& forall|q: int|
                0 <= q < w * h && labels[q] >= 0 && #[trigger] par[q] == q ==> forall|r: int| 0 <= r < q ==> labels[r] != labels[q]
        }
}

/// Labels the connected components of `member` (8- or 4-connected) in scan
/// order of their first pixel; non-members get -1. Returns the labels and
/// the number of components.
pub fn label_components(member: &Vec<bool>, w: usize, h: usize, conn8: bool) -> (res: (Vec<i32>, i32))
    requires
        member@.len() == w * h,
        w * h <= i32::MAX,
    ensures
        components_ok(member@, w as int, h as int, conn8, res.0@, res.1 as int),
{
    let n = w * h;
    let mut labels: Vec<i32> = Vec::new();
    let mut i: usize = 0;
    while i < n
        invariant
            i <= n,
            labels@.len() == i,
            forall|p: int| 0 <= p < i ==> #[trigger] labels@[p] == -1,
        decreases n - i,
    {
        labels.push(-1);
        i += 1;
    }
    let mut count: i32 = 0;
    let ghost mut par: Seq<int> = Seq::new(n as nat, |q: int| q);
    let ghost mut rank: Seq<int> = Seq::new(n as nat, |q: int| 0);
    let ghost mut tick: int = 0;
    let mut start: usize = 0;
    while start < n
        invariant
            n == w * h,
            n <= i32::MAX,
            member@.len() == n,
            labels_basic(member@, labels@),
            0 <= count <= start <= n,
            forall|p: int| 0 <= p < n ==> #[trigger] labels@[p] < count,
            forall|p: int| 0 <= p < start && #[trigger] member@[p] ==> labels@[p] >= 0,
            forall|p: int| 0 <= p < n && #[trigger] labels@[p] >= 0 ==> nbrs_same(member@, w as int, h as int, conn8, labels@, p),
            forall|q: int| 0 <= q < n && #[trigger] labels@[q] > 0 ==> exists|r: int| 0 <= r < q && labels@[r] == labels@[q] - 1,
            count > 0 ==> exists|r: int| 0 <= r < start && labels@[r] == count - 1,
            forall|c: int| 0 <= c < count ==> #[trigger] label_used(labels@, c),
            certified(w as int, h as int, conn8, labels@, par, rank),
            forall|p: int| 0 <= p < n && labels@[p] >= 0 ==> #[trigger] rank[p] < tick,
            forall|q: int|
                0 <= q < n && labels@[q] >= 0 && #[trigger] par[q] == q ==> forall|r: int| 0 <= r < q ==> labels@[r] != labels@[q],
        decreases n - start,
    {
        if member[start] && labels[start] < 0 {
            proof {
                assert(w > 0) by (nonlinear_arith)
                    requires start < n, n == w * h;
                lemma_nb_in_range(w as int, h as int);
            }
            let ghost pre = labels@;
            labels.set(start, count);
            proof {
                par = par.update(start as int, start as int);
                rank = rank.update(start as int, tick);
                tick = tick + 1;
            }
            let ghost seeded = labels@;
            let mut stack: Vec<usize> = Vec::new();
            stack.push(start);
            proof {
                assert(stack@[0] == start);
                assert forall|p: int|
                    0 <= p < w * h && #[trigger] seeded[p] == count && !stack@.contains(p as usize) implies nbrs_labeled(
                    member@,
                    w as int,
                    h as int,
                    conn8,
                    seeded,
                    p,
                ) by {
                    assert(p == start);
                    assert(stack@.contains(start));
                }
            }
            let res = flood(member, w, h, conn8, &mut labels, stack, count, Ghost(par), Ghost(rank), Ghost(tick));
            proof {
                let post = labels@;
                // new pixels are exactly those labeled `count`, all unlabeled before
                assert forall|p: int| 0 <= p < n && #[trigger] post[p] == count implies pre[p] < 0 by {
                    if pre[p] >= 0 {
                        assert(seeded[p] == pre[p]);
                    }
                }
                assert forall|p: int| 0 <= p < n && #[trigger] post[p] >= 0 implies nbrs_same(
                    member@,
                    w as int,
                    h as int,
                    conn8,
                    post,
                    p,
                ) by {
                    if post[p] == count {
                        assert forall|k: int|
                            0 <= k < dirs(conn8) && #[trigger] nb(w as int, h as int, p, k) is Some && member@[nb(
                                w as int,
                                h as int,
                                p,
                                k,
                            )->0] implies post[nb(w as int, h as int, p, k)->0] == post[p] by {
                            let q = nb(w as int, h as int, p, k)->0;
                            assert(post[q] >= 0);
                            if post[q] != count {
                                assert(seeded[q] >= 0);
                                assert(pre[q] >= 0);
                                lemma_nb(w as int, h as int, p, k);
                                let k2 = opposite(k);
                                assert(nb(w as int, h as int, q, k2) == Some(p));
                                assert(nbrs_same(member@, w as int, h as int, conn8, pre, q));
                                assert(pre[p] == pre[q]);
                            }
                        }
                    } else {
                        assert(pre[p] >= 0 && post[p] == pre[p]);
                        assert(nbrs_same(member@, w as int, h as int, conn8, pre, p));
                        assert forall|k: int|
                            0 <= k < dirs(conn8) && #[trigger] nb(w as int, h as int, p, k) is Some && member@[nb(
                                w as int,
                                h as int,
                                p,
                                k,
                            )->0] implies post[nb(w as int, h as int, p, k)->0] == post[p] by {
                            let q = nb(w as int, h as int, p, k)->0;
                            assert(pre[q] == pre[p]);
                        }
                    }
                }
                assert forall|q: int| 0 <= q < n && #[trigger] post[q] > 0 implies exists|r: int|
                    0 <= r < q && post[r] == post[q] - 1 by {
                    if post[q] == count {
                        assert(pre[q] < 0);
                        if q < start {
                            assert(member@[q]);
                        }
                        let r = choose|r: int| 0 <= r < start && pre[r] == count - 1;
                        assert(post[r] == pre[r]);
                    } else {
                        let r = choose|r: int| 0 <= r < q && pre[r] == pre[q] - 1;
                        assert(post[r] == pre[r]);
                    }
                }
                assert forall|c: int| 0 <= c < count + 1 implies #[trigger] label_used(post, c) by {
                    if c == count {
                        assert(post[start as int] == count);
                    } else {
                        assert(label_used(pre, c));
                        let p = choose|p: int| 0 <= p < pre.len() && pre[p] == c;
                        assert(post[p] == pre[p]);
                    }
                }
                assert forall|q: int|
                    0 <= q < n && post[q] >= 0 && #[trigger] res@.0[q] == q implies forall|r: int| 0 <= r < q ==> post[r] != post[q] by {
                    if q == start {
                        assert forall|r: int| 0 <= r < q implies post[r] != post[q] by {
                            if pre[r] >= 0 {
                                assert(post[r] == pre[r]);
                            } else {
                                assert(!member@[r]);
                            }
                        }
                    } else if pre[q] >= 0 {
                        assert(res@.0[q] == par[q]);
                        assert forall|r: int| 0 <= r < q implies post[r] != post[q] by {
                            if pre[r] >= 0 {
                                assert(post[r] == pre[r]);
                            }
                        }
                    } else {
                        assert(seeded[q] < 0);
                    }
                }
                assert(post[start as int] == count);
                par = res@.0;
                rank = res@.1;
                tick = res@.2;
            }
            count = count + 1;
        }
        start += 1;
    }
    proof {
        assert forall|p: int| 0 <= p < n implies (#[trigger] labels@[p] >= 0) == member@[p] by {}
        assert(certified(w as int, h as int, conn8, labels@, par, rank));
    }
    (labels, count)
}


/// Pixel `p` lies on the image border.
pub open spec fn on_border(w: int, h: int, p: int) -> bool {
    p % w == 0 || p % w == w - 1 || p / w == 0 || p / w == h - 1
}

/// `ext` (0 or -1) marks the background pixels 4-connected, through
/// background, to a background pixel on the image border.
pub open spec fn exterior_ok(bg: Seq<bool>, w: int, h: int, ext: Seq<i32>) -> bool {
    &&& ext.len() == w * h
    &&& bg.len() == w * h
    &&& forall|p: int| 0 <= p < w * h ==> (#[trigger] ext[p] == 0 || ext[p] == -1)
    &&& forall|p: int| 0 <= p < w * h && #[trigger] ext[p] >= 0 ==> bg[p]
    &&& forall|p: int| 0 <= p < w * h && #[trigger] bg[p] && on_border(w, h, p) ==> ext[p] >= 0
    &&& forall|p: int| 0 <= p < w * h && #[trigger] ext[p] >= 0 ==> nbrs_labeled(bg, w, h, false, ext, p)
    &&& exists|par: Seq<int>, rank: Seq<int>|
        {
            &&& certified(w, h, false, ext, par, rank)
            &&& forall|q: int| 0 <= q < w * h && ext[q] >= 0 && #[trigger] par[q] == q ==> on_border(w, h, q)
        }
}

fn is_on_border(w: usize, h: usize, p: usize) -> (r: bool)
    requires
        0 < w,
        p < w * h,
    ensures
        r == on_border(w as int, h as int, p as int),
{
    proof {
        lemma_pixel_coords(p as int, w as int, h as int);
    }
    let x = p % w;
    let y = p / w;
    x == 0 || x + 1 == w || y == 0 || y + 1 == h
}

/// Marks the exterior background (0) among the `bg` pixels; the rest is -1.
pub fn exterior(bg: &Vec<bool>, w: usize, h: usize) -> (ext: Vec<i32>)
    requires
        bg@.len() == w * h,
        w * h <= i32::MAX,
    ensures
        exterior_ok(bg@, w as int, h as int, ext@),
{
    let n = w * h;
    let mut labels: Vec<i32> = Vec::new();
    let mut i: usize = 0;
    while i < n
        invariant
            i <= n,
            labels@.len() == i,
            forall|p: int| 0 <= p < i ==> #[trigger] labels@[p] == -1,
        decreases n - i,
    {
        labels.push(-1);
        i += 1;
    }
    let ghost mut par: Seq<int> = Seq::new(n as nat, |q: int| q);
    let ghost mut rank: Seq<int> = Seq::new(n as nat, |q: int| 0);
    let ghost mut tick: int = 0;
    let mut p: usize = 0;
    while p < n
        invariant
            n == w * h,
            n <= i32::MAX,
            bg@.len() == n,
            p <= n,
            labels_basic(bg@, labels@),
            forall|q: int| 0 <= q < n ==> (#[trigger] labels@[q] == 0 || labels@[q] == -1),
            forall|q: int| 0 <= q < p && #[trigger] bg@[q] && on_border(w as int, h as int, q) ==> labels@[q] >= 0,
            forall|q: int| 0 <= q < n && #[trigger] labels@[q] >= 0 ==> nbrs_labeled(bg@, w as int, h as int, false, labels@, q),
            certified(w as int, h as int, false, labels@, par, rank),
            forall|q: int| 0 <= q < n && labels@[q] >= 0 ==> #[trigger] rank[q] < tick,
            forall|q: int| 0 <= q < n && labels@[q] >= 0 && #[trigger] par[q] == q ==> on_border(w as int, h as int, q),
        decreases n - p,
    {
        proof {
            assert(w > 0) by (nonlinear_arith)
                requires p < n, n == w * h;
        }
        if bg[p] && is_on_border(w, h, p) && labels[p] < 0 {
            let ghost pre = labels@;
            labels.set(p, 0);
            proof {
                par = par.update(p as int, p as int);
                rank = rank.update(p as int, tick);
                tick = tick + 1;
            }
            let ghost seeded = labels@;
            let mut stack: Vec<usize> = Vec::new();
            stack.push(p);
            proof {
                assert(stack@[0] == p);
                assert forall|q: int|
                    0 <= q < w * h && #[trigger] seeded[q] == 0 && !stack@.contains(q as usize) implies nbrs_labeled(
                    bg@,
                    w as int,
                    h as int,
                    false,
                    seeded,
                    q,
                ) by {
                    assert(q != p);
                    assert(pre[q] >= 0);
                    assert(nbrs_labeled(bg@, w as int, h as int, false, pre, q));
                    lemma_nb_in_range(w as int, h as int);
                    assert forall|k: int|
                        0 <= k < dirs(false) && #[trigger] nb(w as int, h as int, q, k) is Some && bg@[nb(
                            w as int,
                            h as int,
                            q,
                            k,
                        )->0] implies seeded[nb(w as int, h as int, q, k)->0] >= 0 by {
                        let q2 = nb(w as int, h as int, q, k)->0;
                        assert(pre[q2] >= 0);
                    }
                }
            }
            let res = flood(bg, w, h, false, &mut labels, stack, 0, Ghost(par), Ghost(rank), Ghost(tick));
            proof {
                let post = labels@;
                assert forall|q: int| 0 <= q < n implies (#[trigger] post[q] == 0 || post[q] == -1) by {
                    if seeded[q] >= 0 {
                        assert(post[q] == seeded[q]);
                    }
                }
                assert forall|q: int|
                    0 <= q < n && post[q] >= 0 && #[trigger] res@.0[q] == q implies on_border(w as int, h as int, q) by {
                    if seeded[q] >= 0 && q != p {
                        assert(res@.0[q] == par[q]);
                    }
                }
                par = res@.0;
                rank = res@.1;
                tick = res@.2;
            }
        }
        p += 1;
    }
    labels
}

/// Pixel `p` as `(x, y)`.
pub open spec fn pt(w: int, p: int) -> (usize, usize) {
    ((p % w) as usize, (p / w) as usize)
}

/// A component pixel on the outer border: some 8-neighbour is outside the
/// image or exterior background.
pub open spec fn on_outer(mask: Seq<u8>, w: int, h: int, ext: Seq<i32>, p: int) -> bool {
    exists|k: int|
        0 <= k < 8 && (#[trigger] nb(w, h, p, k) is None || (mask[nb(w, h, p, k)->0] == 0 && ext[nb(
            w,
            h,
            p,
            k,
        )->0] >= 0))
}

/// A component pixel on the border of hole `hc`: some 4-neighbour is a
/// background pixel of that hole.
pub open spec fn on_hole(mask: Seq<u8>, w: int, h: int, ext: Seq<i32>, hole: Seq<i32>, p: int, hc: int) -> bool {
    exists|k: int|
        0 <= k < 4 && #[trigger] nb(w, h, p, k) is Some && mask[nb(w, h, p, k)->0] == 0 && ext[nb(w, h, p, k)->0]
            < 0 && hole[nb(w, h, p, k)->0] == hc
}

/// Outer border points of component `c` among the first `n` pixels, in scan order.
pub open spec fn outer_pts(mask: Seq<u8>, w: int, h: int, comp: Seq<i32>, ext: Seq<i32>, c: int, n: int) -> Seq<(usize, usize)>
    decreases n,
{
    if n <= 0 {
        Seq::empty()
    } else {
        let s = outer_pts(mask, w, h, comp, ext, c, n - 1);
        if comp[n - 1] == c && on_outer(mask, w, h, ext, n - 1) {
            s.push(pt(w, n - 1))
        } else {
            s
        }
    }
}

/// Points of component `c` on the border of hole `hc` among the first `n` pixels.
pub open spec fn hole_pts(mask: Seq<u8>, w: int, h: int, comp: Seq<i32>, ext: Seq<i32>, hole: Seq<i32>, c: int, hc: int, n: int) -> Seq<(usize, usize)>
    decreases n,
{
    if n <= 0 {
        Seq::empty()
    } else {
        let s = hole_pts(mask, w, h, comp, ext, hole, c, hc, n - 1);
        if comp[n - 1] == c && on_hole(mask, w, h, ext, hole, n - 1, hc) {
            s.push(pt(w, n - 1))
        } else {
            s
        }
    }
}

/// `s` as a one-element list when it is not empty, else nothing.
pub open spec fn if_nonempty(s: Seq<(usize, usize)>) -> Seq<Seq<(usize, usize)>> {
    if s.len() > 0 {
        seq![s]
    } else {
        Seq::empty()
    }
}

/// The hole borders of component `c` for holes below `k`.
pub open spec fn hole_sets(mask: Seq<u8>, w: int, h: int, comp: Seq<i32>, ext: Seq<i32>, hole: Seq<i32>, c: int, k: int) -> Seq<Seq<(usize, usize)>>
    decreases k,
{
    if k <= 0 {
        Seq::empty()
    } else {
        hole_sets(mask, w, h, comp, ext, hole, c, k - 1) + if_nonempty(hole_pts(mask, w, h, comp, ext, hole, c, k - 1, w * h))
    }
}

/// All border sets of the components below `c`: per component its outer
/// border, then its hole borders in hole order (empty sets are skipped).
pub open spec fn border_sets(mask: Seq<u8>, w: int, h: int, comp: Seq<i32>, ext: Seq<i32>, hole: Seq<i32>, n_holes: int, c: int) -> Seq<Seq<(usize, usize)>>
    decreases c,
{
    if c <= 0 {
        Seq::empty()
    } else {
        border_sets(mask, w, h, comp, ext, hole, n_holes, c - 1) + if_nonempty(outer_pts(mask, w, h, comp, ext, c - 1, w * h))
            + hole_sets(mask, w, h, comp, ext, hole, c - 1, n_holes)
    }
}

fn check_outer(mask: &[u8], w: usize, h: usize, ext: &Vec<i32>, p: usize) -> (r: bool)
    requires
        0 < w,
        p < w * h,
        w * h <= mask@.len(),
        w * h <= usize::MAX,
        ext@.len() == w * h,
        nb_in_range(w as int, h as int),
    ensures
        r == on_outer(mask@, w as int, h as int, ext@, p as int),
{
    let mut k: usize = 0;
    while k < 8
        invariant
            0 < w,
            p < w * h,
            w * h <= mask@.len(),
            w * h <= usize::MAX,
            ext@.len() == w * h,
            nb_in_range(w as int, h as int),
            k <= 8,
            forall|j: int|
                0 <= j < k ==> !(#[trigger] nb(w as int, h as int, p as int, j) is None || (mask@[nb(
                    w as int,
                    h as int,
                    p as int,
                    j,
                )->0] == 0 && ext@[nb(w as int, h as int, p as int, j)->0] >= 0)),
        decreases 8 - k,
    {
        match neighbor(w, h, p, k) {
            None => {
                assert(nb(w as int, h as int, p as int, k as int) is None);
                return true;
            },
            Some(q) => {
                if mask[q] == 0 && ext[q] >= 0 {
                    assert(nb(w as int, h as int, p as int, k as int) == Some(q as int));
                    return true;
                }
            },
        }
        k += 1;
    }
    false
}

fn check_hole(mask: &[u8], w: usize, h: usize, ext: &Vec<i32>, hole: &Vec<i32>, p: usize, hc: i32) -> (r: bool)
    requires
        0 < w,
        p < w * h,
        w * h <= mask@.len(),
        w * h <= usize::MAX,
        ext@.len() == w * h,
        hole@.len() == w * h,
        nb_in_range(w as int, h as int),
    ensures
        r == on_hole(mask@, w as int, h as int, ext@, hole@, p as int, hc as int),
{
    let mut k: usize = 0;
    while k < 4
        invariant
            0 < w,
            p < w * h,
            w * h <= mask@.len(),
            w * h <= usize::MAX,
            ext@.len() == w * h,
            hole@.len() == w * h,
            nb_in_range(w as int, h as int),
            k <= 4,
            forall|j: int|
                0 <= j < k ==> !(#[trigger] nb(w as int, h as int, p as int, j) is Some && mask@[nb(
                    w as int,
                    h as int,
                    p as int,
                    j,
                )->0] == 0 && ext@[nb(w as int, h as int, p as int, j)->0] < 0 && hole@[nb(
                    w as int,
                    h as int,
                    p as int,
                    j,
                )->0] == hc),
        decreases 4 - k,
    {
        match neighbor(w, h, p, k) {
            None => {},
            Some(q) => {
                if mask[q] == 0 && ext[q] < 0 && hole[q] == hc {
                    assert(nb(w as int, h as int, p as int, k as int) == Some(q as int));
                    return true;
                }
            },
        }
        k += 1;
    }
    false
}


/// Foreground flags of the first `n` mask pixels (non-zero).
pub open spec fn fg_of(mask: Seq<u8>, n: int) -> Seq<bool> {
    Seq::new(n as nat, |p: int| mask[p] != 0)
}

/// Background flags of the first `n` mask pixels (zero).
pub open spec fn bg_of(mask: Seq<u8>, n: int) -> Seq<bool> {
    Seq::new(n as nat, |p: int| mask[p] == 0)
}

/// Hole pixels: background that is not exterior.
pub open spec fn hole_member(mask: Seq<u8>, ext: Seq<i32>, n: int) -> Seq<bool> {
    Seq::new(n as nat, |p: int| mask[p] == 0 && ext[p] < 0)
}

/// The three labelings of a mask: 8-connected foreground components,
/// exterior background, and 4-connected holes.
pub open spec fn border_labels_ok(mask: Seq<u8>, w: int, h: int, comp: Seq<i32>, n_comp: int, ext: Seq<i32>, hole: Seq<i32>, n_holes: int) -> bool {
    &&& components_ok(fg_of(mask, w * h), w, h, true, comp, n_comp)
    &&& exterior_ok(bg_of(mask, w * h), w, h, ext)
    &&& components_ok(hole_member(mask, ext, w * h), w, h, false, hole, n_holes)
}

/// The point sequences held by `v`.
pub open spec fn views(v: Seq<Vec<(usize, usize)>>) -> Seq<Seq<(usize, usize)>> {
    v.map_values(|x: Vec<(usize, usize)>| x@)
}

fn flags(mask: &[u8], n: usize, fg: bool) -> (f: Vec<bool>)
    requires
        n <= mask@.len(),
    ensures
        f@ == (if fg {
            fg_of(mask@, n as int)
        } else {
            bg_of(mask@, n as int)
        }),
{
    let mut f: Vec<bool> = Vec::new();
    let mut p: usize = 0;
    while p < n
        invariant
            p <= n,
            n <= mask@.len(),
            f@.len() == p,
            forall|q: int| 0 <= q < p ==> #[trigger] f@[q] == (if fg { mask@[q] != 0 } else { mask@[q] == 0 }),
        decreases n - p,
    {
        f.push(if fg { mask[p] != 0 } else { mask[p] == 0 });
        p += 1;
    }
    proof {
        if fg {
            assert(f@ =~= fg_of(mask@, n as int));
        } else {
            assert(f@ =~= bg_of(mask@, n as int));
        }
    }
    f
}

/// Border pixel sets of a `w` x `h` binary mask (non-zero = foreground):
/// for each 8-connected component in scan order of its first pixel, its
/// outer border (pixels with an 8-neighbour outside the image or in the
/// exterior background), then for each hole in scan order the component's
/// pixels 4-adjacent to it. Empty sets are left out; points are `(x, y)` in
/// scan order.
pub fn find_border_pixel_sets(mask: &[u8], w: usize, h: usize) -> (out: Vec<Vec<(usize, usize)>>)
    requires
        w * h <= mask@.len(),
        w * h <= i32::MAX,
    ensures
        w == 0 || h == 0 ==> out@.len() == 0,
        w > 0 && h > 0 ==> exists|comp: Seq<i32>, n_comp: int, ext: Seq<i32>, hole: Seq<i32>, n_holes: int|
            border_labels_ok(mask@, w as int, h as int, comp, n_comp, ext, hole, n_holes) && views(out@) == border_sets(
                mask@,
                w as int,
                h as int,
                comp,
                ext,
                hole,
                n_holes,
                n_comp,
            ),
{
    if w == 0 || h == 0 {
        return Vec::new();
    }
    let n = w * h;
    proof {
        lemma_nb_in_range(w as int, h as int);
    }
    let fg = flags(mask, n, true);
    let bg = flags(mask, n, false);
    let (comp, n_comp) = label_components(&fg, w, h, true);
    let ext = exterior(&bg, w, h);
    let mut hm: Vec<bool> = Vec::new();
    let mut p: usize = 0;
    while p < n
        invariant
            p <= n,
            n <= mask@.len(),
            ext@.len() == n,
            hm@.len() == p,
            forall|q: int| 0 <= q < p ==> #[trigger] hm@[q] == (mask@[q] == 0 && ext@[q] < 0),
        decreases n - p,
    {
        hm.push(mask[p] == 0 && ext[p] < 0);
        p += 1;
    }
    proof {
        assert(hm@ =~= hole_member(mask@, ext@, n as int));
    }
    let (hole, n_holes) = label_components(&hm, w, h, false);
    let ghost cs = comp@;
    let ghost es = ext@;
    let ghost hs = hole@;
    let mut out: Vec<Vec<(usize, usize)>> = Vec::new();
    let mut c: i32 = 0;
    proof {
        assert(views(out@) =~= border_sets(mask@, w as int, h as int, cs, es, hs, n_holes as int, 0));
    }
    while c < n_comp
        invariant
            0 < w,
            n == w * h,
            n <= mask@.len(),
            n <= i32::MAX,
            nb_in_range(w as int, h as int),
            cs == comp@,
            es == ext@,
            hs == hole@,
            comp@.len() == n,
            ext@.len() == n,
            hole@.len() == n,
            0 <= c <= n_comp,
            n_holes >= 0,
            views(out@) == border_sets(mask@, w as int, h as int, cs, es, hs, n_holes as int, c as int),
        decreases n_comp - c,
    {
        let mut pts: Vec<(usize, usize)> = Vec::new();
        let mut q: usize = 0;
        while q < n
            invariant
                0 < w,
                n == w * h,
                n <= mask@.len(),
                n <= i32::MAX,
                nb_in_range(w as int, h as int),
                comp@.len() == n,
                ext@.len() == n,
                q <= n,
                pts@ == outer_pts(mask@, w as int, h as int, comp@, ext@, c as int, q as int),
            decreases n - q,
        {
            if comp[q] == c && check_outer(mask, w, h, &ext, q) {
                pts.push((q % w, q / w));
            }
            q += 1;
        }
        let ghost before = out@;
        if pts.len() > 0 {
            out.push(pts);
        }
        proof {
            let o = outer_pts(mask@, w as int, h as int, cs, es, c as int, n as int);
            assert(views(out@) =~= views(before) + if_nonempty(o));
        }
        let mut hc: i32 = 0;
        while hc < n_holes
            invariant
                0 < w,
                n == w * h,
                n <= mask@.len(),
                n <= i32::MAX,
                nb_in_range(w as int, h as int),
                cs == comp@,
                es == ext@,
                hs == hole@,
                comp@.len() == n,
                ext@.len() == n,
                hole@.len() == n,
                0 <= hc <= n_holes,
                views(out@) == border_sets(mask@, w as int, h as int, cs, es, hs, n_holes as int, c as int) + if_nonempty(
                    outer_pts(mask@, w as int, h as int, cs, es, c as int, n as int),
                ) + hole_sets(mask@, w as int, h as int, cs, es, hs, c as int, hc as int),
            decreases n_holes - hc,
        {
            let mut hp: Vec<(usize, usize)> = Vec::new();
            let mut q: usize = 0;
            while q < n
                invariant
                    0 < w,
                    n == w * h,
                    n <= mask@.len(),
                    n <= i32::MAX,
                    nb_in_range(w as int, h as int),
                    comp@.len() == n,
                    ext@.len() == n,
                    hole@.len() == n,
                    q <= n,
                    hp@ == hole_pts(mask@, w as int, h as int, comp@, ext@, hole@, c as int, hc as int, q as int),
                decreases n - q,
            {
                if comp[q] == c && check_hole(mask, w, h, &ext, &hole, q, hc) {
                    hp.push((q % w, q / w));
                }
                q += 1;
            }
            let ghost before2 = out@;
            if hp.len() > 0 {
                out.push(hp);
            }
            proof {
                let o = hole_pts(mask@, w as int, h as int, cs, es, hs, c as int, hc as int, n as int);
                assert(views(out@) =~= views(before2) + if_nonempty(o));
            }
            hc += 1;
        }
        c += 1;
    }
    proof {
        assert(border_labels_ok(mask@, w as int, h as int, cs, n_comp as int, es, hs, n_holes as int));
    }
    out
}

/// The pixel at offset `(dx, dy)` from `p` lies outside the `w` x `h` image,
/// or is background (mask 0) marked exterior.
pub open spec fn exterior_at(mask: Seq<u8>, w: int, h: int, ext: Seq<i32>, p: int, dx: int, dy: int) -> bool {
    let x = p % w + dx;
    let y = p / w + dy;
    !(0 <= x < w && 0 <= y < h) || (mask[y * w + x] == 0 && ext[y * w + x] >= 0)
}

/// Law: a pixel is on the outer border exactly when one of its eight
/// neighbours (diagonals included) lies outside the image or is exterior
/// background. Here the neighbour at offset `(dx, dy)`, both in -1..=1 and
/// not both 0, is such a neighbour, so the pixel is on the outer border.
pub proof fn lemma_outer_border_any_8_neighbour(mask: Seq<u8>, w: int, h: int, ext: Seq<i32>, p: int, dx: int, dy: int)
    requires
        0 < w,
        0 <= p < w * h,
        -1 <= dx <= 1,
        -1 <= dy <= 1,
        dx != 0 || dy != 0,
        exterior_at(mask, w, h, ext, p, dx, dy),
    ensures
        on_outer(mask, w, h, ext, p),
{
    let k: int = if dx == 1 && dy == 0 {
        0
    } else if dx == -1 && dy == 0 {
        1
    } else if dx == 0 && dy == 1 {
        2
    } else if dx == 0 && dy == -1 {
        3
    } else if dx == 1 && dy == 1 {
        4
    } else if dx == -1 && dy == 1 {
        5
    } else if dx == 1 && dy == -1 {
        6
    } else {
        7
    };
    assert(step_dx(k) == dx && step_dy(k) == dy);
    assert(0 <= k < 8);
    assert(nb(w, h, p, k) is None || (mask[nb(w, h, p, k)->0] == 0 && ext[nb(w, h, p, k)->0] >= 0));
}

/// Law, converse: a pixel on the outer border has a neighbour at some
/// offset `(dx, dy)` in -1..=1 (not both 0) that lies outside the image or
/// is exterior background.
pub proof fn lemma_outer_border_has_exterior_neighbour(mask: Seq<u8>, w: int, h: int, ext: Seq<i32>, p: int)
    requires
        0 < w,
        0 <= p < w * h,
        on_outer(mask, w, h, ext, p),
    ensures
        exists|dx: int, dy: int|
            -1 <= dx <= 1 && -1 <= dy <= 1 && (dx != 0 || dy != 0) && #[trigger] exterior_at(mask, w, h, ext, p, dx, dy),
{
    let k = choose|k: int|
        0 <= k < 8 && (#[trigger] nb(w, h, p, k) is None || (mask[nb(w, h, p, k)->0] == 0 && ext[nb(
            w,
            h,
            p,
            k,
        )->0] >= 0));
    let dx = step_dx(k);
    let dy = step_dy(k);
    assert(-1 <= dx <= 1 && -1 <= dy <= 1 && (dx != 0 || dy != 0));
    assert(exterior_at(mask, w, h, ext, p, dx, dy));
}

proof fn lemma_outer_pts_contains(mask: Seq<u8>, w: int, h: int, comp: Seq<i32>, ext: Seq<i32>, c: int, p: int, n: int)
    requires
        0 <= p < n,
        comp[p] == c,
        on_outer(mask, w, h, ext, p),
    ensures
        outer_pts(mask, w, h, comp, ext, c, n).contains(pt(w, p)),
    decreases n,
{
    let s = outer_pts(mask, w, h, comp, ext, c, n - 1);
    if p == n - 1 {
        assert(outer_pts(mask, w, h, comp, ext, c, n) == s.push(pt(w, p)));
        assert(s.push(pt(w, p))[s.len() as int] == pt(w, p));
    } else {
        lemma_outer_pts_contains(mask, w, h, comp, ext, c, p, n - 1);
        let i = choose|i: int| 0 <= i < s.len() && s[i] == pt(w, p);
        if comp[n - 1] == c && on_outer(mask, w, h, ext, n - 1) {
            assert(s.push(pt(w, n - 1))[i] == pt(w, p));
        }
    }
}

/// Law: a pixel of component `c` with an exterior or out-of-image
/// neighbour at any of the eight offsets (a diagonal one included) is in the
/// outer border set of `c`.
pub proof fn lemma_outer_set_takes_diagonal_exterior(
    mask: Seq<u8>,
    w: int,
    h: int,
    comp: Seq<i32>,
    ext: Seq<i32>,
    c: int,
    p: int,
    dx: int,
    dy: int,
)
    requires
        0 < w,
        0 <= p < w * h,
        comp[p] == c,
        -1 <= dx <= 1,
        -1 <= dy <= 1,
        dx != 0 || dy != 0,
        exterior_at(mask, w, h, ext, p, dx, dy),
    ensures
        outer_pts(mask, w, h, comp, ext, c, w * h).contains(pt(w, p)),
{
    lemma_outer_border_any_8_neighbour(mask, w, h, ext, p, dx, dy);
    lemma_outer_pts_contains(mask, w, h, comp, ext, c, p, w * h);
}

/// The pixel at offset `(dx, dy)` from `p` is inside the image and a
/// background pixel of hole `hc` (not exterior).
pub open spec fn hole_at(mask: Seq<u8>, w: int, h: int, ext: Seq<i32>, hole: Seq<i32>, p: int, dx: int, dy: int, hc: int) -> bool {
    let x = p % w + dx;
    let y = p / w + dy;
    0 <= x < w && 0 <= y < h && mask[y * w + x] == 0 && ext[y * w + x] < 0 && hole[y * w + x] == hc
}

/// Law: a pixel borders hole `hc` exactly when a pixel of that hole is one
/// of its four side neighbours (left, right, up, down); a hole pixel that
/// touches it only diagonally does not count.
pub proof fn lemma_hole_border_side_neighbours(mask: Seq<u8>, w: int, h: int, ext: Seq<i32>, hole: Seq<i32>, p: int, hc: int)
    requires
        0 < w,
        0 <= p < w * h,
    ensures
        on_hole(mask, w, h, ext, hole, p, hc) <==> (hole_at(mask, w, h, ext, hole, p, 1, 0, hc) || hole_at(
            mask,
            w,
            h,
            ext,
            hole,
            p,
            -1,
            0,
            hc,
        ) || hole_at(mask, w, h, ext, hole, p, 0, 1, hc) || hole_at(mask, w, h, ext, hole, p, 0, -1, hc)),
{
    if on_hole(mask, w, h, ext, hole, p, hc) {
        let k = choose|k: int|
            0 <= k < 4 && #[trigger] nb(w, h, p, k) is Some && mask[nb(w, h, p, k)->0] == 0 && ext[nb(w, h, p, k)->0]
                < 0 && hole[nb(w, h, p, k)->0] == hc;
        assert(hole_at(mask, w, h, ext, hole, p, step_dx(k), step_dy(k), hc));
    }
    if hole_at(mask, w, h, ext, hole, p, 1, 0, hc) {
        assert(nb(w, h, p, 0) is Some);
    }
    if hole_at(mask, w, h, ext, hole, p, -1, 0, hc) {
        assert(nb(w, h, p, 1) is Some);
    }
    if hole_at(mask, w, h, ext, hole, p, 0, 1, hc) {
        assert(nb(w, h, p, 2) is Some);
    }
    if hole_at(mask, w, h, ext, hole, p, 0, -1, hc) {
        assert(nb(w, h, p, 3) is Some);
    }
}

} // verus!

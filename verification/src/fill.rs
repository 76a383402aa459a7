//! Flood-fill planning: which pixels a fill from a seed point colours, the
//! tiles those pixels fall in, and the rectangle to repaint.
//!
//! The canvas is given as one RGBA8 colour per pixel, row-major. The fill
//! spreads from the seed through 4-neighbours whose colour is within a
//! tolerance of the seed's, breadth first, and stops after
//! `FILL_LIMIT` pixels.

use vstd::prelude::*;
use crate::host::{rect_fits, rect_union, union, Rect};

verus! {

/// The most pixels one fill colours.
pub const FILL_LIMIT: u32 = 4000000;

/// Edge length of a square tile, in pixels.
pub const FILL_TILE_SIZE: u32 = 64;

/// Whether `p` lies on a `w` by `h` canvas.
pub open spec fn in_canvas(w: u32, h: u32, p: (u32, u32)) -> bool {
    p.0 < w && p.1 < h
}

/// The row-major index of pixel `p` on a canvas `w` pixels wide.
pub open spec fn pixel_index(w: u32, p: (u32, u32)) -> int {
    p.1 * w + p.0
}

/// Two channel values differ by at most 2.
pub open spec fn close(a: u8, b: u8) -> bool {
    -2 <= a - b <= 2
}

/// Two colours agree within the fill tolerance in every channel.
pub open spec fn colours_close(a: [u8; 4], b: [u8; 4]) -> bool {
    close(a[0], b[0]) && close(a[1], b[1]) && close(a[2], b[2]) && close(a[3], b[3])
}

/// 4-neighbours: the pixels differ by one step along exactly one axis.
pub open spec fn adjacent(p: (u32, u32), q: (u32, u32)) -> bool {
    (p.1 == q.1 && (p.0 + 1 == q.0 || q.0 + 1 == p.0)) || (p.0 == q.0 && (p.1 + 1 == q.1 || q.1 + 1
        == p.1))
}

/// `s` clamped to the last valid coordinate below `n` (0 when `n` is 0).
pub open spec fn clamp_below(s: u32, n: u32) -> u32 {
    if n == 0 {
        0
    } else if s < n {
        s
    } else {
        (n - 1) as u32
    }
}

/// The pixel a fill requested at `(sx, sy)` starts from.
pub open spec fn fill_seed(w: u32, h: u32, sx: u32, sy: u32) -> (u32, u32) {
    (clamp_below(sx, w), clamp_below(sy, h))
}

/// `p` is on the canvas and its colour is within tolerance of the seed's.
#[verifier::opaque]
pub open spec fn fillable(w: u32, h: u32, colours: Seq<[u8; 4]>, seed: (u32, u32), p: (u32, u32)) -> bool {
    in_canvas(w, h, p) && colours_close(colours[pixel_index(w, p)], colours[pixel_index(w, seed)])
}

/// No pixel occurs twice.
pub open spec fn no_repeats(s: Seq<(u32, u32)>) -> bool {
    forall|i: int, j: int| 0 <= i < j < s.len() ==> s[i] != s[j]
}

/// Whether two colours agree within the fill tolerance.
pub fn colours_match(a: [u8; 4], b: [u8; 4]) -> (r: bool)
    ensures
        r == colours_close(a, b),
{
    close_exec(a[0], b[0]) && close_exec(a[1], b[1]) && close_exec(a[2], b[2]) && close_exec(
        a[3],
        b[3],
    )
}

fn close_exec(a: u8, b: u8) -> (r: bool)
    ensures
        r == close(a, b),
{
    if a >= b {
        a - b <= 2
    } else {
        b - a <= 2
    }
}

/// How many entries are `true`.
pub open spec fn count_true(s: Seq<bool>) -> nat
    decreases s.len(),
{
    if s.len() == 0 {
        0
    } else {
        count_true(s.drop_last()) + if s.last() {
            1nat
        } else {
            0nat
        }
    }
}

proof fn lemma_count_true_le(s: Seq<bool>)
    ensures
        count_true(s) <= s.len(),
    decreases s.len(),
{
    if s.len() > 0 {
        lemma_count_true_le(s.drop_last());
    }
}

proof fn lemma_count_true_set(s: Seq<bool>, i: int)
    requires
        0 <= i < s.len(),
        !s[i],
    ensures
        count_true(s.update(i, true)) == count_true(s) + 1,
    decreases s.len(),
{
    let t = s.update(i, true);
    if i == s.len() - 1 {
        assert(t.drop_last() =~= s.drop_last());
    } else {
        lemma_count_true_set(s.drop_last(), i);
        assert(t.drop_last() =~= s.drop_last().update(i, true));
    }
}

proof fn lemma_count_true_none(s: Seq<bool>)
    requires
        forall|k: int| 0 <= k < s.len() ==> !s[k],
    ensures
        count_true(s) == 0,
    decreases s.len(),
{
    if s.len() > 0 {
        lemma_count_true_none(s.drop_last());
    }
}

/// `b` is `a` followed by zero or more further pixels.
pub open spec fn extends(a: Seq<(u32, u32)>, b: Seq<(u32, u32)>) -> bool {
    a.len() <= b.len() && forall|k: int| 0 <= k < a.len() ==> #[trigger] b[k] == a[k]
}

proof fn lemma_index_bound(w: u32, h: u32, p: (u32, u32))
    requires
        in_canvas(w, h, p),
    ensures
        0 <= pixel_index(w, p) < w * h,
{
    let x = p.0 as int;
    let y = p.1 as int;
    let wi = w as int;
    let hi = h as int;
    assert(0 <= y * wi + x < wi * hi) by (nonlinear_arith)
        requires
            0 <= x < wi,
            0 <= y < hi,
    ;
}

proof fn lemma_index_injective(w: u32, h: u32, p: (u32, u32), q: (u32, u32))
    requires
        in_canvas(w, h, p),
        in_canvas(w, h, q),
        pixel_index(w, p) == pixel_index(w, q),
    ensures
        p == q,
{
    let (px, py, qx, qy, wi) = (p.0 as int, p.1 as int, q.0 as int, q.1 as int, w as int);
    assert(py == qy) by (nonlinear_arith)
        requires
            0 <= px < wi,
            0 <= qx < wi,
            0 <= py,
            0 <= qy,
            py * wi + px == qy * wi + qx,
    {
        if py < qy {
            assert(py * wi + wi <= qy * wi);
        } else if qy < py {
            assert(qy * wi + wi <= py * wi);
        }
    }
}

/// The queue's bookkeeping: every queued pixel after the first is on the
/// canvas, none repeats, and `visited` marks exactly the queued pixels.
pub open spec fn queue_ok(w: u32, h: u32, q: Seq<(u32, u32)>, vis: Seq<bool>) -> bool {
    &&& vis.len() == w * h
    &&& no_repeats(q)
    &&& forall|k: int| 0 < k < q.len() ==> in_canvas(w, h, #[trigger] q[k])
    &&& forall|p: (u32, u32)|
        in_canvas(w, h, p) ==> (vis[pixel_index(w, p)] <==> #[trigger] q.contains(p))
}

fn pixel_offset(w: u32, h: u32, p: (u32, u32)) -> (i: usize)
    requires
        in_canvas(w, h, p),
        w * h <= usize::MAX,
    ensures
        i as int == pixel_index(w, p),
        i < w * h,
{
    proof {
        lemma_index_bound(w, h, p);
        assert(p.1 * w <= w * h) by (nonlinear_arith)
            requires
                p.1 < h,
        ;
    }
    (p.1 as usize) * (w as usize) + (p.0 as usize)
}

fn visit(queue: &mut Vec<(u32, u32)>, visited: &mut Vec<bool>, w: u32, h: u32, n: (u32, u32))
    requires
        queue_ok(w, h, old(queue)@, old(visited)@),
        w * h <= usize::MAX,
    ensures
        queue_ok(w, h, final(queue)@, final(visited)@),
        in_canvas(w, h, n) ==> final(queue)@.contains(n),
        (final(queue)@ == old(queue)@ && final(visited)@ == old(visited)@) || (final(queue)@ == old(
            queue,
        )@.push(n) && count_true(final(visited)@) == count_true(old(visited)@) + 1),
        extends(old(queue)@, final(queue)@),
{
    if n.0 < w && n.1 < h {
        let i = pixel_offset(w, h, n);
        if !visited[i] {
            proof {
                lemma_count_true_set(visited@, i as int);
                assert(!queue@.contains(n));
            }
            let ghost q0 = queue@;
            let ghost v0 = visited@;
            visited.set(i, true);
            queue.push(n);
            proof {
                assert(queue@.last() == n);
                assert forall|a: int, b: int| 0 <= a < b < queue@.len() implies queue@[a] != queue@[b] by {
                    if b == queue@.len() - 1 {
                        assert(q0.contains(queue@[a]) ==> queue@[a] != n);
                        assert(q0[a] == queue@[a]);
                    } else {
                        assert(q0[a] == queue@[a] && q0[b] == queue@[b]);
                    }
                }
                assert forall|k: int| 0 < k < queue@.len() implies in_canvas(w, h, #[trigger] queue@[k]) by {
                    if k < q0.len() {
                        assert(q0[k] == queue@[k]);
                    }
                }
                assert forall|p: (u32, u32)| in_canvas(w, h, p) implies (visited@[pixel_index(w, p)]
                    <==> #[trigger] queue@.contains(p)) by {
                    lemma_index_bound(w, h, p);
                    if pixel_index(w, p) == i {
                        lemma_index_injective(w, h, p, n);
                        assert(queue@[queue@.len() - 1] == p);
                    } else {
                        assert(visited@[pixel_index(w, p)] == v0[pixel_index(w, p)]);
                        if q0.contains(p) {
                            let k = choose|k: int| 0 <= k < q0.len() && q0[k] == p;
                            assert(queue@[k] == p);
                        }
                        if queue@.contains(p) {
                            let k = choose|k: int| 0 <= k < queue@.len() && queue@[k] == p;
                            if k == q0.len() {
                                assert(p == n);
                            } else {
                                assert(q0[k] == p);
                            }
                        }
                    }
                }
            }
        } else {
            proof {
                lemma_index_bound(w, h, n);
            }
        }
    }
}

/// Whether the `k`-th queued pixel is filled when it is reached: the seed
/// always, any other pixel when it is fillable.
pub open spec fn matched(w: u32, h: u32, colours: Seq<[u8; 4]>, q: Seq<(u32, u32)>, k: int) -> bool {
    k == 0 || fillable(w, h, colours, q[0], q[k])
}

/// Every in-canvas 4-neighbour of `p` has been queued.
pub open spec fn neighbours_queued(w: u32, h: u32, q: Seq<(u32, u32)>, p: (u32, u32)) -> bool {
    forall|n: (u32, u32)| in_canvas(w, h, n) && adjacent(p, n) ==> #[trigger] q.contains(n)
}

/// The `k`-th queued pixel was queued as a neighbour of a pixel filled
/// among the first `hd` taken.
pub open spec fn src_ok(w: u32, h: u32, c: Seq<[u8; 4]>, q: Seq<(u32, u32)>, hd: int, k: int) -> bool {
    exists|j: int| 0 <= j < hd && j < k && matched(w, h, c, q, j) && adjacent(q[j], q[k])
}

/// The `i`-th filled pixel is a filled entry among the first `hd` taken.
pub open spec fn origin_ok(w: u32, h: u32, c: Seq<[u8; 4]>, q: Seq<(u32, u32)>, hd: int, f: Seq<(u32, u32)>, i: int) -> bool {
    exists|k: int| 0 <= k < hd && q[k] == f[i] && matched(w, h, c, q, k)
}

/// If the `k`-th queued pixel is filled, it is recorded in `f`.
pub open spec fn recorded(w: u32, h: u32, c: Seq<[u8; 4]>, q: Seq<(u32, u32)>, k: int, f: Seq<(u32, u32)>) -> bool {
    matched(w, h, c, q, k) ==> f.contains(q[k])
}

/// If the `k`-th queued pixel is filled, its neighbours are queued.
pub open spec fn expanded(w: u32, h: u32, c: Seq<[u8; 4]>, q: Seq<(u32, u32)>, k: int) -> bool {
    matched(w, h, c, q, k) ==> neighbours_queued(w, h, q, q[k])
}

/// The `i`-th pixel of `f` is a 4-neighbour of an earlier one.
pub open spec fn next_to_earlier(f: Seq<(u32, u32)>, i: int) -> bool {
    exists|j: int| 0 <= j < i && adjacent(f[j], f[i])
}

/// The `i`-th filled pixel is fillable and next to an earlier one.
pub open spec fn reached(w: u32, h: u32, c: Seq<[u8; 4]>, seed: (u32, u32), f: Seq<(u32, u32)>, i: int) -> bool {
    fillable(w, h, c, seed, f[i]) && next_to_earlier(f, i)
}

/// The search's bookkeeping after `hd` queue entries have been taken:
/// where queued pixels came from, which of them were filled, and that
/// the filled ones have had their neighbours queued.
pub open spec fn bfs_inv(w: u32, h: u32, c: Seq<[u8; 4]>, q: Seq<(u32, u32)>, hd: int, f: Seq<(u32, u32)>) -> bool {
    &&& forall|k: int| 0 < k < q.len() ==> #[trigger] src_ok(w, h, c, q, hd, k)
    &&& forall|i: int| 0 <= i < f.len() ==> #[trigger] origin_ok(w, h, c, q, hd, f, i)
    &&& forall|k: int| 0 <= k < hd ==> #[trigger] recorded(w, h, c, q, k, f)
    &&& forall|k: int| 0 <= k < hd ==> #[trigger] expanded(w, h, c, q, k)
    &&& forall|i: int| 0 < i < f.len() ==> #[trigger] reached(w, h, c, q[0], f, i)
    &&& no_repeats(f)
}

proof fn lemma_four_visits(
    w: u32,
    h: u32,
    p: (u32, u32),
    q0: Seq<(u32, u32)>,
    a1: Seq<(u32, u32)>,
    a2: Seq<(u32, u32)>,
    a3: Seq<(u32, u32)>,
    q1: Seq<(u32, u32)>,
)
    requires
        p.0 > 0 ==> (a1 == q0 || a1 == q0.push(((p.0 - 1) as u32, p.1))) && (in_canvas(
            w,
            h,
            ((p.0 - 1) as u32, p.1),
        ) ==> a1.contains(((p.0 - 1) as u32, p.1))),
        p.0 == 0 ==> a1 == q0,
        p.0 < u32::MAX ==> (a2 == a1 || a2 == a1.push(((p.0 + 1) as u32, p.1))) && (in_canvas(
            w,
            h,
            ((p.0 + 1) as u32, p.1),
        ) ==> a2.contains(((p.0 + 1) as u32, p.1))),
        p.0 == u32::MAX ==> a2 == a1,
        p.1 > 0 ==> (a3 == a2 || a3 == a2.push((p.0, (p.1 - 1) as u32))) && (in_canvas(
            w,
            h,
            (p.0, (p.1 - 1) as u32),
        ) ==> a3.contains((p.0, (p.1 - 1) as u32))),
        p.1 == 0 ==> a3 == a2,
        p.1 < u32::MAX ==> (q1 == a3 || q1 == a3.push((p.0, (p.1 + 1) as u32))) && (in_canvas(
            w,
            h,
            (p.0, (p.1 + 1) as u32),
        ) ==> q1.contains((p.0, (p.1 + 1) as u32))),
        p.1 == u32::MAX ==> q1 == a3,
    ensures
        extends(q0, q1),
        forall|k: int| q0.len() <= k < q1.len() ==> adjacent(p, #[trigger] q1[k]),
        neighbours_queued(w, h, q1, p),
{
    assert(extends(q0, a1));
    assert(extends(a1, a2));
    assert(extends(a2, a3));
    assert(extends(a3, q1));
    assert(extends(q0, q1)) by {
        assert forall|k: int| 0 <= k < q0.len() implies #[trigger] q1[k] == q0[k] by {
            assert(a1[k] == q0[k]);
            assert(a2[k] == a1[k]);
            assert(a3[k] == a2[k]);
        }
    }
    assert forall|k: int| q0.len() <= k < q1.len() implies adjacent(p, #[trigger] q1[k]) by {
        if k < a1.len() {
            assert(q1[k] == a1[k]) by {
                assert(a2[k] == a1[k]);
                assert(a3[k] == a2[k]);
            }
        } else if k < a2.len() {
            assert(q1[k] == a2[k]) by {
                assert(a3[k] == a2[k]);
            }
        } else if k < a3.len() {
            assert(q1[k] == a3[k]);
        }
    }
    assert forall|n: (u32, u32)| in_canvas(w, h, n) && adjacent(p, n) implies #[trigger] q1.contains(n) by {
        if p.0 > 0 && n == ((p.0 - 1) as u32, p.1) {
            let k = choose|k: int| 0 <= k < a1.len() && a1[k] == n;
            assert(a2[k] == a1[k]);
            assert(a3[k] == a2[k]);
            assert(q1[k] == a3[k]);
        } else if p.0 < u32::MAX && n == ((p.0 + 1) as u32, p.1) {
            let k = choose|k: int| 0 <= k < a2.len() && a2[k] == n;
            assert(a3[k] == a2[k]);
            assert(q1[k] == a3[k]);
        } else if p.1 > 0 && n == (p.0, (p.1 - 1) as u32) {
            let k = choose|k: int| 0 <= k < a3.len() && a3[k] == n;
            assert(q1[k] == a3[k]);
        }
    }
}

proof fn lemma_step_filled(
    w: u32,
    h: u32,
    c: Seq<[u8; 4]>,
    q0: Seq<(u32, u32)>,
    q1: Seq<(u32, u32)>,
    hd: int,
    f0: Seq<(u32, u32)>,
    p: (u32, u32),
)
    requires
        bfs_inv(w, h, c, q0, hd, f0),
        0 <= hd < q0.len(),
        p == q0[hd],
        matched(w, h, c, q0, hd),
        no_repeats(q0),
        hd == 0 <==> f0.len() == 0,
        extends(q0, q1),
        forall|k: int| q0.len() <= k < q1.len() ==> adjacent(p, #[trigger] q1[k]),
        neighbours_queued(w, h, q1, p),
    ensures
        bfs_inv(w, h, c, q1, hd + 1, f0.push(p)),
{
    let f1 = f0.push(p);
    assert(q1[0] == q0[0]);
    assert(!f0.contains(p)) by {
        if f0.contains(p) {
            let i = choose|i: int| 0 <= i < f0.len() && f0[i] == p;
            assert(origin_ok(w, h, c, q0, hd, f0, i));
        }
    }
    assert forall|k: int| 0 < k < q1.len() implies #[trigger] src_ok(w, h, c, q1, hd + 1, k) by {
        if k < q0.len() {
            assert(src_ok(w, h, c, q0, hd, k));
            let j = choose|j: int| 0 <= j < hd && j < k && matched(w, h, c, q0, j) && adjacent(q0[j], q0[k]);
            assert(q1[j] == q0[j] && q1[k] == q0[k]);
            assert(matched(w, h, c, q1, j));
        } else {
            assert(q1[hd] == p);
            assert(matched(w, h, c, q1, hd));
        }
    }
    assert forall|i: int| 0 <= i < f1.len() implies #[trigger] origin_ok(w, h, c, q1, hd + 1, f1, i) by {
        if i < f0.len() {
            assert(origin_ok(w, h, c, q0, hd, f0, i));
            let k = choose|k: int| 0 <= k < hd && q0[k] == f0[i] && matched(w, h, c, q0, k);
            assert(q1[k] == q0[k] && f1[i] == f0[i]);
            assert(matched(w, h, c, q1, k));
        } else {
            assert(q1[hd] == q0[hd]);
            assert(matched(w, h, c, q1, hd));
        }
    }
    assert forall|k: int| 0 <= k < hd + 1 implies #[trigger] recorded(w, h, c, q1, k, f1) by {
        assert(q1[k] == q0[k]);
        if k < hd {
            assert(recorded(w, h, c, q0, k, f0));
            if matched(w, h, c, q1, k) {
                assert(matched(w, h, c, q0, k));
                let m = choose|m: int| 0 <= m < f0.len() && f0[m] == q0[k];
                assert(f1[m] == f0[m]);
            }
        } else {
            assert(f1[f0.len() as int] == p);
        }
    }
    assert forall|k: int| 0 <= k < hd + 1 implies #[trigger] expanded(w, h, c, q1, k) by {
        assert(q1[k] == q0[k]);
        if k < hd && matched(w, h, c, q1, k) {
            assert(matched(w, h, c, q0, k));
            assert(expanded(w, h, c, q0, k));
            assert forall|n: (u32, u32)| in_canvas(w, h, n) && adjacent(q1[k], n) implies #[trigger] q1.contains(n) by {
                assert(q0.contains(n));
                let m = choose|m: int| 0 <= m < q0.len() && q0[m] == n;
                assert(q1[m] == q0[m]);
            }
        }
    }
    assert forall|i: int| 0 < i < f1.len() implies #[trigger] reached(w, h, c, q1[0], f1, i) by {
        if i < f0.len() {
            assert(reached(w, h, c, q0[0], f0, i));
            assert(f1[i] == f0[i]);
            let j = choose|j: int| 0 <= j < i && adjacent(f0[j], f0[i]);
            assert(f1[j] == f0[j]);
        } else {
            assert(f1[i] == p);
            assert(hd > 0);
            assert(src_ok(w, h, c, q0, hd, hd));
            let j = choose|j: int| 0 <= j < hd && j < hd && matched(w, h, c, q0, j) && adjacent(q0[j], q0[hd]);
            assert(recorded(w, h, c, q0, j, f0));
            let m = choose|m: int| 0 <= m < f0.len() && f0[m] == q0[j];
            assert(f1[m] == f0[m]);
        }
    }
    assert forall|a: int, b: int| 0 <= a < b < f1.len() implies f1[a] != f1[b] by {
        if b == f0.len() {
            assert(f0[a] == f1[a]);
            assert(f0.contains(f0[a]));
        } else {
            assert(f0[a] == f1[a] && f0[b] == f1[b]);
        }
    }
}

proof fn lemma_step_skipped(w: u32, h: u32, c: Seq<[u8; 4]>, q: Seq<(u32, u32)>, hd: int, f: Seq<(u32, u32)>)
    requires
        bfs_inv(w, h, c, q, hd, f),
        0 <= hd < q.len(),
        !matched(w, h, c, q, hd),
    ensures
        bfs_inv(w, h, c, q, hd + 1, f),
{
    assert forall|k: int| 0 < k < q.len() implies #[trigger] src_ok(w, h, c, q, hd + 1, k) by {
        assert(src_ok(w, h, c, q, hd, k));
    }
    assert forall|i: int| 0 <= i < f.len() implies #[trigger] origin_ok(w, h, c, q, hd + 1, f, i) by {
        assert(origin_ok(w, h, c, q, hd, f, i));
    }
    assert forall|k: int| 0 <= k < hd + 1 implies #[trigger] recorded(w, h, c, q, k, f) by {
        if k < hd {
            assert(recorded(w, h, c, q, k, f));
        }
    }
    assert forall|k: int| 0 <= k < hd + 1 implies #[trigger] expanded(w, h, c, q, k) by {
        if k < hd {
            assert(expanded(w, h, c, q, k));
        }
    }
}

proof fn lemma_bfs_closed(w: u32, h: u32, c: Seq<[u8; 4]>, q: Seq<(u32, u32)>, f: Seq<(u32, u32)>)
    requires
        bfs_inv(w, h, c, q, q.len() as int, f),
    ensures
        forall|i: int, n: (u32, u32)|
            0 <= i < f.len() && adjacent(#[trigger] f[i], n) && fillable(w, h, c, q[0], n)
                ==> #[trigger] f.contains(n),
{
    assert forall|i: int, n: (u32, u32)|
        0 <= i < f.len() && adjacent(#[trigger] f[i], n) && fillable(w, h, c, q[0], n)
        implies #[trigger] f.contains(n) by {
        reveal(fillable);
        assert(origin_ok(w, h, c, q, q.len() as int, f, i));
        let k = choose|k: int| 0 <= k < q.len() && q[k] == f[i] && matched(w, h, c, q, k);
        assert(expanded(w, h, c, q, k));
        assert(q.contains(n));
        let m = choose|m: int| 0 <= m < q.len() && q[m] == n;
        assert(matched(w, h, c, q, m));
        assert(recorded(w, h, c, q, m, f));
    }
}

/// `path` starts at the seed and steps through fillable 4-neighbours.
pub open spec fn fill_path(w: u32, h: u32, c: Seq<[u8; 4]>, seed: (u32, u32), path: Seq<(u32, u32)>) -> bool {
    &&& path.len() >= 1
    &&& path[0] == seed
    &&& forall|i: int|
        0 < i < path.len() ==> fillable(w, h, c, seed, #[trigger] path[i]) && adjacent(path[i - 1], path[i])
}

/// `p` can be reached from the seed through fillable 4-neighbours.
pub open spec fn connected(w: u32, h: u32, c: Seq<[u8; 4]>, seed: (u32, u32), p: (u32, u32)) -> bool {
    exists|path: Seq<(u32, u32)>| fill_path(w, h, c, seed, path) && path.last() == p
}

proof fn lemma_path_to(w: u32, h: u32, c: Seq<[u8; 4]>, seed: (u32, u32), f: Seq<(u32, u32)>, i: int) -> (path: Seq<(u32, u32)>)
    requires
        f.len() >= 1,
        f[0] == seed,
        0 <= i < f.len(),
        forall|k: int| 0 < k < f.len() ==> #[trigger] reached(w, h, c, seed, f, k),
    ensures
        fill_path(w, h, c, seed, path),
        path.last() == f[i],
    decreases i,
{
    if i == 0 {
        let path = seq![seed];
        path
    } else {
        assert(reached(w, h, c, seed, f, i));
        let j = choose|j: int| 0 <= j < i && adjacent(f[j], f[i]);
        let prev = lemma_path_to(w, h, c, seed, f, j);
        let path = prev.push(f[i]);
        assert forall|k: int| 0 < k < path.len() implies fillable(w, h, c, seed, #[trigger] path[k])
            && adjacent(path[k - 1], path[k]) by {
            if k < prev.len() {
                assert(path[k] == prev[k] && path[k - 1] == prev[k - 1]);
            }
        }
        path
    }
}

proof fn lemma_path_inside(w: u32, h: u32, c: Seq<[u8; 4]>, seed: (u32, u32), f: Seq<(u32, u32)>, path: Seq<(u32, u32)>, k: int)
    requires
        f.len() >= 1,
        f[0] == seed,
        fill_path(w, h, c, seed, path),
        0 <= k < path.len(),
        forall|i: int, n: (u32, u32)|
            0 <= i < f.len() && adjacent(#[trigger] f[i], n) && fillable(w, h, c, seed, n)
                ==> #[trigger] f.contains(n),
    ensures
        f.contains(path[k]),
    decreases k,
{
    if k == 0 {
        assert(f[0] == path[0]);
    } else {
        lemma_path_inside(w, h, c, seed, f, path, k - 1);
        let i = choose|i: int| 0 <= i < f.len() && f[i] == path[k - 1];
        assert(fillable(w, h, c, seed, path[k]) && adjacent(path[k - 1], path[k]));
        assert(adjacent(f[i], path[k]));
    }
}

/// Below the limit, a fill colours exactly the pixels connected to the
/// seed through fillable 4-neighbours.
proof fn lemma_fill_is_connected_region(w: u32, h: u32, c: Seq<[u8; 4]>, seed: (u32, u32), f: Seq<(u32, u32)>)
    requires
        f.len() >= 1,
        f[0] == seed,
        forall|k: int| 0 < k < f.len() ==> #[trigger] reached(w, h, c, seed, f, k),
        forall|i: int, n: (u32, u32)|
            0 <= i < f.len() && adjacent(#[trigger] f[i], n) && fillable(w, h, c, seed, n)
                ==> #[trigger] f.contains(n),
    ensures
        forall|p: (u32, u32)| #[trigger] f.contains(p) <==> connected(w, h, c, seed, p),
{
    assert forall|p: (u32, u32)| #[trigger] f.contains(p) <==> connected(w, h, c, seed, p) by {
        if f.contains(p) {
            let i = choose|i: int| 0 <= i < f.len() && f[i] == p;
            let path = lemma_path_to(w, h, c, seed, f, i);
        }
        if connected(w, h, c, seed, p) {
            let path = choose|path: Seq<(u32, u32)>| fill_path(w, h, c, seed, path) && path.last() == p;
            lemma_path_inside(w, h, c, seed, f, path, path.len() - 1);
        }
    }
}

/// Breadth-first search from the seed through fillable pixels; the filled
/// pixels in the order they are reached, at most `FILL_LIMIT` of them.
pub fn fill_region(width: u32, height: u32, seed_x: u32, seed_y: u32, colours: &Vec<[u8; 4]>) -> (filled: Vec<(u32, u32)>)
    requires
        colours@.len() == width * height,
    ensures
        ({
            let seed = fill_seed(width, height, seed_x, seed_y);
            &&& filled@.len() >= 1
            &&& filled@[0] == seed
            &&& filled@.len() <= FILL_LIMIT
            &&& no_repeats(filled@)
            &&& forall|i: int|
                0 < i < filled@.len() ==> #[trigger] reached(width, height, colours@, seed, filled@, i)
            &&& filled@.len() < FILL_LIMIT ==> forall|i: int, n: (u32, u32)|
                0 <= i < filled@.len() && adjacent(#[trigger] filled@[i], n) && fillable(
                    width,
                    height,
                    colours@,
                    seed,
                    n,
                ) ==> #[trigger] filled@.contains(n)
            &&& filled@.len() < FILL_LIMIT ==> forall|p: (u32, u32)|
                #[trigger] filled@.contains(p) <==> connected(width, height, colours@, seed, p)
        }),
{
    let ghost seed = fill_seed(width, height, seed_x, seed_y);
    let w = width;
    let h = height;
    let sx = if w == 0 {
        0
    } else if seed_x < w {
        seed_x
    } else {
        w - 1
    };
    let sy = if h == 0 {
        0
    } else if seed_y < h {
        seed_y
    } else {
        h - 1
    };
    let seed_px = (sx, sy);
    assert(seed_px == seed);
    let total = colours.len();
    let mut visited: Vec<bool> = Vec::new();
    let mut t: usize = 0;
    while t < total
        invariant
            t <= total,
            total == colours@.len(),
            visited@.len() == t,
            forall|k: int| 0 <= k < t ==> !visited@[k],
        decreases total - t,
    {
        visited.push(false);
        t += 1;
    }
    let mut queue: Vec<(u32, u32)> = Vec::new();
    queue.push(seed_px);
    proof {
        lemma_count_true_none(visited@);
    }
    let seed_colour: [u8; 4] = if sx < w && sy < h {
        let i = pixel_offset(w, h, seed_px);
        proof {
            lemma_count_true_set(visited@, i as int);
        }
        visited.set(i, true);
        colours[i]
    } else {
        [0u8, 0u8, 0u8, 0u8]
    };
    proof {
        assert(queue@ =~= seq![seed]);
        assert forall|p: (u32, u32)| in_canvas(w, h, p) implies (visited@[pixel_index(w, p)]
            <==> #[trigger] queue@.contains(p)) by {
            lemma_index_bound(w, h, p);
            if visited@[pixel_index(w, p)] {
                lemma_index_bound(w, h, seed);
                lemma_index_injective(w, h, p, seed);
                assert(queue@[0] == p);
            }
            if queue@.contains(p) {
                let k = choose|k: int| 0 <= k < queue@.len() && queue@[k] == p;
                assert(p == seed);
            }
        }
        lemma_count_true_le(visited@);
    }
    let mut head: usize = 0;
    let mut filled: Vec<(u32, u32)> = Vec::new();
    let mut count: u32 = 0;
    while head < queue.len() && count < FILL_LIMIT
        invariant
            w == width,
            h == height,
            colours@.len() == w * h,
            w * h <= usize::MAX,
            seed == (sx, sy),
            seed == fill_seed(width, height, seed_x, seed_y),
            !in_canvas(w, h, seed) ==> w == 0 || h == 0,
            in_canvas(w, h, seed) ==> seed_colour == colours@[pixel_index(w, seed)],
            queue_ok(w, h, queue@, visited@),
            count_true(visited@) <= visited@.len(),
            queue@.len() >= 1,
            queue@[0] == seed,
            head <= queue@.len(),
            filled@.len() == count,
            count <= FILL_LIMIT,
            head >= 1 ==> filled@.len() >= 1 && filled@[0] == seed,
            head == 0 ==> filled@.len() == 0,
            bfs_inv(w, h, colours@, queue@, head as int, filled@),
        decreases 2 * (visited@.len() - count_true(visited@)) + (queue@.len() - head),
    {
        let p = queue[head];
        let is_seed = head == 0;
        head = head + 1;
        let ok = if is_seed {
            true
        } else {
            let i = pixel_offset(w, h, p);
            colours_match(colours[i], seed_colour)
        };
        proof {
            reveal(fillable);
            assert(ok == matched(w, h, colours@, queue@, head - 1));
        }
        if ok {
            let ghost q0 = queue@;
            let ghost f0 = filled@;
            filled.push(p);
            count = count + 1;
            let ghost a0 = queue@;
            if p.0 > 0 {
                visit(&mut queue, &mut visited, w, h, ((p.0 - 1) as u32, p.1));
            }
            let ghost a1 = queue@;
            if p.0 < u32::MAX {
                visit(&mut queue, &mut visited, w, h, ((p.0 + 1) as u32, p.1));
            }
            let ghost a2 = queue@;
            if p.1 > 0 {
                visit(&mut queue, &mut visited, w, h, (p.0, (p.1 - 1) as u32));
            }
            let ghost a3 = queue@;
            if p.1 < u32::MAX {
                visit(&mut queue, &mut visited, w, h, (p.0, (p.1 + 1) as u32));
            }
            proof {
                lemma_count_true_le(visited@);
                lemma_four_visits(w, h, p, q0, a1, a2, a3, queue@);
                lemma_step_filled(w, h, colours@, q0, queue@, (head - 1) as int, f0, p);
                assert(filled@ == f0.push(p));
            }
        } else {
            proof {
                lemma_step_skipped(w, h, colours@, queue@, (head - 1) as int, filled@);
            }
        }
    }
    proof {
        if filled@.len() < FILL_LIMIT {
            lemma_bfs_closed(w, h, colours@, queue@, filled@);
            lemma_fill_is_connected_region(w, h, colours@, seed, filled@);
        }
    }
    filled
}

//==============================================================================
// Touched tiles and the dirty rectangle
//==============================================================================

/// The tile a pixel falls in.
pub open spec fn tile_of(p: (u32, u32)) -> (u32, u32) {
    ((p.0 / 64) as u32, (p.1 / 64) as u32)
}

/// The tiles of a sequence of pixels, pixel by pixel.
pub open spec fn tiles_of(f: Seq<(u32, u32)>) -> Seq<(u32, u32)> {
    Seq::new(f.len(), |i: int| tile_of(f[i]))
}

/// The distinct elements of `s`, in order of first occurrence.
pub open spec fn first_occurrences(s: Seq<(u32, u32)>) -> Seq<(u32, u32)>
    decreases s.len(),
{
    if s.len() == 0 {
        Seq::empty()
    } else {
        let d = first_occurrences(s.drop_last());
        if d.contains(s.last()) {
            d
        } else {
            d.push(s.last())
        }
    }
}

/// The on-canvas part of tile `t` of a `w` by `h` canvas (empty when the
/// tile lies off the canvas).
pub open spec fn tile_footprint(w: u32, h: u32, t: (u32, u32)) -> Rect {
    let x = t.0 * 64;
    let y = t.1 * 64;
    Rect {
        x: x as u32,
        y: y as u32,
        w: if x >= w {
            0
        } else if w - x < 64 {
            (w - x) as u32
        } else {
            64
        },
        h: if y >= h {
            0
        } else if h - y < 64 {
            (h - y) as u32
        } else {
            64
        },
    }
}

/// The union of the non-empty rectangles of `rs`, folded from the left.
pub open spec fn cover(rs: Seq<Rect>) -> Option<Rect>
    decreases rs.len(),
{
    if rs.len() == 0 {
        None
    } else {
        let r = rs.last();
        let c = cover(rs.drop_last());
        if r.w > 0 && r.h > 0 {
            match c {
                None => Some(r),
                Some(a) => Some(rect_union(a, r)),
            }
        } else {
            c
        }
    }
}

/// The rectangle to repaint after filling in `tiles`: the union of their
/// on-canvas footprints, or the empty rectangle at the origin.
pub open spec fn fill_dirty(w: u32, h: u32, tiles: Seq<(u32, u32)>) -> Rect {
    match cover(Seq::new(tiles.len(), |i: int| tile_footprint(w, h, tiles[i]))) {
        Some(r) => r,
        None => Rect { x: 0, y: 0, w: 0, h: 0 },
    }
}

fn contains_tile(v: &Vec<(u32, u32)>, t: (u32, u32)) -> (b: bool)
    ensures
        b == v@.contains(t),
{
    let mut i: usize = 0;
    while i < v.len()
        invariant
            i <= v@.len(),
            forall|k: int| 0 <= k < i ==> v@[k] != t,
        decreases v@.len() - i,
    {
        if v[i].0 == t.0 && v[i].1 == t.1 {
            return true;
        }
        i += 1;
    }
    false
}

/// The tiles the pixels fall in, each once, in order of first touch.
pub fn touched_tiles(pixels: &Vec<(u32, u32)>) -> (t: Vec<(u32, u32)>)
    ensures
        t@ == first_occurrences(tiles_of(pixels@)),
{
    let mut t: Vec<(u32, u32)> = Vec::new();
    let mut i: usize = 0;
    while i < pixels.len()
        invariant
            i <= pixels@.len(),
            t@ == first_occurrences(tiles_of(pixels@).take(i as int)),
        decreases pixels@.len() - i,
    {
        let p = pixels[i];
        let k = (p.0 / 64, p.1 / 64);
        proof {
            assert(tiles_of(pixels@).take(i + 1).drop_last() =~= tiles_of(pixels@).take(i as int));
            assert(tiles_of(pixels@).take(i + 1).last() == k);
        }
        if !contains_tile(&t, k) {
            t.push(k);
        }
        i += 1;
    }
    assert(tiles_of(pixels@).take(pixels@.len() as int) =~= tiles_of(pixels@));
    t
}

fn footprint(w: u32, h: u32, t: (u32, u32)) -> (r: Rect)
    requires
        t.0 * 64 <= u32::MAX,
        t.1 * 64 <= u32::MAX,
    ensures
        r == tile_footprint(w, h, t),
        r.w > 0 ==> r.x + r.w <= w,
        r.h > 0 ==> r.y + r.h <= h,
{
    let x = t.0 * 64;
    let y = t.1 * 64;
    let fw = if x >= w {
        0
    } else if w - x < 64 {
        w - x
    } else {
        64
    };
    let fh = if y >= h {
        0
    } else if h - y < 64 {
        h - y
    } else {
        64
    };
    Rect { x, y, w: fw, h: fh }
}

/// The rectangle to repaint after filling in `tiles`.
pub fn dirty_rect(w: u32, h: u32, tiles: &Vec<(u32, u32)>) -> (r: Rect)
    requires
        forall|i: int| 0 <= i < tiles@.len() ==> (#[trigger] tiles@[i]).0 * 64 <= u32::MAX && tiles@[i].1 * 64 <= u32::MAX,
    ensures
        r == fill_dirty(w, h, tiles@),
{
    let ghost rs = Seq::new(tiles@.len(), |i: int| tile_footprint(w, h, tiles@[i]));
    let mut acc: Option<Rect> = None;
    let mut i: usize = 0;
    while i < tiles.len()
        invariant
            i <= tiles@.len(),
            rs == Seq::new(tiles@.len(), |i: int| tile_footprint(w, h, tiles@[i])),
            forall|i: int| 0 <= i < tiles@.len() ==> (#[trigger] tiles@[i]).0 * 64 <= u32::MAX && tiles@[i].1 * 64 <= u32::MAX,
            acc == cover(rs.take(i as int)),
            acc matches Some(a) ==> rect_fits(a),
        decreases tiles@.len() - i,
    {
        let r = footprint(w, h, tiles[i]);
        proof {
            assert(rs.take(i + 1).drop_last() =~= rs.take(i as int));
            assert(rs.take(i + 1).last() == r);
        }
        if r.w > 0 && r.h > 0 {
            acc = match acc {
                None => Some(r),
                Some(a) => Some(union(a, r)),
            };
        }
        i += 1;
    }
    assert(rs.take(tiles@.len() as int) =~= rs);
    match acc {
        Some(r) => r,
        None => Rect { x: 0, y: 0, w: 0, h: 0 },
    }
}

/// What a fill changes: the pixels to colour (the seed first), the tiles
/// they fall in, and the rectangle to repaint.
pub struct FillPlan {
    pub pixels: Vec<(u32, u32)>,
    pub tiles: Vec<(u32, u32)>,
    pub dirty: Rect,
}

/// Plan a fill requested at `(seed_x, seed_y)` on a `width` by `height`
/// canvas with the given pixel colours.
pub fn plan_fill(width: u32, height: u32, seed_x: u32, seed_y: u32, colours: &Vec<[u8; 4]>) -> (plan: FillPlan)
    requires
        colours@.len() == width * height,
    ensures
        ({
            let seed = fill_seed(width, height, seed_x, seed_y);
            let f = plan.pixels@;
            &&& f.len() >= 1
            &&& f[0] == seed
            &&& f.len() <= FILL_LIMIT
            &&& no_repeats(f)
            &&& forall|i: int| 0 < i < f.len() ==> #[trigger] reached(width, height, colours@, seed, f, i)
            &&& f.len() < FILL_LIMIT ==> forall|p: (u32, u32)|
                #[trigger] f.contains(p) <==> connected(width, height, colours@, seed, p)
        }),
        plan.tiles@ == first_occurrences(tiles_of(plan.pixels@)),
        plan.dirty == fill_dirty(width, height, plan.tiles@),
{
    let pixels = fill_region(width, height, seed_x, seed_y, colours);
    let tiles = touched_tiles(&pixels);
    proof {
        lemma_first_occurrences_from(tiles_of(pixels@));
        assert forall|i: int| 0 <= i < tiles@.len() implies (#[trigger] tiles@[i]).0 * 64 <= u32::MAX
            && tiles@[i].1 * 64 <= u32::MAX by {
            assert(tiles_of(pixels@).contains(tiles@[i]));
            let k = choose|k: int| 0 <= k < tiles_of(pixels@).len() && tiles_of(pixels@)[k] == tiles@[i];
            let p = pixels@[k];
            assert((p.0 / 64) * 64 <= p.0) by (nonlinear_arith);
            assert((p.1 / 64) * 64 <= p.1) by (nonlinear_arith);
        }
    }
    let dirty = dirty_rect(width, height, &tiles);
    FillPlan { pixels, tiles, dirty }
}

proof fn lemma_first_occurrences_from(s: Seq<(u32, u32)>)
    ensures
        forall|i: int| 0 <= i < first_occurrences(s).len() ==> s.contains(#[trigger] first_occurrences(s)[i]),
    decreases s.len(),
{
    if s.len() > 0 {
        lemma_first_occurrences_from(s.drop_last());
        let d = first_occurrences(s.drop_last());
        assert forall|i: int| 0 <= i < first_occurrences(s).len() implies s.contains(#[trigger] first_occurrences(s)[i]) by {
            if i < d.len() {
                assert(first_occurrences(s)[i] == d[i]);
                assert(s.drop_last().contains(d[i]));
                let k = choose|k: int| 0 <= k < s.drop_last().len() && s.drop_last()[k] == d[i];
                assert(s[k] == d[i]);
            } else {
                assert(first_occurrences(s)[i] == s.last());
                assert(s[s.len() - 1] == s.last());
            }
        }
    }
}


/// The offsets, in a tile's buffer of four channels per pixel, of the
/// pixels of `pixels` that lie in tile `t`, in their order.
pub open spec fn offsets_in_tile(pixels: Seq<(u32, u32)>, t: (u32, u32)) -> Seq<usize>
    decreases pixels.len(),
{
    if pixels.len() == 0 {
        Seq::empty()
    } else {
        let rest = offsets_in_tile(pixels.drop_last(), t);
        let p = pixels.last();
        if tile_of(p) == t {
            rest.push((((p.1 % FILL_TILE_SIZE) * FILL_TILE_SIZE + p.0 % FILL_TILE_SIZE) * 4) as usize)
        } else {
            rest
        }
    }
}

/// Where the pixels of `pixels` that lie in tile `(tile_x, tile_y)` sit in
/// that tile's buffer: the offset of each one's first channel.
pub fn pixel_offsets_in_tile(pixels: &Vec<(u32, u32)>, tile_x: u32, tile_y: u32) -> (offsets: Vec<usize>)
    ensures
        offsets@ == offsets_in_tile(pixels@, (tile_x, tile_y)),
        forall|i: int| 0 <= i < offsets@.len() ==> #[trigger] offsets@[i] % 4 == 0 && offsets@[i] + 4 <= 4
            * FILL_TILE_SIZE * FILL_TILE_SIZE,
{
    let mut offsets: Vec<usize> = Vec::new();
    let mut i: usize = 0;
    while i < pixels.len()
        invariant
            i <= pixels@.len(),
            offsets@ == offsets_in_tile(pixels@.take(i as int), (tile_x, tile_y)),
            forall|k: int| 0 <= k < offsets@.len() ==> #[trigger] offsets@[k] % 4 == 0 && offsets@[k] + 4 <= 4
                * FILL_TILE_SIZE * FILL_TILE_SIZE,
        decreases pixels@.len() - i,
    {
        proof {
            assert(pixels@.take(i + 1).drop_last() =~= pixels@.take(i as int));
        }
        let (px, py) = pixels[i];
        if px / FILL_TILE_SIZE == tile_x && py / FILL_TILE_SIZE == tile_y {
            let off = (((py % FILL_TILE_SIZE) * FILL_TILE_SIZE + px % FILL_TILE_SIZE) * 4) as usize;
            offsets.push(off);
        }
        i += 1;
    }
    assert(pixels@.take(pixels@.len() as int) =~= pixels@);
    offsets
}

} // verus!

//! Segmentation of a track into ribbon strips, and the triangle indices of a
//! ribbon.
//!
//! A point whose three coordinates all truncate to the integer 0 is a break
//! ("pen up"): it ends the strip that is being built and is itself dropped. A
//! strip needs two points, one segment, to be drawn; shorter ones are dropped.

use vstd::prelude::*;

use crate::trail::{Trail, TrailData};

verus! {

/// The `f32` with bit pattern `bits` truncates to the integer 0 (`v as i32 == 0`):
/// its magnitude is below 1, or it is NaN.
pub open spec fn truncates_to_zero(bits: u32) -> bool {
    let exponent = (bits / 0x80_0000) % 256;
    exponent < 127 || (exponent == 255 && bits % 0x80_0000 != 0)
}

pub fn is_zero_when_truncated(bits: u32) -> (r: bool)
    ensures
        r == truncates_to_zero(bits),
{
    let exponent = (bits / 0x80_0000) % 256;
    exponent < 127 || (exponent == 255 && bits % 0x80_0000 != 0)
}

/// `p` marks a break in a track.
pub open spec fn is_break(p: TrailData) -> bool {
    truncates_to_zero(p.x) && truncates_to_zero(p.y) && truncates_to_zero(p.z)
}

pub fn is_track_break(p: &TrailData) -> (r: bool)
    ensures
        r == is_break(*p),
{
    is_zero_when_truncated(p.x) && is_zero_when_truncated(p.y) && is_zero_when_truncated(p.z)
}

/// The strip `cur` as output: itself where it has a segment, else nothing.
pub open spec fn flush(cur: Seq<TrailData>) -> Seq<Seq<TrailData>> {
    if cur.len() >= 2 {
        seq![cur]
    } else {
        seq![]
    }
}

/// The strips of `s`, the strip `cur` being under way in front of it.
pub open spec fn strips_from(s: Seq<TrailData>, cur: Seq<TrailData>) -> Seq<Seq<TrailData>>
    decreases s.len(),
{
    if s.len() == 0 {
        flush(cur)
    } else if is_break(s[0]) {
        flush(cur) + strips_from(s.drop_first(), seq![])
    } else {
        strips_from(s.drop_first(), cur.push(s[0]))
    }
}

/// The strips of the track `s`, in order.
pub open spec fn strips(s: Seq<TrailData>) -> Seq<Seq<TrailData>> {
    strips_from(s, seq![])
}

/// The views of a sequence of point vectors.
pub open spec fn views(v: Seq<Vec<TrailData>>) -> Seq<Seq<TrailData>> {
    v.map_values(|w: Vec<TrailData>| w@)
}

/// Splits a track into its strips.
pub fn split_strips(points: &Vec<TrailData>) -> (r: Vec<Vec<TrailData>>)
    ensures
        views(r@) == strips(points@),
{
    let mut out: Vec<Vec<TrailData>> = Vec::new();
    let mut cur: Vec<TrailData> = Vec::new();
    let mut i: usize = 0;
    assert(points@.skip(0) =~= points@);
    assert(views(out@) =~= seq![]);
    while i < points.len()
        invariant
            i <= points@.len(),
            views(out@) + strips_from(points@.skip(i as int), cur@) == strips(points@),
        decreases points@.len() - i,
    {
        let p = points[i];
        let ghost rest = points@.skip(i as int);
        assert(rest[0] == p);
        assert(rest.drop_first() =~= points@.skip(i + 1));
        if is_track_break(&p) {
            let ghost before = views(out@);
            if cur.len() >= 2 {
                let done = cur;
                out.push(done);
                assert(views(out@) =~= before + flush(done@));
            } else {
                assert(before + flush(cur@) =~= before);
            }
            cur = Vec::new();
            assert(cur@ =~= seq![]);
        } else {
            cur.push(p);
        }
        i = i + 1;
    }
    assert(points@.skip(i as int) =~= seq![]);
    let ghost before = views(out@);
    if cur.len() >= 2 {
        let done = cur;
        out.push(done);
        assert(views(out@) =~= before + flush(done@));
    } else {
        assert(before + flush(cur@) =~= before);
    }
    out
}

/// Points with no break among them extend the strip under way.
proof fn lemma_run(s: Seq<TrailData>, cur: Seq<TrailData>, k: int)
    requires
        0 <= k <= s.len(),
        forall|j: int| 0 <= j < k ==> !is_break(s[j]),
    ensures
        strips_from(s, cur) == strips_from(s.skip(k), cur + s.take(k)),
    decreases k,
{
    if k == 0 {
        assert(s.skip(0) =~= s);
        assert(cur + s.take(0) =~= cur);
    } else {
        let t = s.drop_first();
        assert forall|j: int| 0 <= j < k - 1 implies !is_break(t[j]) by {
            assert(t[j] == s[j + 1]);
        }
        lemma_run(t, cur.push(s[0]), k - 1);
        assert(t.skip(k - 1) =~= s.skip(k));
        assert(cur.push(s[0]) + t.take(k - 1) =~= cur + s.take(k));
    }
}

/// A track with exactly one break, and at least two points on each side of
/// it, makes two strips: the points before the break and the points after it.
pub proof fn lemma_one_break_two_strips(s: Seq<TrailData>, k: int)
    requires
        2 <= k,
        k + 3 <= s.len(),
        is_break(s[k]),
        forall|j: int| 0 <= j < s.len() && j != k ==> !is_break(s[j]),
    ensures
        strips(s) == seq![s.take(k), s.skip(k + 1)],
        strips(s).len() == 2,
{
    lemma_run(s, seq![], k);
    let t = s.skip(k);
    assert(t[0] == s[k]);
    assert(seq![] + s.take(k) =~= s.take(k));
    let u = t.drop_first();
    assert(u =~= s.skip(k + 1));
    assert forall|j: int| 0 <= j < u.len() implies !is_break(u[j]) by {
        assert(u[j] == s[k + 1 + j]);
    }
    lemma_run(u, seq![], u.len() as int);
    assert(u.skip(u.len() as int) =~= seq![]);
    assert(seq![] + u.take(u.len() as int) =~= u);
    assert(strips(s) =~= seq![s.take(k), s.skip(k + 1)]);
}

/// A track with at most one point that is not a break makes no strip: a
/// single point draws nothing.
pub proof fn lemma_lone_point_no_strip(s: Seq<TrailData>, m: int)
    requires
        0 <= m < s.len(),
        forall|j: int| 0 <= j < s.len() && j != m ==> is_break(s[j]),
    ensures
        strips(s).len() == 0,
{
    lemma_lone_point_from(s, seq![], m);
}

proof fn lemma_lone_point_from(s: Seq<TrailData>, cur: Seq<TrailData>, m: int)
    requires
        forall|j: int| 0 <= j < s.len() && j != m ==> is_break(s[j]),
        cur.len() == 0 || (cur.len() == 1 && m < 0),
    ensures
        strips_from(s, cur).len() == 0,
    decreases s.len(),
{
    if s.len() > 0 {
        let t = s.drop_first();
        assert forall|j: int| 0 <= j < t.len() && j != m - 1 implies is_break(t[j]) by {
            assert(t[j] == s[j + 1]);
        }
        if is_break(s[0]) {
            lemma_lone_point_from(t, seq![], m - 1);
        } else {
            assert(m == 0);
            lemma_lone_point_from(t, cur.push(s[0]), m - 1);
        }
    }
}

/// The corner of a ribbon quad that the `m`-th index of the quad names:
/// two triangles, (0, 1, 2) and (2, 3, 0).
pub open spec fn quad_corner(m: int) -> int {
    if m == 0 {
        0
    } else if m == 1 {
        1
    } else if m == 2 {
        2
    } else if m == 3 {
        2
    } else if m == 4 {
        3
    } else {
        0
    }
}

/// The triangle indices of a ribbon of `quads` quads, four vertices each.
pub open spec fn ribbon_index_seq(quads: nat) -> Seq<u32> {
    Seq::new(6 * quads, |j: int| (4 * (j / 6) + quad_corner(j % 6)) as u32)
}

/// The triangle indices of a ribbon of `quads` quads.
pub fn ribbon_indices(quads: u32) -> (r: Vec<u32>)
    requires
        4 * quads + 3 <= u32::MAX,
    ensures
        r@ == ribbon_index_seq(quads as nat),
{
    let mut r: Vec<u32> = Vec::new();
    let mut q: u32 = 0;
    while q < quads
        invariant
            q <= quads,
            4 * quads + 3 <= u32::MAX,
            r@ == ribbon_index_seq(q as nat),
        decreases quads - q,
    {
        let base = 4 * q;
        r.push(base);
        r.push(base + 1);
        r.push(base + 2);
        r.push(base + 2);
        r.push(base + 3);
        r.push(base);
        let ghost prev = ribbon_index_seq(q as nat);
        q = q + 1;
        assert forall|j: int| 0 <= j < 6 * q implies #[trigger] r@[j] == ribbon_index_seq(
            q as nat,
        )[j] by {
            if j < 6 * (q - 1) {
                assert(r@[j] == prev[j]);
            } else {
                let m = j - 6 * (q - 1);
                assert(j / 6 == q - 1 && j % 6 == m) by (nonlinear_arith)
                    requires
                        j == 6 * (q - 1) + m,
                        0 <= m < 6,
                ;
            }
        }
        assert(r@ =~= ribbon_index_seq(q as nat));
    }
    r
}

impl Trail {
    /// The strips in which the trail's ribbon is drawn.
    pub fn generate_strips(&self) -> (r: Vec<Vec<TrailData>>)
        ensures
            views(r@) == strips(self.trail_data@),
    {
        split_strips(&self.trail_data)
    }
}

} // verus!

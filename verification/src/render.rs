use vstd::prelude::*;
use crate::error::SessionError;

verus! {

/// Fixed canvas width of every rendered drawing, in user units.
pub const CANVAS_WIDTH: u32 = 565;

/// One command of a path: a move-to for the first point of a curve, a
/// line-to for every later point. Coordinates are 32-bit float bit patterns.
#[derive(Clone, Copy, PartialEq, Eq, Structural, Debug)]
pub struct PathCmd {
    pub is_move: bool,
    pub x_bits: u32,
    pub y_bits: u32,
}

/// One rendered curve: stroke color bytes, alpha byte, stroke width as a
/// 32-bit float bit pattern, and the path commands in order.
pub struct CurvePath {
    pub red: u8,
    pub green: u8,
    pub blue: u8,
    pub alpha: u8,
    pub width_bits: u32,
    pub cmds: Vec<PathCmd>,
}

/// A rendered drawing: the fixed canvas width, the largest y-coordinate of
/// the point sequence (as a float bit pattern; the canvas height adds the
/// fixed aspect margin to it), and one path per curve.
pub struct Drawing {
    pub canvas_width: u32,
    pub max_y_bits: u32,
    pub paths: Vec<CurvePath>,
}

/// `b`, read as a 32-bit float bit pattern, encodes a NaN: all exponent bits
/// set and a non-zero mantissa.
pub open spec fn f32_bits_is_nan(b: u32) -> bool {
    (b >> 23) & 0xff == 0xff && b & 0x7fffff != 0
}

/// A key that orders 32-bit float bit patterns: for patterns of finite
/// numbers the key ascends exactly with the numeric value (negative numbers
/// descend with their bit pattern, non-negative ones ascend).
pub open spec fn f32_key(b: u32) -> int {
    if b >= 0x8000_0000 {
        0xffff_ffffu32 - b
    } else {
        b + 0x8000_0000
    }
}

/// `m` is a y-coordinate of the point sequence (every odd position), and no
/// y-coordinate exceeds it in the float order.
pub open spec fn is_max_y(points: Seq<u32>, m: u32) -> bool {
    &&& exists|q: int| 0 <= q && 2 * q + 1 < points.len() && #[trigger] points[2 * q + 1] == m
    &&& forall|q: int|
        0 <= q && 2 * q + 1 < points.len() ==> f32_key(#[trigger] points[2 * q + 1]) <= f32_key(m)
}

/// The number of points belonging to the curves before curve `i`.
pub open spec fn count_prefix(counts: Seq<i32>, i: int) -> int
    decreases i,
{
    if i <= 0 {
        0
    } else {
        count_prefix(counts, i - 1) + counts[i - 1]
    }
}

/// No curve declares a negative point count.
pub open spec fn counts_nonneg(counts: Seq<i32>) -> bool {
    forall|i: int| 0 <= i < counts.len() ==> counts[i] >= 0
}

/// The decoded sequences are consistent: an even, non-empty point sequence,
/// non-negative counts that sum to the number of points, one width and one
/// color per curve, every curve's first point inside the point sequence, and
/// no NaN among the y-coordinates (the canvas height is their maximum).
pub open spec fn valid_curve_data(
    points: Seq<u32>,
    counts: Seq<i32>,
    widths: Seq<u32>,
    colors: Seq<u32>,
) -> bool {
    let half = points.len() as int / 2;
    &&& points.len() % 2 == 0
    &&& points.len() >= 2
    &&& counts_nonneg(counts)
    &&& count_prefix(counts, counts.len() as int) == half
    &&& widths.len() == counts.len()
    &&& colors.len() == counts.len()
    &&& forall|i: int| 0 <= i < counts.len() ==> count_prefix(counts, i) < half
    &&& forall|q: int| 0 <= q < half ==> !f32_bits_is_nan(#[trigger] points[2 * q + 1])
}

/// The command emitted for the `j`-th point of the curve starting at point
/// index `start`.
pub open spec fn cmd_for(points: Seq<u32>, start: int, j: int) -> PathCmd {
    PathCmd {
        is_move: j == 0,
        x_bits: points[2 * (start + j)],
        y_bits: points[2 * (start + j) + 1],
    }
}

/// The number of commands a curve with point count `c` emits: one per point,
/// but the leading move-to is emitted even for a curve with no points (it
/// then reads the point at the running cursor).
pub open spec fn cmd_count(c: i32) -> int {
    if c <= 0 {
        1
    } else {
        c as int
    }
}

/// Path `p` renders curve `i`: color bytes unpacked from the packed color
/// (red in bits 0-7, green in 8-15, blue in 16-23, alpha in 24-31), the
/// declared width, and one command per point of the curve, in order.
pub open spec fn path_matches(
    p: CurvePath,
    points: Seq<u32>,
    counts: Seq<i32>,
    widths: Seq<u32>,
    colors: Seq<u32>,
    i: int,
) -> bool {
    let start = count_prefix(counts, i);
    &&& p.red == (colors[i] & 0xff) as u8
    &&& p.green == ((colors[i] >> 8) & 0xff) as u8
    &&& p.blue == ((colors[i] >> 16) & 0xff) as u8
    &&& p.alpha == ((colors[i] >> 24) & 0xff) as u8
    &&& p.width_bits == widths[i]
    &&& p.cmds@.len() == cmd_count(counts[i])
    &&& forall|j: int| 0 <= j < cmd_count(counts[i]) ==> p.cmds@[j] == cmd_for(points, start, j)
}

/// Drawing `d` renders the four sequences: fixed canvas width, the largest
/// y-coordinate, and one matching path per curve.
pub open spec fn drawing_matches(
    d: Drawing,
    points: Seq<u32>,
    counts: Seq<i32>,
    widths: Seq<u32>,
    colors: Seq<u32>,
) -> bool {
    &&& d.canvas_width == 565
    &&& is_max_y(points, d.max_y_bits)
    &&& d.paths@.len() == counts.len()
    &&& forall|i: int|
        0 <= i < counts.len() ==> path_matches(d.paths@[i], points, counts, widths, colors, i)
}

/// A prefix of the point counts never exceeds a longer one when no count is
/// negative.
proof fn lemma_prefix_monotone(counts: Seq<i32>, i: int, j: int)
    requires
        counts_nonneg(counts),
        0 <= i <= j <= counts.len(),
    ensures
        count_prefix(counts, i) <= count_prefix(counts, j),
    decreases j - i,
{
    if i < j {
        lemma_prefix_monotone(counts, i, j - 1);
        assert(counts[j - 1] >= 0);
    }
}

fn f32_order_key(b: u32) -> (k: u32)
    ensures
        k == f32_key(b),
{
    if b >= 0x8000_0000 {
        0xffff_ffffu32 - b
    } else {
        b + 0x8000_0000
    }
}

fn bits_is_nan(b: u32) -> (r: bool)
    ensures
        r == f32_bits_is_nan(b),
{
    (b >> 23) & 0xff == 0xff && b & 0x7fffff != 0
}

/// The largest y-coordinate (every odd position) of the point sequence,
/// under the float order on bit patterns; no value when the sequence holds
/// no complete point.
pub fn find_max_point_y(points: &Vec<u32>) -> (r: Option<u32>)
    ensures
        r is Some <==> points@.len() >= 2,
        r is Some ==> is_max_y(points@, r.unwrap()),
{
    let len: usize = points.len();
    if len < 2 {
        return None;
    }
    let mut best: u32 = points[1];
    let ghost mut best_q: int = 0;
    let mut q: usize = 1;
    while q < len / 2
        invariant
            len == points@.len(),
            len >= 2,
            1 <= q <= len / 2,
            0 <= best_q && 2 * best_q + 1 < len && points@[2 * best_q + 1] == best,
            forall|t: int| 0 <= t < q ==> f32_key(#[trigger] points@[2 * t + 1]) <= f32_key(best),
        decreases len / 2 - q,
    {
        let y: u32 = points[2 * q + 1];
        if f32_order_key(y) >= f32_order_key(best) {
            best = y;
            proof {
                best_q = q as int;
            }
        }
        q = q + 1;
    }
    proof {
        assert forall|t: int| 0 <= t && 2 * t + 1 < len implies f32_key(
            #[trigger] points@[2 * t + 1],
        ) <= f32_key(best) by {
            assert(t < len as int / 2);
        };
    }
    Some(best)
}

/// Checks the count sequence against the point sequence: no negative count,
/// every curve starting inside the points, and the counts summing to the
/// number of points.
fn check_counts(points_len: usize, counts: &Vec<i32>) -> (r: bool)
    requires
        points_len % 2 == 0,
    ensures
        r == ({
            let half = points_len as int / 2;
            &&& counts_nonneg(counts@)
            &&& count_prefix(counts@, counts@.len() as int) == half
            &&& forall|i: int| 0 <= i < counts@.len() ==> count_prefix(counts@, i) < half
        }),
{
    let half: usize = points_len / 2;
    let mut total: usize = 0;
    let mut i: usize = 0;
    while i < counts.len()
        invariant
            points_len % 2 == 0,
            half == points_len as int / 2,
            half <= usize::MAX / 2,
            i <= counts@.len(),
            total == count_prefix(counts@, i as int),
            forall|k: int| 0 <= k < i ==> counts@[k] >= 0,
            forall|k: int| 0 <= k < i ==> count_prefix(counts@, k) < half,
        decreases counts@.len() - i,
    {
        let c: i32 = counts[i];
        if c < 0 {
            return false;
        }
        if total >= half {
            return false;
        }
        total = total + (c as usize);
        i = i + 1;
    }
    if total != half {
        proof {
            if counts_nonneg(counts@) && count_prefix(counts@, counts@.len() as int)
                == half as int {
                assert(false);
            }
        }
        return false;
    }
    true
}

/// Renders the four decoded sequences into a drawing: one path per curve, in
/// the order of the count sequence, each curve reading its run of points
/// after the points of the curves before it. Fails, emitting nothing,
/// exactly when the sequences are inconsistent.
pub fn draw(
    points: &Vec<u32>,
    counts: &Vec<i32>,
    widths: &Vec<u32>,
    colors: &Vec<u32>,
) -> (r: Result<Drawing, SessionError>)
    ensures
        r is Ok <==> valid_curve_data(points@, counts@, widths@, colors@),
        r is Err ==> r == Err::<Drawing, SessionError>(SessionError::InvalidCurveData),
        r is Ok ==> drawing_matches(r.unwrap(), points@, counts@, widths@, colors@),
{
    let len: usize = points.len();
    if len % 2 != 0 {
        return Err(SessionError::InvalidCurveData);
    }
    let max_y: u32 = match find_max_point_y(points) {
        Some(m) => m,
        None => {
            return Err(SessionError::InvalidCurveData);
        },
    };
    if widths.len() != counts.len() || colors.len() != counts.len() {
        return Err(SessionError::InvalidCurveData);
    }
    if !check_counts(len, counts) {
        return Err(SessionError::InvalidCurveData);
    }
    let half: usize = len / 2;
    let mut q: usize = 0;
    while q < half
        invariant
            len == points@.len(),
            half == len as int / 2,
            q <= half,
            forall|t: int| 0 <= t < q ==> !f32_bits_is_nan(#[trigger] points@[2 * t + 1]),
        decreases half - q,
    {
        if bits_is_nan(points[2 * q + 1]) {
            return Err(SessionError::InvalidCurveData);
        }
        q = q + 1;
    }
    assert(valid_curve_data(points@, counts@, widths@, colors@));
    let n: usize = counts.len();
    let mut paths: Vec<CurvePath> = Vec::new();
    let mut cursor: usize = 0;
    let mut i: usize = 0;
    while i < n
        invariant
            valid_curve_data(points@, counts@, widths@, colors@),
            len == points@.len(),
            half == len as int / 2,
            n == counts@.len(),
            i <= n,
            cursor == count_prefix(counts@, i as int),
            cursor <= half,
            paths@.len() == i,
            forall|t: int|
                0 <= t < i ==> path_matches(
                    #[trigger] paths@[t],
                    points@,
                    counts@,
                    widths@,
                    colors@,
                    t,
                ),
        decreases n - i,
    {
        let c_i32: i32 = counts[i];
        let c: usize = c_i32 as usize;
        proof {
            lemma_prefix_monotone(counts@, i as int + 1, n as int);
            assert(count_prefix(counts@, i as int + 1) == cursor + c);
        }
        let rgba = crate::transform_u32_to_array_of_u8_le(colors[i]);
        let mut cmds: Vec<PathCmd> = Vec::new();
        proof {
            assert(cursor < half);
        }
        cmds.push(PathCmd { is_move: true, x_bits: points[2 * cursor], y_bits: points[2 * cursor + 1] });
        let mut j: usize = 1;
        while j < c
            invariant
                len == points@.len(),
                half == len as int / 2,
                cursor < half,
                cursor + c <= half,
                1 <= j,
                j <= c || (c == 0 && j == 1),
                cmds@.len() == j,
                forall|t: int|
                    0 <= t < j ==> cmds@[t] == cmd_for(points@, cursor as int, t),
            decreases c - j,
        {
            let idx: usize = cursor + j;
            let x: u32 = points[2 * idx];
            let y: u32 = points[2 * idx + 1];
            cmds.push(PathCmd { is_move: false, x_bits: x, y_bits: y });
            j = j + 1;
        }
        paths.push(
            CurvePath {
                red: rgba[0],
                green: rgba[1],
                blue: rgba[2],
                alpha: rgba[3],
                width_bits: widths[i],
                cmds,
            },
        );
        cursor = cursor + c;
        i = i + 1;
    }
    Ok(Drawing { canvas_width: CANVAS_WIDTH, max_y_bits: max_y, paths })
}

} // verus!

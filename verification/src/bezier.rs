//! Bezier curve segments on the integer design grid, together with their
//! SVG path-argument rendering.
//!
//! Curves are stored exactly: a segment is its two endpoints plus zero, one
//! or two control handles. Coordinates are integers, so point comparison and
//! string rendering are exact and fully specified.

use vstd::prelude::*;
use vstd::string::*;

verus! {

/// A point on the integer design grid.
#[derive(Clone, Copy, Debug, PartialEq, Eq, Structural)]
pub struct Point {
    pub x: i64,
    pub y: i64,
}

impl Point {
    pub fn new(x: i64, y: i64) -> (r: Point)
        ensures
            r == (Point { x, y }),
    {
        Point { x, y }
    }
}

/// The character for one decimal digit.
pub open spec fn digit_char(d: nat) -> char {
    if d == 0 {
        '0'
    } else if d == 1 {
        '1'
    } else if d == 2 {
        '2'
    } else if d == 3 {
        '3'
    } else if d == 4 {
        '4'
    } else if d == 5 {
        '5'
    } else if d == 6 {
        '6'
    } else if d == 7 {
        '7'
    } else if d == 8 {
        '8'
    } else {
        '9'
    }
}

/// Decimal digits of `n`, most significant first, without a sign.
pub open spec fn dec_digits(n: nat) -> Seq<char>
    decreases n,
{
    if n < 10 {
        seq![digit_char(n)]
    } else {
        dec_digits(n / 10).push(digit_char(n % 10))
    }
}

/// Decimal rendering of an integer, with a leading `-` when negative.
pub open spec fn dec_str(i: int) -> Seq<char> {
    if i >= 0 {
        dec_digits(i as nat)
    } else {
        "-"@ + dec_digits((-i) as nat)
    }
}

/// The one-character string for a decimal digit.
fn digit_to_str(d: u64) -> (s: &'static str)
    requires
        d < 10,
    ensures
        s@ == seq![digit_char(d as nat)],
{
    let s: &'static str = if d == 0 {
        "0"
    } else if d == 1 {
        "1"
    } else if d == 2 {
        "2"
    } else if d == 3 {
        "3"
    } else if d == 4 {
        "4"
    } else if d == 5 {
        "5"
    } else if d == 6 {
        "6"
    } else if d == 7 {
        "7"
    } else if d == 8 {
        "8"
    } else {
        "9"
    };
    proof {
        reveal_strlit("0");
        reveal_strlit("1");
        reveal_strlit("2");
        reveal_strlit("3");
        reveal_strlit("4");
        reveal_strlit("5");
        reveal_strlit("6");
        reveal_strlit("7");
        reveal_strlit("8");
        reveal_strlit("9");
        assert(s@ =~= seq![digit_char(d as nat)]);
    }
    s
}

/// Render an unsigned integer in decimal.
pub fn u64_to_string(n: u64) -> (s: String)
    ensures
        s@ == dec_digits(n as nat),
    decreases n,
{
    if n < 10 {
        let s = digit_to_str(n).to_owned();
        proof {
            assert(s@ =~= dec_digits(n as nat));
        }
        s
    } else {
        let mut s = u64_to_string(n / 10);
        s.append(digit_to_str(n % 10));
        proof {
            assert(s@ =~= dec_digits(n as nat));
        }
        s
    }
}

/// Render a signed integer in decimal.
pub fn i64_to_string(n: i64) -> (s: String)
    ensures
        s@ == dec_str(n as int),
{
    if n >= 0 {
        u64_to_string(n as u64)
    } else {
        let magnitude: u64 = ((-(n + 1)) as u64) + 1;
        assert(magnitude as int == -(n as int));
        let mut s = "-".to_owned();
        let digits = u64_to_string(magnitude);
        s.append(digits.as_str());
        s
    }
}

/// The control handles of a segment: none for a line, one for a quadratic
/// curve, two for a cubic curve.
#[derive(Clone, Copy, Debug, PartialEq, Eq, Structural)]
pub enum BezierHandles {
    Linear,
    Quadratic { handle: Point },
    Cubic { handle_start: Point, handle_end: Point },
}

/// One curve segment: two endpoints and their control handles.
#[derive(Clone, Copy, Debug, PartialEq, Eq, Structural)]
pub struct Bezier {
    pub start: Point,
    pub end: Point,
    pub handles: BezierHandles,
}

/// `x y`, both coordinates in decimal.
pub open spec fn point_args(p: Point) -> Seq<char> {
    dec_str(p.x as int) + " "@ + dec_str(p.y as int)
}

/// The SVG path argument for one segment: `L`, `Q` or `C` followed by the
/// control points and the end point.
pub open spec fn spec_svg_curve_argument(b: Bezier) -> Seq<char> {
    match b.handles {
        BezierHandles::Linear => "L"@ + point_args(b.end),
        BezierHandles::Quadratic { handle } => "Q"@ + point_args(handle) + " "@ + point_args(
            b.end,
        ),
        BezierHandles::Cubic { handle_start, handle_end } => "C"@ + point_args(handle_start) + " "@
            + point_args(handle_end) + " "@ + point_args(b.end),
    }
}

/// The SVG path argument for the handle lines of one segment: a move to each
/// anchor followed by a line to its handle; `None` for a line segment, which
/// has no handles.
pub open spec fn spec_svg_handle_line_argument(b: Bezier) -> Option<Seq<char>> {
    match b.handles {
        BezierHandles::Linear => Option::None,
        BezierHandles::Quadratic { handle } => Option::Some(
            "M"@ + point_args(b.start) + " L"@ + point_args(handle),
        ),
        BezierHandles::Cubic { handle_start, handle_end } => Option::Some(
            "M"@ + point_args(b.start) + " L"@ + point_args(handle_start) + " M"@ + point_args(
                b.end,
            ) + " L"@ + point_args(handle_end),
        ),
    }
}

impl Bezier {
    /// A straight segment.
    pub fn from_linear(start: Point, end: Point) -> (r: Bezier)
        ensures
            r == (Bezier { start, end, handles: BezierHandles::Linear }),
    {
        Bezier { start, end, handles: BezierHandles::Linear }
    }

    /// A quadratic segment with one control handle.
    pub fn from_quadratic(start: Point, handle: Point, end: Point) -> (r: Bezier)
        ensures
            r == (Bezier { start, end, handles: BezierHandles::Quadratic { handle } }),
    {
        Bezier { start, end, handles: BezierHandles::Quadratic { handle } }
    }

    /// A cubic segment with two control handles.
    pub fn from_cubic(start: Point, handle_start: Point, handle_end: Point, end: Point) -> (r:
        Bezier)
        ensures
            r == (Bezier { start, end, handles: BezierHandles::Cubic { handle_start, handle_end } }),
    {
        Bezier { start, end, handles: BezierHandles::Cubic { handle_start, handle_end } }
    }

    /// The start point.
    pub fn start(&self) -> (r: Point)
        ensures
            r == self.start,
    {
        self.start
    }

    /// The end point.
    pub fn end(&self) -> (r: Point)
        ensures
            r == self.end,
    {
        self.end
    }

    /// The handle adjacent to the start point, when the segment has one.
    pub fn handle_start(&self) -> (r: Option<Point>)
        ensures
            r == spec_handle_start(*self),
    {
        match self.handles {
            BezierHandles::Linear => Option::None,
            BezierHandles::Quadratic { handle } => Option::Some(handle),
            BezierHandles::Cubic { handle_start, handle_end: _ } => Option::Some(handle_start),
        }
    }

    /// The handle adjacent to the end point, when the segment has one.
    pub fn handle_end(&self) -> (r: Option<Point>)
        ensures
            r == spec_handle_end(*self),
    {
        match self.handles {
            BezierHandles::Linear => Option::None,
            BezierHandles::Quadratic { handle: _ } => Option::None,
            BezierHandles::Cubic { handle_start: _, handle_end } => Option::Some(handle_end),
        }
    }

    /// A straight segment bridging the gap from the end of `self` to the
    /// start of `other`.
    pub fn join(&self, other: &Bezier) -> (r: Bezier)
        ensures
            r == spec_join(*self, *other),
    {
        Bezier { start: self.end, end: other.start, handles: BezierHandles::Linear }
    }

    /// The SVG path argument for this segment.
    pub fn svg_curve_argument(&self) -> (s: String)
        ensures
            s@ == spec_svg_curve_argument(*self),
    {
        match self.handles {
            BezierHandles::Linear => {
                let mut s = "L".to_owned();
                append_point_args(&mut s, self.end);
                s
            },
            BezierHandles::Quadratic { handle } => {
                let mut s = "Q".to_owned();
                append_point_args(&mut s, handle);
                s.append(" ");
                append_point_args(&mut s, self.end);
                s
            },
            BezierHandles::Cubic { handle_start, handle_end } => {
                let mut s = "C".to_owned();
                append_point_args(&mut s, handle_start);
                s.append(" ");
                append_point_args(&mut s, handle_end);
                s.append(" ");
                append_point_args(&mut s, self.end);
                s
            },
        }
    }

    /// The SVG path argument for this segment's handle lines, when it has
    /// handles.
    pub fn svg_handle_line_argument(&self) -> (s: Option<String>)
        ensures
            match s {
                Option::None => spec_svg_handle_line_argument(*self) is None,
                Option::Some(text) => spec_svg_handle_line_argument(*self) == Option::Some(text@),
            },
    {
        match self.handles {
            BezierHandles::Linear => Option::None,
            BezierHandles::Quadratic { handle } => {
                let mut s = "M".to_owned();
                append_point_args(&mut s, self.start);
                s.append(" L");
                append_point_args(&mut s, handle);
                Option::Some(s)
            },
            BezierHandles::Cubic { handle_start, handle_end } => {
                let mut s = "M".to_owned();
                append_point_args(&mut s, self.start);
                s.append(" L");
                append_point_args(&mut s, handle_start);
                s.append(" M");
                append_point_args(&mut s, self.end);
                s.append(" L");
                append_point_args(&mut s, handle_end);
                Option::Some(s)
            },
        }
    }
}

/// The handle adjacent to the start point.
pub open spec fn spec_handle_start(b: Bezier) -> Option<Point> {
    match b.handles {
        BezierHandles::Linear => Option::None,
        BezierHandles::Quadratic { handle } => Option::Some(handle),
        BezierHandles::Cubic { handle_start, handle_end: _ } => Option::Some(handle_start),
    }
}

/// The handle adjacent to the end point.
pub open spec fn spec_handle_end(b: Bezier) -> Option<Point> {
    match b.handles {
        BezierHandles::Linear => Option::None,
        BezierHandles::Quadratic { handle: _ } => Option::None,
        BezierHandles::Cubic { handle_start: _, handle_end } => Option::Some(handle_end),
    }
}

/// A join bridges the gap between two segments with a straight segment.
pub open spec fn spec_join(a: Bezier, b: Bezier) -> Bezier {
    Bezier { start: a.end, end: b.start, handles: BezierHandles::Linear }
}

/// Append `x y` of a point to a string under construction.
pub fn append_point_args(s: &mut String, p: Point)
    ensures
        final(s)@ == old(s)@ + point_args(p),
{
    let xs = i64_to_string(p.x);
    s.append(xs.as_str());
    s.append(" ");
    let ys = i64_to_string(p.y);
    s.append(ys.as_str());
}

} // verus!

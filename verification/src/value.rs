//! Tagged values: the closed union of the value kinds a link in the node
//! graph can carry. A tagged value is both a literal input payload and the
//! runtime type tag that the dynamic executor dispatches on.

use vstd::prelude::*;
use crate::subpath::{ManipulatorGroup, Subpath};

verus! {

/// An affine transform of the plane, stored as six integer coefficients.
#[derive(Clone, Copy, Debug, PartialEq, Eq, Structural)]
pub struct Transform2 {
    pub a: i64,
    pub b: i64,
    pub c: i64,
    pub d: i64,
    pub tx: i64,
    pub ty: i64,
}

/// An RGBA colour.
#[derive(Clone, Copy, Debug, PartialEq, Eq, Structural)]
pub struct Color {
    pub red: u8,
    pub green: u8,
    pub blue: u8,
    pub alpha: u8,
}

/// The closed union of value kinds a link can carry: scalars, text, colour,
/// plane geometry, raster frames, vector paths, grouped artwork and
/// artboards.
#[derive(Debug)]
pub enum TaggedValue {
    Empty,
    Text(String),
    Bool(bool),
    Number(i64),
    U32(u32),
    Vector2 { x: i64, y: i64 },
    Transform(Transform2),
    Color(Color),
    Image { width: u32, height: u32 },
    ImageFrame { width: u32, height: u32, transform: Transform2 },
    Path(Subpath),
    GraphicGroup(Vec<Subpath>),
    Artboard { x: i64, y: i64, width: u32, height: u32 },
}

/// The mathematical shape of a subpath value.
pub struct PathView {
    pub groups: Seq<ManipulatorGroup>,
    pub closed: bool,
}

/// The mathematical shape of a tagged value: strings become character
/// sequences, subpaths become their group sequences.
pub enum ValueView {
    Empty,
    Text(Seq<char>),
    Bool(bool),
    Number(i64),
    U32(u32),
    Vector2 { x: i64, y: i64 },
    Transform(Transform2),
    Color(Color),
    Image { width: u32, height: u32 },
    ImageFrame { width: u32, height: u32, transform: Transform2 },
    Path(PathView),
    GraphicGroup(Seq<PathView>),
    Artboard { x: i64, y: i64, width: u32, height: u32 },
}

/// The shape of one subpath.
pub open spec fn path_view(p: Subpath) -> PathView {
    PathView { groups: p.manipulator_groups@, closed: p.closed }
}

/// The shapes of a list of subpaths.
pub open spec fn paths_view(s: Seq<Subpath>) -> Seq<PathView> {
    s.map_values(|p: Subpath| path_view(p))
}

/// Viewing a list of subpaths commutes with appending one subpath.
proof fn lemma_paths_view_push(s: Seq<Subpath>, p: Subpath)
    ensures
        paths_view(s.push(p)) =~= paths_view(s).push(path_view(p)),
{
}

/// The shape of a tagged value.
pub open spec fn value_view(v: TaggedValue) -> ValueView {
    match v {
        TaggedValue::Empty => ValueView::Empty,
        TaggedValue::Text(s) => ValueView::Text(s@),
        TaggedValue::Bool(b) => ValueView::Bool(b),
        TaggedValue::Number(n) => ValueView::Number(n),
        TaggedValue::U32(n) => ValueView::U32(n),
        TaggedValue::Vector2 { x, y } => ValueView::Vector2 { x, y },
        TaggedValue::Transform(t) => ValueView::Transform(t),
        TaggedValue::Color(c) => ValueView::Color(c),
        TaggedValue::Image { width, height } => ValueView::Image { width, height },
        TaggedValue::ImageFrame { width, height, transform } => ValueView::ImageFrame {
            width,
            height,
            transform,
        },
        TaggedValue::Path(p) => ValueView::Path(path_view(p)),
        TaggedValue::GraphicGroup(v) => ValueView::GraphicGroup(paths_view(v@)),
        TaggedValue::Artboard { x, y, width, height } => ValueView::Artboard {
            x,
            y,
            width,
            height,
        },
    }
}

impl Clone for Subpath {
    /// A clone keeps the shape of the subpath.
    fn clone(&self) -> (res: Self)
        ensures
            path_view(res) == path_view(*self),
    {
        let groups = self.manipulator_groups.clone();
        proof {
            assert(groups@ =~= self.manipulator_groups@);
        }
        Subpath { manipulator_groups: groups, closed: self.closed }
    }
}

impl Clone for TaggedValue {
    /// A clone keeps the shape of the value.
    fn clone(&self) -> (res: Self)
        ensures
            value_view(res) == value_view(*self),
    {
        match self {
            TaggedValue::Empty => TaggedValue::Empty,
            TaggedValue::Text(s) => TaggedValue::Text(s.clone()),
            TaggedValue::Bool(b) => TaggedValue::Bool(*b),
            TaggedValue::Number(n) => TaggedValue::Number(*n),
            TaggedValue::U32(n) => TaggedValue::U32(*n),
            TaggedValue::Vector2 { x, y } => TaggedValue::Vector2 { x: *x, y: *y },
            TaggedValue::Transform(t) => TaggedValue::Transform(*t),
            TaggedValue::Color(c) => TaggedValue::Color(*c),
            TaggedValue::Image { width, height } => TaggedValue::Image {
                width: *width,
                height: *height,
            },
            TaggedValue::ImageFrame { width, height, transform } => TaggedValue::ImageFrame {
                width: *width,
                height: *height,
                transform: *transform,
            },
            TaggedValue::Path(p) => TaggedValue::Path(p.clone()),
            TaggedValue::GraphicGroup(v) => {
                let mut out: Vec<Subpath> = Vec::new();
                let mut i: usize = 0;
                while i < v.len()
                    invariant
                        0 <= i <= v@.len(),
                        paths_view(out@) =~= paths_view(v@).take(i as int),
                    decreases v@.len() - i,
                {
                    let p = v[i].clone();
                    proof {
                        lemma_paths_view_push(out@, p);
                        assert(paths_view(v@)[i as int] == path_view(v@[i as int]));
                        assert(paths_view(out@).push(path_view(p)) =~= paths_view(v@).take(
                            (i + 1) as int,
                        ));
                    }
                    out.push(p);
                    i = i + 1;
                }
                proof {
                    assert(paths_view(out@) =~= paths_view(v@));
                }
                TaggedValue::GraphicGroup(out)
            },
            TaggedValue::Artboard { x, y, width, height } => TaggedValue::Artboard {
                x: *x,
                y: *y,
                width: *width,
                height: *height,
            },
        }
    }
}

} // verus!

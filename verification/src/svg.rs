//! SVG rendering of subpaths: the curve itself, the handle lines, and
//! circles for the anchors and handles. Every renderer appends to a caller
//! supplied string and is specified exactly, character for character.

use vstd::prelude::*;
use vstd::string::StringExecFns;
use crate::bezier::{
    Bezier,
    Point,
    i64_to_string,
    dec_str,
    point_args,
    spec_svg_curve_argument,
    spec_svg_handle_line_argument,
};
use crate::subpath::{ManipulatorGroup, Subpath, spec_beziers};

verus! {

/// The views of a list of strings.
pub open spec fn string_views(parts: Seq<String>) -> Seq<Seq<char>> {
    parts.map_values(|p: String| p@)
}

/// Viewing a list of strings commutes with appending one string.
proof fn lemma_string_views_push(parts: Seq<String>, arg: String)
    ensures
        string_views(parts.push(arg)) =~~= string_views(parts).push(arg@),
{
}

/// The first `k` parts joined with `sep` between consecutive parts.
pub open spec fn join_prefix(parts: Seq<Seq<char>>, sep: Seq<char>, k: nat) -> Seq<char>
    decreases k,
{
    if k == 0 {
        Seq::empty()
    } else if k == 1 {
        parts[0]
    } else {
        join_prefix(parts, sep, (k - 1) as nat) + sep + parts[k - 1]
    }
}

/// All parts joined with `sep` between consecutive parts.
pub open spec fn join_parts(parts: Seq<Seq<char>>, sep: Seq<char>) -> Seq<char> {
    join_prefix(parts, sep, parts.len())
}

/// Append all parts to `text`, separated by `sep`.
fn append_joined(text: &mut String, parts: &Vec<String>, sep: &str)
    ensures
        final(text)@ == old(text)@ + join_parts(string_views(parts@), sep@),
{
    let ghost all = string_views(parts@);
    let mut i: usize = 0;
    while i < parts.len()
        invariant
            0 <= i <= parts@.len(),
            all == string_views(parts@),
            text@ =~= old(text)@ + join_prefix(all, sep@, i as nat),
        decreases parts@.len() - i,
    {
        if i > 0 {
            text.append(sep);
        }
        text.append(parts[i].as_str());
        proof {
            assert(text@ =~= old(text)@ + join_prefix(all, sep@, (i + 1) as nat));
        }
        i = i + 1;
    }
}

/// One SVG circle element centred on a point.
pub open spec fn circle_elem(p: Point, attrs: Seq<char>) -> Seq<char> {
    "<circle cx=\""@ + dec_str(p.x as int) + "\" cy=\""@ + dec_str(p.y as int) + "\" "@ + attrs
        + "/>"@
}

/// Append one SVG circle element centred on `p`.
fn append_circle(text: &mut String, p: Point, attributes: &str)
    ensures
        final(text)@ == old(text)@ + circle_elem(p, attributes@),
{
    text.append("<circle cx=\"");
    let xs = i64_to_string(p.x);
    text.append(xs.as_str());
    text.append("\" cy=\"");
    let ys = i64_to_string(p.y);
    text.append(ys.as_str());
    text.append("\" ");
    text.append(attributes);
    text.append("/>");
}

/// The path arguments of the curve: one argument per segment, and a closing
/// `Z` argument when the subpath is closed.
pub open spec fn spec_curve_parts(groups: Seq<ManipulatorGroup>, closed: bool) -> Seq<Seq<char>> {
    let args = spec_beziers(groups, closed).map_values(|b: Bezier| spec_svg_curve_argument(b));
    if closed {
        args + seq!["Z"@]
    } else {
        args
    }
}

/// The complete SVG path element for the curve of a subpath.
pub open spec fn spec_curve_svg(groups: Seq<ManipulatorGroup>, closed: bool, attrs: Seq<char>) -> Seq<
    char,
> {
    "<path d=\""@ + "M"@ + point_args(groups[0].anchor) + " "@ + join_parts(
        spec_curve_parts(groups, closed),
        " "@,
    ) + "\" "@ + attrs + "/>"@
}

/// The handle-line path arguments of the first `k` segments, in order,
/// segments without handles contributing nothing.
pub open spec fn handle_line_parts_upto(bs: Seq<Bezier>, k: nat) -> Seq<Seq<char>>
    decreases k,
{
    if k == 0 {
        Seq::empty()
    } else {
        handle_line_parts_upto(bs, (k - 1) as nat) + match spec_svg_handle_line_argument(
            bs[k - 1],
        ) {
            Option::None => Seq::empty(),
            Option::Some(t) => seq![t],
        }
    }
}

/// The complete SVG path element for the handle lines of a subpath.
pub open spec fn spec_handle_lines_svg(
    groups: Seq<ManipulatorGroup>,
    closed: bool,
    attrs: Seq<char>,
) -> Seq<char> {
    let bs = spec_beziers(groups, closed);
    "<path d=\""@ + join_parts(handle_line_parts_upto(bs, bs.len()), " "@) + "\" "@ + attrs + "/>"@
}

/// The SVG circle elements for the first `k` anchors, concatenated.
pub open spec fn anchors_upto(groups: Seq<ManipulatorGroup>, attrs: Seq<char>, k: nat) -> Seq<char>
    decreases k,
{
    if k == 0 {
        Seq::empty()
    } else {
        anchors_upto(groups, attrs, (k - 1) as nat) + circle_elem(groups[k - 1].anchor, attrs)
    }
}

/// The concatenated SVG circle elements for all anchors of a subpath.
pub open spec fn spec_anchors_svg(groups: Seq<ManipulatorGroup>, attrs: Seq<char>) -> Seq<char> {
    anchors_upto(groups, attrs, groups.len())
}

/// The SVG circle elements for the handles of one group: the incoming handle
/// first, then the outgoing one, absent handles contributing nothing.
pub open spec fn group_handle_circles(g: ManipulatorGroup, attrs: Seq<char>) -> Seq<char> {
    (match g.in_handle {
        Option::None => Seq::<char>::empty(),
        Option::Some(h) => circle_elem(h, attrs),
    }) + (match g.out_handle {
        Option::None => Seq::<char>::empty(),
        Option::Some(h) => circle_elem(h, attrs),
    })
}

/// The SVG circle elements for the handles of the first `k` groups.
pub open spec fn handles_upto(groups: Seq<ManipulatorGroup>, attrs: Seq<char>, k: nat) -> Seq<char>
    decreases k,
{
    if k == 0 {
        Seq::empty()
    } else {
        handles_upto(groups, attrs, (k - 1) as nat) + group_handle_circles(groups[k - 1], attrs)
    }
}

/// The concatenated SVG circle elements for all handles of a subpath.
pub open spec fn spec_handles_svg(groups: Seq<ManipulatorGroup>, attrs: Seq<char>) -> Seq<char> {
    handles_upto(groups, attrs, groups.len())
}

impl Subpath {
    /// Append an SVG shape representation of the curve to `svg`.
    pub fn curve_to_svg(&self, svg: &mut String, attributes: String)
        requires
            self.manipulator_groups@.len() > 0,
        ensures
            final(svg)@ == old(svg)@ + spec_curve_svg(
                self.manipulator_groups@,
                self.closed,
                attributes@,
            ),
    {
        let ghost full = spec_beziers(self.manipulator_groups@, self.closed).map_values(
            |b: Bezier| spec_svg_curve_argument(b),
        );
        let bz = self.beziers();
        let mut parts: Vec<String> = Vec::new();
        let mut i: usize = 0;
        while i < bz.len()
            invariant
                0 <= i <= bz@.len(),
                bz@ == spec_beziers(self.manipulator_groups@, self.closed),
                full == bz@.map_values(|b: Bezier| spec_svg_curve_argument(b)),
                string_views(parts@) =~~= full.take(i as int),
            decreases bz@.len() - i,
        {
            let arg = bz[i].svg_curve_argument();
            proof {
                lemma_string_views_push(parts@, arg);
                assert(full[i as int] == spec_svg_curve_argument(bz@[i as int]));
                assert(string_views(parts@).push(arg@) =~~= full.take((i + 1) as int));
            }
            parts.push(arg);
            proof {
                assert(string_views(parts@) =~~= full.take((i + 1) as int));
            }
            i = i + 1;
        }
        proof {
            assert(full.take(bz@.len() as int) =~~= full);
        }
        if self.closed {
            let z = "Z".to_owned();
            proof {
                lemma_string_views_push(parts@, z);
                assert(string_views(parts@).push(z@) =~~= spec_curve_parts(
                    self.manipulator_groups@,
                    self.closed,
                ));
            }
            parts.push(z);
        }
        proof {
            assert(string_views(parts@) =~~= spec_curve_parts(
                self.manipulator_groups@,
                self.closed,
            ));
        }
        let mut text = "<path d=\"".to_owned();
        text.append("M");
        crate::bezier::append_point_args(&mut text, self.manipulator_groups[0].anchor);
        text.append(" ");
        append_joined(&mut text, &parts, " ");
        text.append("\" ");
        text.append(attributes.as_str());
        text.append("/>");
        svg.append(text.as_str());
        proof {
            assert(svg@ =~= old(svg)@ + spec_curve_svg(
                self.manipulator_groups@,
                self.closed,
                attributes@,
            ));
        }
    }

    /// Append an SVG shape representation of the handle lines to `svg`.
    pub fn handle_lines_to_svg(&self, svg: &mut String, attributes: String)
        ensures
            final(svg)@ == old(svg)@ + spec_handle_lines_svg(
                self.manipulator_groups@,
                self.closed,
                attributes@,
            ),
    {
        let ghost bs = spec_beziers(self.manipulator_groups@, self.closed);
        let bz = self.beziers();
        let mut parts: Vec<String> = Vec::new();
        let mut i: usize = 0;
        while i < bz.len()
            invariant
                0 <= i <= bz@.len(),
                bz@ == bs,
                string_views(parts@) =~~= handle_line_parts_upto(bs, i as nat),
            decreases bz@.len() - i,
        {
            match bz[i].svg_handle_line_argument() {
                Option::Some(arg) => {
                    proof {
                        lemma_string_views_push(parts@, arg);
                        assert(string_views(parts@).push(arg@) =~~= handle_line_parts_upto(
                            bs,
                            (i + 1) as nat,
                        ));
                    }
                    parts.push(arg);
                },
                Option::None => {},
            }
            proof {
                assert(string_views(parts@) =~~= handle_line_parts_upto(bs, (i + 1) as nat));
            }
            i = i + 1;
        }
        let mut text = "<path d=\"".to_owned();
        append_joined(&mut text, &parts, " ");
        text.append("\" ");
        text.append(attributes.as_str());
        text.append("/>");
        svg.append(text.as_str());
        proof {
            assert(svg@ =~= old(svg)@ + spec_handle_lines_svg(
                self.manipulator_groups@,
                self.closed,
                attributes@,
            ));
        }
    }

    /// Append an SVG shape representation of the anchors to `svg`.
    pub fn anchors_to_svg(&self, svg: &mut String, attributes: String)
        ensures
            final(svg)@ == old(svg)@ + spec_anchors_svg(self.manipulator_groups@, attributes@),
    {
        let mut text = String::new();
        let mut i: usize = 0;
        while i < self.manipulator_groups.len()
            invariant
                0 <= i <= self.manipulator_groups@.len(),
                text@ =~= anchors_upto(self.manipulator_groups@, attributes@, i as nat),
            decreases self.manipulator_groups@.len() - i,
        {
            append_circle(&mut text, self.manipulator_groups[i].anchor, attributes.as_str());
            i = i + 1;
        }
        svg.append(text.as_str());
        proof {
            assert(svg@ =~= old(svg)@ + spec_anchors_svg(self.manipulator_groups@, attributes@));
        }
    }

    /// Append an SVG shape representation of the handles to `svg`.
    pub fn handles_to_svg(&self, svg: &mut String, attributes: String)
        ensures
            final(svg)@ == old(svg)@ + spec_handles_svg(self.manipulator_groups@, attributes@),
    {
        let mut text = String::new();
        let mut i: usize = 0;
        while i < self.manipulator_groups.len()
            invariant
                0 <= i <= self.manipulator_groups@.len(),
                text@ =~= handles_upto(self.manipulator_groups@, attributes@, i as nat),
            decreases self.manipulator_groups@.len() - i,
        {
            let g = self.manipulator_groups[i];
            match g.in_handle {
                Option::Some(h) => append_circle(&mut text, h, attributes.as_str()),
                Option::None => {},
            }
            match g.out_handle {
                Option::Some(h) => append_circle(&mut text, h, attributes.as_str()),
                Option::None => {},
            }
            proof {
                assert(text@ =~= handles_upto(self.manipulator_groups@, attributes@, (i + 1) as nat));
            }
            i = i + 1;
        }
        svg.append(text.as_str());
        proof {
            assert(svg@ =~= old(svg)@ + spec_handles_svg(self.manipulator_groups@, attributes@));
        }
    }

    /// Append a full SVG representation — curve, handle lines, anchors and
    /// handles — to `svg`, rendering each part only when its attribute
    /// string is non-empty.
    pub fn to_svg(
        &self,
        svg: &mut String,
        curve_attributes: String,
        anchor_attributes: String,
        handle_attributes: String,
        handle_line_attributes: String,
    )
        requires
            curve_attributes@.len() > 0 ==> self.manipulator_groups@.len() > 0,
        ensures
            final(svg)@ == old(svg)@ + (if curve_attributes@.len() > 0 {
                spec_curve_svg(self.manipulator_groups@, self.closed, curve_attributes@)
            } else {
                Seq::<char>::empty()
            }) + (if handle_line_attributes@.len() > 0 {
                spec_handle_lines_svg(self.manipulator_groups@, self.closed, handle_line_attributes@)
            } else {
                Seq::<char>::empty()
            }) + (if anchor_attributes@.len() > 0 {
                spec_anchors_svg(self.manipulator_groups@, anchor_attributes@)
            } else {
                Seq::<char>::empty()
            }) + (if handle_attributes@.len() > 0 {
                spec_handles_svg(self.manipulator_groups@, handle_attributes@)
            } else {
                Seq::<char>::empty()
            }),
    {
        if !curve_attributes.as_str().is_empty() {
            self.curve_to_svg(svg, curve_attributes);
        }
        if !handle_line_attributes.as_str().is_empty() {
            self.handle_lines_to_svg(svg, handle_line_attributes);
        }
        if !anchor_attributes.as_str().is_empty() {
            self.anchors_to_svg(svg, anchor_attributes);
        }
        if !handle_attributes.as_str().is_empty() {
            self.handles_to_svg(svg, handle_attributes);
        }
        proof {
            assert(svg@ =~= old(svg)@ + (if curve_attributes@.len() > 0 {
                spec_curve_svg(self.manipulator_groups@, self.closed, curve_attributes@)
            } else {
                Seq::<char>::empty()
            }) + (if handle_line_attributes@.len() > 0 {
                spec_handle_lines_svg(self.manipulator_groups@, self.closed, handle_line_attributes@)
            } else {
                Seq::<char>::empty()
            }) + (if anchor_attributes@.len() > 0 {
                spec_anchors_svg(self.manipulator_groups@, anchor_attributes@)
            } else {
                Seq::<char>::empty()
            }) + (if handle_attributes@.len() > 0 {
                spec_handles_svg(self.manipulator_groups@, handle_attributes@)
            } else {
                Seq::<char>::empty()
            }));
        }
    }
}

} // verus!

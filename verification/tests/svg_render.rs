//! Subpaths and their SVG rendering: constructors, segment iteration, and
//! the exact rendered text.

use node_graph::bezier::{i64_to_string, Bezier, BezierHandles, Point};
use node_graph::subpath::{ManipulatorGroup, Subpath};

fn p(x: i64, y: i64) -> Point {
    Point { x, y }
}

#[test]
fn decimal_rendering_is_exact() {
    assert_eq!(i64_to_string(0), "0");
    assert_eq!(i64_to_string(42), "42");
    assert_eq!(i64_to_string(-7), "-7");
    assert_eq!(i64_to_string(1204), "1204");
    assert_eq!(i64_to_string(i64::MIN), "-9223372036854775808");
    assert_eq!(i64_to_string(i64::MAX), "9223372036854775807");
}

#[test]
fn from_bezier_builds_two_groups() {
    let b = Bezier::from_cubic(p(0, 0), p(1, 2), p(3, 4), p(5, 6));
    let subpath = Subpath::from_bezier(b);
    assert!(!subpath.closed);
    assert_eq!(subpath.len(), 2);
    assert!(!subpath.is_empty());
    let first = subpath.manipulator_groups[0];
    let second = subpath.manipulator_groups[1];
    assert_eq!(first.anchor, p(0, 0));
    assert_eq!(first.in_handle, None);
    assert_eq!(first.out_handle, Some(p(1, 2)));
    assert_eq!(second.anchor, p(5, 6));
    assert_eq!(second.in_handle, Some(p(3, 4)));
    assert_eq!(second.out_handle, None);
}

#[test]
fn from_beziers_shares_groups_where_segments_meet() {
    let a = Bezier::from_linear(p(0, 0), p(10, 0));
    let b = Bezier::from_linear(p(10, 0), p(10, 10));
    let subpath = Subpath::from_beziers(&vec![a, b], false);
    assert!(!subpath.closed);
    assert_eq!(subpath.len(), 3);
    assert_eq!(subpath.manipulator_groups[0].anchor, p(0, 0));
    assert_eq!(subpath.manipulator_groups[2].anchor, p(10, 10));
}

#[test]
fn from_beziers_bridges_gaps_with_a_join() {
    let a = Bezier::from_linear(p(0, 0), p(10, 0));
    let b = Bezier::from_linear(p(20, 0), p(30, 0));
    let subpath = Subpath::from_beziers(&vec![a, b], false);
    // The pair does not meet, so the gap is bridged: two groups for the
    // pair plus the head and tail groups.
    assert_eq!(subpath.len(), 4);
}

#[test]
fn closed_from_beziers_wraps_the_first_group() {
    let a = Bezier::from_linear(p(0, 0), p(10, 0));
    let b = Bezier::from_linear(p(10, 0), p(0, 0));
    let subpath = Subpath::from_beziers(&vec![a, b], true);
    assert!(subpath.closed);
    assert_eq!(subpath.len(), 2);
}

#[test]
fn iter_walks_the_segments() {
    let groups = vec![
        ManipulatorGroup {
            anchor: p(0, 0),
            in_handle: None,
            out_handle: Some(p(1, 1)),
        },
        ManipulatorGroup {
            anchor: p(10, 0),
            in_handle: Some(p(9, 1)),
            out_handle: None,
        },
        ManipulatorGroup {
            anchor: p(20, 0),
            in_handle: None,
            out_handle: None,
        },
    ];
    let subpath = Subpath::new(groups, false);
    let mut iter = subpath.iter();
    let first = iter.next().expect("first segment");
    assert_eq!(first.start, p(0, 0));
    assert_eq!(first.end, p(10, 0));
    assert!(matches!(first.handles, BezierHandles::Cubic { .. }));
    let second = iter.next().expect("second segment");
    assert_eq!(second.start, p(10, 0));
    assert_eq!(second.end, p(20, 0));
    assert!(matches!(second.handles, BezierHandles::Linear));
    assert!(iter.next().is_none());
}

#[test]
fn segment_accessors_and_join() {
    let q = Bezier::from_quadratic(p(0, 0), p(5, 5), p(10, 0));
    assert_eq!(q.start(), p(0, 0));
    assert_eq!(q.end(), p(10, 0));
    assert_eq!(q.handle_start(), Some(p(5, 5)));
    assert_eq!(q.handle_end(), None);
    let r = Bezier::from_linear(p(20, 0), p(30, 0));
    let bridge = q.join(&r);
    assert_eq!(bridge.start, p(10, 0));
    assert_eq!(bridge.end, p(20, 0));
    assert!(matches!(bridge.handles, BezierHandles::Linear));
}

#[test]
fn curve_to_svg_renders_the_exact_path() {
    let groups = vec![
        ManipulatorGroup {
            anchor: p(0, 0),
            in_handle: None,
            out_handle: None,
        },
        ManipulatorGroup {
            anchor: p(10, 5),
            in_handle: None,
            out_handle: None,
        },
    ];
    let subpath = Subpath::new(groups, false);
    let mut svg = String::new();
    subpath.curve_to_svg(&mut svg, "stroke=\"black\"".to_string());
    assert_eq!(svg, "<path d=\"M0 0 L10 5\" stroke=\"black\"/>");
}

#[test]
fn closed_curve_appends_the_closing_argument() {
    let groups = vec![
        ManipulatorGroup {
            anchor: p(0, 0),
            in_handle: None,
            out_handle: None,
        },
        ManipulatorGroup {
            anchor: p(10, 0),
            in_handle: None,
            out_handle: None,
        },
        ManipulatorGroup {
            anchor: p(5, 8),
            in_handle: None,
            out_handle: None,
        },
    ];
    let subpath = Subpath::new(groups, true);
    let mut svg = String::new();
    subpath.curve_to_svg(&mut svg, "s".to_string());
    assert_eq!(svg, "<path d=\"M0 0 L10 0 L5 8 L0 0 Z\" s/>");
}

#[test]
fn curved_segments_render_their_handles() {
    let groups = vec![
        ManipulatorGroup {
            anchor: p(0, 0),
            in_handle: None,
            out_handle: Some(p(2, 3)),
        },
        ManipulatorGroup {
            anchor: p(10, 0),
            in_handle: Some(p(8, 3)),
            out_handle: None,
        },
    ];
    let subpath = Subpath::new(groups, false);
    let mut svg = String::new();
    subpath.curve_to_svg(&mut svg, "a".to_string());
    assert_eq!(svg, "<path d=\"M0 0 C2 3 8 3 10 0\" a/>");
}

#[test]
fn anchors_and_handles_to_svg_render_circles() {
    let groups = vec![
        ManipulatorGroup {
            anchor: p(1, 2),
            in_handle: None,
            out_handle: Some(p(3, 4)),
        },
        ManipulatorGroup {
            anchor: p(5, 6),
            in_handle: Some(p(7, 8)),
            out_handle: None,
        },
    ];
    let subpath = Subpath::new(groups, false);
    let mut anchors = String::new();
    subpath.anchors_to_svg(&mut anchors, "r=\"2\"".to_string());
    assert_eq!(
        anchors,
        "<circle cx=\"1\" cy=\"2\" r=\"2\"/><circle cx=\"5\" cy=\"6\" r=\"2\"/>"
    );
    let mut handles = String::new();
    subpath.handles_to_svg(&mut handles, "h".to_string());
    assert_eq!(
        handles,
        "<circle cx=\"3\" cy=\"4\" h/><circle cx=\"7\" cy=\"8\" h/>"
    );
}

#[test]
fn handle_lines_to_svg_renders_moves_and_lines() {
    let groups = vec![
        ManipulatorGroup {
            anchor: p(0, 0),
            in_handle: None,
            out_handle: Some(p(2, 2)),
        },
        ManipulatorGroup {
            anchor: p(10, 0),
            in_handle: None,
            out_handle: None,
        },
    ];
    let subpath = Subpath::new(groups, false);
    let mut svg = String::new();
    subpath.handle_lines_to_svg(&mut svg, "l".to_string());
    assert_eq!(svg, "<path d=\"M0 0 L2 2\" l/>");
}

#[test]
fn to_svg_renders_only_requested_parts() {
    let groups = vec![
        ManipulatorGroup {
            anchor: p(0, 0),
            in_handle: None,
            out_handle: None,
        },
        ManipulatorGroup {
            anchor: p(4, 0),
            in_handle: None,
            out_handle: None,
        },
    ];
    let subpath = Subpath::new(groups, false);
    let mut svg = String::new();
    subpath.to_svg(
        &mut svg,
        "c".to_string(),
        "a".to_string(),
        String::new(),
        String::new(),
    );
    assert_eq!(
        svg,
        "<path d=\"M0 0 L4 0\" c/><circle cx=\"0\" cy=\"0\" a/><circle cx=\"4\" cy=\"0\" a/>"
    );
}

#[test]
fn empty_subpath_from_no_beziers() {
    let subpath = Subpath::from_beziers(&Vec::new(), false);
    assert!(subpath.is_empty());
    assert_eq!(subpath.len(), 0);
    assert!(subpath.iter().next().is_none());
}

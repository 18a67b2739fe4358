//! Subpaths: open or closed chains of manipulator groups, each an anchor
//! point with optional incoming and outgoing control handles, together with
//! their SVG rendering.

use vstd::prelude::*;
use vstd::string::*;
use crate::bezier::{Bezier, BezierHandles, Point, spec_handle_start, spec_handle_end, spec_join};

verus! {

/// One anchor of a subpath with its optional control handles.
#[derive(Clone, Copy, Debug, PartialEq, Eq, Structural)]
pub struct ManipulatorGroup {
    pub anchor: Point,
    pub in_handle: Option<Point>,
    pub out_handle: Option<Point>,
}

/// An open or closed chain of manipulator groups.
#[derive(Debug)]
pub struct Subpath {
    pub manipulator_groups: Vec<ManipulatorGroup>,
    pub closed: bool,
}

/// Iterator over the curve segments of a subpath.
#[derive(Debug)]
pub struct SubpathIter {
    pub beziers: Vec<Bezier>,
    pub index: usize,
}

impl SubpathIter {
    /// The next curve segment, if one is left.
    pub fn next(&mut self) -> (r: Option<Bezier>)
        ensures
            old(self).index < old(self).beziers@.len() ==> r == Option::Some(
                old(self).beziers@[old(self).index as int],
            ) && final(self).index == old(self).index + 1,
            old(self).index >= old(self).beziers@.len() ==> r is None && *final(self) == *old(
                self,
            ),
            final(self).beziers == old(self).beziers,
    {
        if self.index < self.beziers.len() {
            let b = self.beziers[self.index];
            self.index = self.index + 1;
            Option::Some(b)
        } else {
            Option::None
        }
    }
}

/// The curve segment between two consecutive manipulator groups: the handles
/// present on the facing sides decide whether it is a line, a quadratic or a
/// cubic segment.
pub open spec fn segment_between(g0: ManipulatorGroup, g1: ManipulatorGroup) -> Bezier {
    match (g0.out_handle, g1.in_handle) {
        (Option::None, Option::None) => Bezier {
            start: g0.anchor,
            end: g1.anchor,
            handles: BezierHandles::Linear,
        },
        (Option::Some(h), Option::None) => Bezier {
            start: g0.anchor,
            end: g1.anchor,
            handles: BezierHandles::Quadratic { handle: h },
        },
        (Option::None, Option::Some(h)) => Bezier {
            start: g0.anchor,
            end: g1.anchor,
            handles: BezierHandles::Quadratic { handle: h },
        },
        (Option::Some(a), Option::Some(b)) => Bezier {
            start: g0.anchor,
            end: g1.anchor,
            handles: BezierHandles::Cubic { handle_start: a, handle_end: b },
        },
    }
}

/// The curve segments of a subpath: one per consecutive pair of groups, plus
/// the wrapping segment when the subpath is closed. A subpath with fewer than
/// two groups has no segments.
pub open spec fn spec_beziers(groups: Seq<ManipulatorGroup>, closed: bool) -> Seq<Bezier> {
    let n = groups.len();
    if n < 2 {
        Seq::empty()
    } else {
        Seq::new(
            if closed {
                n
            } else {
                (n - 1) as nat
            },
            |i: int| segment_between(groups[i], groups[(i + 1) % (n as int)]),
        )
    }
}

/// The inner manipulator groups produced from the first `k` adjacent pairs of
/// a segment list: a shared group where a pair meets exactly, two groups
/// bridged by a joining segment where it does not.
pub open spec fn inner_groups_upto(bz: Seq<Bezier>, k: nat) -> Seq<ManipulatorGroup>
    decreases k,
{
    if k == 0 {
        Seq::empty()
    } else {
        inner_groups_upto(bz, (k - 1) as nat) + pair_groups(bz[k - 1], bz[k as int])
    }
}

/// The groups contributed by one adjacent pair of segments.
pub open spec fn pair_groups(a: Bezier, b: Bezier) -> Seq<ManipulatorGroup> {
    if a.end == b.start {
        seq![
            ManipulatorGroup {
                anchor: a.start,
                in_handle: spec_handle_end(a),
                out_handle: spec_handle_start(b),
            },
        ]
    } else {
        seq![
            ManipulatorGroup {
                anchor: a.end,
                in_handle: spec_handle_end(a),
                out_handle: spec_handle_start(spec_join(a, b)),
            },
            ManipulatorGroup {
                anchor: b.start,
                in_handle: spec_handle_end(spec_join(a, b)),
                out_handle: spec_handle_start(b),
            },
        ]
    }
}

/// The manipulator groups a subpath built from a segment list holds.
pub open spec fn spec_from_beziers(bz: Seq<Bezier>, closed: bool) -> Seq<ManipulatorGroup> {
    if bz.len() == 0 {
        Seq::empty()
    } else {
        let first = bz[0];
        let last = bz[bz.len() - 1];
        let head = seq![
            ManipulatorGroup {
                anchor: first.start,
                in_handle: Option::None,
                out_handle: spec_handle_start(first),
            },
        ];
        let body = head + inner_groups_upto(bz, (bz.len() - 1) as nat);
        if !closed {
            body + seq![
                ManipulatorGroup {
                    anchor: last.end,
                    in_handle: spec_handle_end(first),
                    out_handle: Option::None,
                },
            ]
        } else if first.start == last.end {
            body.update(0, ManipulatorGroup { in_handle: spec_handle_end(last), ..body[0] })
        } else {
            let joining = spec_join(last, first);
            let extended = body + seq![
                ManipulatorGroup {
                    anchor: last.end,
                    in_handle: spec_handle_end(last),
                    out_handle: spec_handle_start(joining),
                },
            ];
            extended.update(
                0,
                ManipulatorGroup { in_handle: spec_handle_end(joining), ..extended[0] },
            )
        }
    }
}

/// Each adjacent pair contributes at least one inner group.
proof fn lemma_inner_groups_upto_len(bz: Seq<Bezier>, k: nat)
    ensures
        inner_groups_upto(bz, k).len() >= k,
    decreases k,
{
    if k > 0 {
        lemma_inner_groups_upto_len(bz, (k - 1) as nat);
    }
}

impl Subpath {
    /// Create a new subpath from a list of manipulator groups. A subpath
    /// with fewer than two groups may not be closed.
    pub fn new(manipulator_groups: Vec<ManipulatorGroup>, closed: bool) -> (r: Subpath)
        requires
            !closed || manipulator_groups@.len() > 1,
        ensures
            r.manipulator_groups == manipulator_groups,
            r.closed == closed,
    {
        Subpath { manipulator_groups, closed }
    }

    /// Create an open subpath of two manipulator groups from a single
    /// segment.
    pub fn from_bezier(bezier: Bezier) -> (r: Subpath)
        ensures
            r.closed == false,
            r.manipulator_groups@ =~= seq![
                ManipulatorGroup {
                    anchor: bezier.start,
                    in_handle: Option::None,
                    out_handle: spec_handle_start(bezier),
                },
                ManipulatorGroup {
                    anchor: bezier.end,
                    in_handle: spec_handle_end(bezier),
                    out_handle: Option::None,
                },
            ],
    {
        let mut groups: Vec<ManipulatorGroup> = Vec::new();
        groups.push(
            ManipulatorGroup {
                anchor: bezier.start(),
                in_handle: Option::None,
                out_handle: bezier.handle_start(),
            },
        );
        groups.push(
            ManipulatorGroup {
                anchor: bezier.end(),
                in_handle: bezier.handle_end(),
                out_handle: Option::None,
            },
        );
        Subpath::new(groups, false)
    }

    /// Create a subpath from a list of segments. Where two consecutive
    /// segments do not share an end and start point, a straight joining
    /// segment bridges the gap.
    pub fn from_beziers(beziers: &Vec<Bezier>, closed: bool) -> (r: Subpath)
        requires
            !closed || beziers@.len() > 1,
        ensures
            r.closed == closed,
            r.manipulator_groups@ == spec_from_beziers(beziers@, closed),
    {
        let n = beziers.len();
        if n == 0 {
            let empty: Vec<ManipulatorGroup> = Vec::new();
            proof {
                assert(empty@ =~= spec_from_beziers(beziers@, closed));
            }
            return Subpath::new(empty, closed);
        }
        let first = beziers[0];
        let last = beziers[n - 1];

        let mut groups: Vec<ManipulatorGroup> = Vec::new();
        groups.push(
            ManipulatorGroup {
                anchor: first.start(),
                in_handle: Option::None,
                out_handle: first.handle_start(),
            },
        );
        let ghost head = groups@;

        let mut i: usize = 1;
        while i < n
            invariant
                1 <= i <= n,
                n == beziers@.len(),
                groups@ =~= head + inner_groups_upto(beziers@, (i - 1) as nat),
                head.len() == 1,
            decreases n - i,
        {
            let a = beziers[i - 1];
            let b = beziers[i];
            if a.end() == b.start() {
                groups.push(
                    ManipulatorGroup {
                        anchor: a.start(),
                        in_handle: a.handle_end(),
                        out_handle: b.handle_start(),
                    },
                );
            } else {
                let joining = a.join(&b);
                groups.push(
                    ManipulatorGroup {
                        anchor: a.end(),
                        in_handle: a.handle_end(),
                        out_handle: joining.handle_start(),
                    },
                );
                groups.push(
                    ManipulatorGroup {
                        anchor: b.start(),
                        in_handle: joining.handle_end(),
                        out_handle: b.handle_start(),
                    },
                );
            }
            i = i + 1;
        }

        if !closed {
            groups.push(
                ManipulatorGroup {
                    anchor: last.end(),
                    in_handle: first.handle_end(),
                    out_handle: Option::None,
                },
            );
            proof {
                assert(groups@ =~= spec_from_beziers(beziers@, closed));
            }
            return Subpath::new(groups, false);
        }
        proof {
            lemma_inner_groups_upto_len(beziers@, (n - 1) as nat);
        }
        if first.start() == last.end() {
            let mut g0 = groups[0];
            g0.in_handle = last.handle_end();
            groups.set(0, g0);
            proof {
                assert(groups@ =~= spec_from_beziers(beziers@, closed));
            }
            Subpath::new(groups, true)
        } else {
            let joining = last.join(&first);
            groups.push(
                ManipulatorGroup {
                    anchor: last.end(),
                    in_handle: last.handle_end(),
                    out_handle: joining.handle_start(),
                },
            );
            let mut g0 = groups[0];
            g0.in_handle = joining.handle_end();
            groups.set(0, g0);
            proof {
                assert(groups@ =~= spec_from_beziers(beziers@, closed));
            }
            Subpath::new(groups, true)
        }
    }

    /// Whether the subpath contains no manipulator group.
    pub fn is_empty(&self) -> (r: bool)
        ensures
            r == (self.manipulator_groups@.len() == 0),
    {
        self.manipulator_groups.is_empty()
    }

    /// The number of manipulator groups in the subpath.
    pub fn len(&self) -> (r: usize)
        ensures
            r == self.manipulator_groups@.len(),
    {
        self.manipulator_groups.len()
    }

    /// The curve segments of the subpath, in order.
    pub fn beziers(&self) -> (r: Vec<Bezier>)
        ensures
            r@ == spec_beziers(self.manipulator_groups@, self.closed),
    {
        let n = self.manipulator_groups.len();
        let mut out: Vec<Bezier> = Vec::new();
        if n < 2 {
            proof {
                assert(out@ =~= spec_beziers(self.manipulator_groups@, self.closed));
            }
            return out;
        }
        let count: usize = if self.closed {
            n
        } else {
            n - 1
        };
        let mut i: usize = 0;
        while i < count
            invariant
                0 <= i <= count,
                n == self.manipulator_groups@.len(),
                2 <= n,
                count == if self.closed {
                    n as int
                } else {
                    n - 1
                },
                out@ =~= spec_beziers(self.manipulator_groups@, self.closed).take(i as int),
            decreases count - i,
        {
            let g0 = self.manipulator_groups[i];
            let g1 = self.manipulator_groups[if i + 1 == n {
                0
            } else {
                i + 1
            }];
            let b = match (g0.out_handle, g1.in_handle) {
                (Option::None, Option::None) => Bezier {
                    start: g0.anchor,
                    end: g1.anchor,
                    handles: BezierHandles::Linear,
                },
                (Option::Some(h), Option::None) => Bezier {
                    start: g0.anchor,
                    end: g1.anchor,
                    handles: BezierHandles::Quadratic { handle: h },
                },
                (Option::None, Option::Some(h)) => Bezier {
                    start: g0.anchor,
                    end: g1.anchor,
                    handles: BezierHandles::Quadratic { handle: h },
                },
                (Option::Some(hs), Option::Some(he)) => Bezier {
                    start: g0.anchor,
                    end: g1.anchor,
                    handles: BezierHandles::Cubic { handle_start: hs, handle_end: he },
                },
            };
            proof {
                let groups = self.manipulator_groups@;
                if i + 1 == n {
                    vstd::arithmetic::div_mod::lemma_mod_self_0(n as int);
                } else {
                    vstd::arithmetic::div_mod::lemma_small_mod((i + 1) as nat, n as nat);
                }
                assert((i + 1) % (n as int) == if i + 1 == n {
                    0int
                } else {
                    i + 1
                });
                assert(b == segment_between(groups[i as int], groups[(i + 1) % (n as int)]));
                assert(b == spec_beziers(groups, self.closed)[i as int]);
            }
            out.push(b);
            proof {
                assert(out@ =~= spec_beziers(self.manipulator_groups@, self.closed).take(
                    (i + 1) as int,
                ));
            }
            i = i + 1;
        }
        proof {
            assert(out@ =~= spec_beziers(self.manipulator_groups@, self.closed));
        }
        out
    }

    /// An iterator over the curve segments of the subpath.
    pub fn iter(&self) -> (r: SubpathIter)
        ensures
            r.beziers@ == spec_beziers(self.manipulator_groups@, self.closed),
            r.index == 0,
    {
        SubpathIter { beziers: self.beziers(), index: 0 }
    }
}

} // verus!

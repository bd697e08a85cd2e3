//! The free-space diagram as the verifier reads it, and the rule that ties
//! its corner markers to the boundaries on the incident edges.

use vstd::prelude::*;
use crate::scalar::Scalar;
use crate::scalar::ONE_BITS;
use crate::text::decimal;
use crate::text::push_decimal;

verus! {

/// The free part of one unit edge: the interval from `start` to `end`, both
/// offsets along the edge.
#[derive(Clone, Copy, Debug, PartialEq, Eq, Structural)]
pub struct Boundary {
    pub start: Scalar,
    pub end: Scalar,
}

/// The two thresholds of the corner rule. The engine's tolerance is `eps`;
/// `one_less_eps` is one minus that tolerance, rounded as the engine rounds.
#[derive(Clone, Copy, Debug, PartialEq, Eq, Structural)]
pub struct Tolerance {
    pub eps: Scalar,
    pub one_less_eps: Scalar,
}

/// Which of the two edges that meet a vertex along one axis: the one that
/// leaves it, or the one that arrives at it.
#[derive(Clone, Copy, Debug, PartialEq, Eq, Structural)]
pub enum Side {
    Current,
    Previous,
}

/// The way an edge can contradict the corner marker of its vertex.
#[derive(Clone, Copy, Debug, PartialEq, Eq, Structural)]
pub enum Defect {
    /// The vertex is unmarked, yet the boundary touches it exactly.
    Unexpected,
    /// The vertex is marked, yet the edge has no boundary.
    Missing,
    /// The vertex is marked, yet the boundary stays away from it by the
    /// tolerance or more.
    OutOfTolerance,
}

/// One place the verifier looks at: a vertex, an axis, and a side.
#[derive(Clone, Copy, Debug, PartialEq, Eq, Structural)]
pub struct Site {
    pub i: usize,
    pub j: usize,
    pub axis: usize,
    pub side: Side,
}

/// A site that breaks the corner rule, and how.
#[derive(Clone, Copy, Debug, PartialEq, Eq, Structural)]
pub struct CornerViolation {
    pub site: Site,
    pub defect: Defect,
}

impl Site {
    /// The edge coordinate across the axis.
    pub open spec fn x(self) -> int {
        if self.axis == 0 {
            self.i as int
        } else {
            self.j as int
        }
    }

    /// The edge coordinate along the axis, the vertex's own.
    pub open spec fn y(self) -> int {
        if self.axis == 0 {
            self.j as int
        } else {
            self.i as int
        }
    }

    /// The coordinate along the axis of the edge that the site names.
    pub open spec fn edge_y(self) -> int {
        match self.side {
            Side::Current => self.y(),
            Side::Previous => self.y() - 1,
        }
    }

    /// Scan order: vertices row by row, at each vertex axis 0 before axis 1,
    /// on each axis the current edge before the previous one.
    pub open spec fn precedes(self, other: Site) -> bool {
        self.j < other.j || (self.j == other.j && (self.i < other.i || (self.i == other.i && (
        self.axis < other.axis || (self.axis == other.axis && self.side == Side::Current
            && other.side == Side::Previous)))))
    }
}

/// A free-space diagram over an `n` by `m` lattice: a marker on every
/// vertex, and for each axis a grid of edges, each with its boundary or none.
///
/// On axis 0 the edge `(x, y)` leaves vertex `(x, y)`; on axis 1 it leaves
/// vertex `(y, x)`. Each axis has its own height, the number of edges along
/// it, which is at least the lattice's extent along that axis less one, so
/// that every vertex but those in the first row has a previous edge.
pub struct Diagram {
    n: usize,
    m: usize,
    heights: (usize, usize),
    corners: Vec<Vec<bool>>,
    edges: (Vec<Vec<Option<Boundary>>>, Vec<Vec<Option<Boundary>>>),
}

impl Diagram {
    /// The lattice's extent in `i`.
    pub closed spec fn dim_n(&self) -> nat {
        self.n as nat
    }

    /// The lattice's extent in `j`.
    pub closed spec fn dim_m(&self) -> nat {
        self.m as nat
    }

    /// The number of edges along an axis.
    pub closed spec fn height_of(&self, axis: int) -> nat {
        if axis == 0 {
            self.heights.0 as nat
        } else {
            self.heights.1 as nat
        }
    }

    /// The number of edges across an axis.
    pub open spec fn width_of(&self, axis: int) -> nat {
        if axis == 0 {
            self.dim_n()
        } else {
            self.dim_m()
        }
    }

    /// The number of vertices along an axis.
    pub open spec fn extent_of(&self, axis: int) -> nat {
        if axis == 0 {
            self.dim_m()
        } else {
            self.dim_n()
        }
    }

    /// The marker of vertex `(i, j)`.
    pub closed spec fn has_corner(&self, i: int, j: int) -> bool {
        self.corners[j][i]
    }

    /// The boundary of edge `(axis, x, y)`.
    pub closed spec fn boundary(&self, axis: int, x: int, y: int) -> Option<Boundary> {
        if axis == 0 {
            self.edges.0[y][x]
        } else {
            self.edges.1[y][x]
        }
    }

    /// What holds of every diagram that the constructor hands out.
    pub closed spec fn wf(&self) -> bool {
        &&& self.m <= self.heights.0 + 1
        &&& self.n <= self.heights.1 + 1
        &&& self.corners.len() == self.m
        &&& forall|j: int| 0 <= j < self.m ==> (#[trigger] self.corners[j]).len() == self.n
        &&& self.edges.0.len() == self.heights.0
        &&& forall|y: int|
            0 <= y < self.heights.0 ==> (#[trigger] self.edges.0[y]).len() == self.n
        &&& self.edges.1.len() == self.heights.1
        &&& forall|y: int|
            0 <= y < self.heights.1 ==> (#[trigger] self.edges.1[y]).len() == self.m
    }

    /// Every vertex but those in the first row of an axis has a previous
    /// edge on it.
    pub proof fn lemma_heights(&self)
        requires
            self.wf(),
        ensures
            self.extent_of(0) <= self.height_of(0) + 1,
            self.extent_of(1) <= self.height_of(1) + 1,
    {
    }

    /// Whether the site lies in the diagram: the vertex on the lattice, the
    /// axis one of the two, and the edge inside the axis's grid.
    pub open spec fn in_scan(&self, s: Site) -> bool {
        &&& s.i < self.dim_n()
        &&& s.j < self.dim_m()
        &&& s.axis < 2
        &&& 0 <= s.edge_y() < self.height_of(s.axis as int)
    }

    /// The boundary on the edge that the site names.
    pub open spec fn boundary_at(&self, s: Site) -> Option<Boundary> {
        self.boundary(s.axis as int, s.x(), s.edge_y())
    }

    /// Whether the boundary reaches the vertex within the tolerance: from
    /// the current edge, by starting below `eps`; from the previous edge, by
    /// ending at `one_less_eps` or above.
    pub open spec fn reaches(b: Boundary, side: Side, tol: Tolerance) -> bool {
        match side {
            Side::Current => b.start.lt(tol.eps),
            Side::Previous => tol.one_less_eps.le(b.end),
        }
    }

    /// Whether the boundary touches the vertex exactly: from the current
    /// edge, by starting at zero; from the previous edge, by ending at one.
    pub open spec fn touches(b: Boundary, side: Side) -> bool {
        match side {
            Side::Current => b.start.same_number(Scalar { bits: 0 }),
            Side::Previous => b.end.same_number(Scalar { bits: ONE_BITS }),
        }
    }

    /// The corner rule at one site: what is wrong there, if anything.
    pub open spec fn defect_at(&self, tol: Tolerance, s: Site) -> Option<Defect> {
        if self.has_corner(s.i as int, s.j as int) {
            match self.boundary_at(s) {
                None => Some(Defect::Missing),
                Some(b) => if Self::reaches(b, s.side, tol) {
                    None
                } else {
                    Some(Defect::OutOfTolerance)
                },
            }
        } else {
            match self.boundary_at(s) {
                None => None,
                Some(b) => if Self::touches(b, s.side) {
                    Some(Defect::Unexpected)
                } else {
                    None
                },
            }
        }
    }

    /// The corner rule holds at every site of the diagram.
    pub open spec fn consistent(&self, tol: Tolerance) -> bool {
        forall|s: Site| self.in_scan(s) ==> (#[trigger] self.defect_at(tol, s)) is None
    }

    /// The violation is the first one that a scan of the diagram meets.
    pub open spec fn first_violation(&self, tol: Tolerance, v: CornerViolation) -> bool {
        &&& self.in_scan(v.site)
        &&& self.defect_at(tol, v.site) == Some(v.defect)
        &&& forall|s: Site|
            self.in_scan(s) && s.precedes(v.site) ==> (#[trigger] self.defect_at(tol, s)) is None
    }
}


fn blank_markers(n: usize, m: usize) -> (rows: Vec<Vec<bool>>)
    ensures
        rows.len() == m,
        forall|j: int| 0 <= j < m ==> (#[trigger] rows[j]).len() == n,
        forall|j: int, i: int| 0 <= j < m && 0 <= i < n ==> !(#[trigger] rows[j][i]),
{
    let mut rows: Vec<Vec<bool>> = Vec::new();
    let mut j: usize = 0;
    while j < m
        invariant
            j <= m,
            rows.len() == j,
            forall|b: int| 0 <= b < j ==> (#[trigger] rows[b]).len() == n,
            forall|b: int, a: int| 0 <= b < j && 0 <= a < n ==> !(#[trigger] rows[b][a]),
        decreases m - j,
    {
        let mut row: Vec<bool> = Vec::new();
        let mut i: usize = 0;
        while i < n
            invariant
                i <= n,
                row.len() == i,
                forall|a: int| 0 <= a < i ==> !(#[trigger] row[a]),
            decreases n - i,
        {
            row.push(false);
            i += 1;
        }
        rows.push(row);
        j += 1;
    }
    rows
}

fn blank_edges(width: usize, height: usize) -> (rows: Vec<Vec<Option<Boundary>>>)
    ensures
        rows.len() == height,
        forall|y: int| 0 <= y < height ==> (#[trigger] rows[y]).len() == width,
        forall|y: int, x: int| 0 <= y < height && 0 <= x < width ==> (#[trigger] rows[y][x]) is None,
{
    let mut rows: Vec<Vec<Option<Boundary>>> = Vec::new();
    let mut y: usize = 0;
    while y < height
        invariant
            y <= height,
            rows.len() == y,
            forall|b: int| 0 <= b < y ==> (#[trigger] rows[b]).len() == width,
            forall|b: int, a: int| 0 <= b < y && 0 <= a < width ==> (#[trigger] rows[b][a]) is None,
        decreases height - y,
    {
        let mut row: Vec<Option<Boundary>> = Vec::new();
        let mut x: usize = 0;
        while x < width
            invariant
                x <= width,
                row.len() == x,
                forall|a: int| 0 <= a < x ==> (#[trigger] row[a]) is None,
            decreases width - x,
        {
            row.push(None);
            x += 1;
        }
        rows.push(row);
        y += 1;
    }
    rows
}

impl Diagram {
    /// A diagram over an `n` by `m` lattice with the given number of edges
    /// along each axis, no vertex marked and no edge with a boundary. There
    /// is none when an axis has too few edges for its vertices: when `m`
    /// exceeds `height0 + 1`, or `n` exceeds `height1 + 1`.
    pub fn new(n: usize, m: usize, height0: usize, height1: usize) -> (d: Option<Diagram>)
        ensures
            d is Some <==> m <= height0 + 1 && n <= height1 + 1,
            d matches Some(d) ==> {
                &&& d.wf()
                &&& d.dim_n() == n
                &&& d.dim_m() == m
                &&& d.height_of(0) == height0
                &&& d.height_of(1) == height1
                &&& forall|i: int, j: int|
                    0 <= i < n && 0 <= j < m ==> !#[trigger] d.has_corner(i, j)
                &&& forall|axis: int, x: int, y: int|
                    0 <= axis < 2 && 0 <= x < d.width_of(axis) && 0 <= y < d.height_of(axis) ==> (
                    #[trigger] d.boundary(axis, x, y)) is None
            },
    {
        if (m > 0 && m - 1 > height0) || (n > 0 && n - 1 > height1) {
            return None;
        }
        let corners = blank_markers(n, m);
        let along0 = blank_edges(n, height0);
        let along1 = blank_edges(m, height1);
        Some(Diagram { n, m, heights: (height0, height1), corners, edges: (along0, along1) })
    }

    /// The lattice's extent in `i`.
    pub fn n(&self) -> (n: usize)
        ensures
            n == self.dim_n(),
    {
        self.n
    }

    /// The lattice's extent in `j`.
    pub fn m(&self) -> (m: usize)
        ensures
            m == self.dim_m(),
    {
        self.m
    }

    /// The number of edges along an axis.
    pub fn height(&self, axis: usize) -> (h: usize)
        requires
            axis < 2,
        ensures
            h == self.height_of(axis as int),
    {
        if axis == 0 {
            self.heights.0
        } else {
            self.heights.1
        }
    }

    /// The marker of vertex `(i, j)`.
    pub fn corner(&self, i: usize, j: usize) -> (marked: bool)
        requires
            self.wf(),
            i < self.dim_n(),
            j < self.dim_m(),
        ensures
            marked == self.has_corner(i as int, j as int),
    {
        self.corners[j][i]
    }

    /// The boundary of edge `(axis, x, y)`.
    pub fn edge(&self, axis: usize, x: usize, y: usize) -> (b: Option<Boundary>)
        requires
            self.wf(),
            axis < 2,
            x < self.width_of(axis as int),
            y < self.height_of(axis as int),
        ensures
            b == self.boundary(axis as int, x as int, y as int),
    {
        if axis == 0 {
            self.edges.0[y][x]
        } else {
            self.edges.1[y][x]
        }
    }

    /// Marks or unmarks vertex `(i, j)`, and leaves the rest as it is.
    pub fn set_corner(&mut self, i: usize, j: usize, marked: bool)
        requires
            old(self).wf(),
            i < old(self).dim_n(),
            j < old(self).dim_m(),
        ensures
            final(self).wf(),
            final(self).same_shape(*old(self)),
            final(self).has_corner(i as int, j as int) == marked,
            forall|a: int, b: int|
                0 <= a < old(self).dim_n() && 0 <= b < old(self).dim_m() && !(a == i && b == j)
                    ==> #[trigger] final(self).has_corner(a, b) == old(self).has_corner(a, b),
            forall|axis: int, x: int, y: int| #[trigger]
                final(self).boundary(axis, x, y) == old(self).boundary(axis, x, y),
    {
        self.corners[j][i] = marked;
    }

    /// Gives edge `(axis, x, y)` a boundary or none, and leaves the rest as
    /// it is.
    pub fn set_edge(&mut self, axis: usize, x: usize, y: usize, b: Option<Boundary>)
        requires
            old(self).wf(),
            axis < 2,
            x < old(self).width_of(axis as int),
            y < old(self).height_of(axis as int),
        ensures
            final(self).wf(),
            final(self).same_shape(*old(self)),
            final(self).boundary(axis as int, x as int, y as int) == b,
            forall|a: int, c: int, d: int|
                0 <= a < 2 && 0 <= c < old(self).width_of(a) && 0 <= d < old(self).height_of(a)
                    && !(a == axis && c == x && d == y) ==> #[trigger] final(self).boundary(
                    a,
                    c,
                    d,
                ) == old(self).boundary(a, c, d),
            forall|i: int, j: int| #[trigger]
                final(self).has_corner(i, j) == old(self).has_corner(i, j),
    {
        if axis == 0 {
            self.edges.0[y][x] = b;
        } else {
            self.edges.1[y][x] = b;
        }
    }

    /// The two diagrams have the same lattice and the same heights.
    pub open spec fn same_shape(&self, other: Diagram) -> bool {
        &&& self.dim_n() == other.dim_n()
        &&& self.dim_m() == other.dim_m()
        &&& self.height_of(0) == other.height_of(0)
        &&& self.height_of(1) == other.height_of(1)
    }
}


impl Diagram {
    /// The corner rule at one site of the diagram.
    fn inspect(&self, tol: &Tolerance, s: Site) -> (found: Option<Defect>)
        requires
            self.wf(),
            self.in_scan(s),
        ensures
            found == self.defect_at(*tol, s),
    {
        let x: usize = if s.axis == 0 {
            s.i
        } else {
            s.j
        };
        let y: usize = if s.axis == 0 {
            s.j
        } else {
            s.i
        };
        let edge_y: usize = match s.side {
            Side::Current => y,
            Side::Previous => y - 1,
        };
        let marked = self.corner(s.i, s.j);
        match self.edge(s.axis, x, edge_y) {
            None => if marked {
                Some(Defect::Missing)
            } else {
                None
            },
            Some(b) => {
                if marked {
                    let reaches = match s.side {
                        Side::Current => b.start.less_than(tol.eps),
                        Side::Previous => tol.one_less_eps.at_most(b.end),
                    };
                    if reaches {
                        None
                    } else {
                        Some(Defect::OutOfTolerance)
                    }
                } else {
                    let touches = match s.side {
                        Side::Current => b.start.equals(Scalar::zero()),
                        Side::Previous => b.end.equals(Scalar::one()),
                    };
                    if touches {
                        Some(Defect::Unexpected)
                    } else {
                        None
                    }
                }
            },
        }
    }

    /// The corner rule on the two edges of one vertex along one axis, the
    /// current edge first.
    fn check_axis(&self, tol: &Tolerance, i: usize, j: usize, axis: usize) -> (r: Result<
        (),
        CornerViolation,
    >)
        requires
            self.wf(),
            i < self.dim_n(),
            j < self.dim_m(),
            axis < 2,
        ensures
            r is Ok ==> forall|s: Site|
                self.in_scan(s) && s.i == i && s.j == j && s.axis == axis ==> (
                #[trigger] self.defect_at(*tol, s)) is None,
            r matches Err(v) ==> {
                &&& self.in_scan(v.site)
                &&& v.site.i == i
                &&& v.site.j == j
                &&& v.site.axis == axis
                &&& self.defect_at(*tol, v.site) == Some(v.defect)
                &&& v.site.side == Side::Previous ==> {
                    let first = Site { i, j, axis, side: Side::Current };
                    self.in_scan(first) ==> self.defect_at(*tol, first) is None
                }
            },
    {
        let y: usize = if axis == 0 {
            j
        } else {
            i
        };
        let current = Site { i, j, axis, side: Side::Current };
        let previous = Site { i, j, axis, side: Side::Previous };
        if y < self.height(axis) {
            if let Some(defect) = self.inspect(tol, current) {
                return Err(CornerViolation { site: current, defect });
            }
        }
        if y > 0 {
            if let Some(defect) = self.inspect(tol, previous) {
                return Err(CornerViolation { site: previous, defect });
            }
        }
        assert forall|s: Site|
            self.in_scan(s) && s.i == i && s.j == j && s.axis == axis implies (
        #[trigger] self.defect_at(*tol, s)) is None by {
            assert(s == current || s == previous);
        }
        Ok(())
    }

    /// The corner rule at one vertex, axis 0 first.
    fn check_vertex(&self, tol: &Tolerance, i: usize, j: usize) -> (r: Result<(), CornerViolation>)
        requires
            self.wf(),
            i < self.dim_n(),
            j < self.dim_m(),
        ensures
            r is Ok ==> forall|s: Site|
                self.in_scan(s) && s.i == i && s.j == j ==> (#[trigger] self.defect_at(*tol, s))
                    is None,
            r matches Err(v) ==> {
                &&& self.in_scan(v.site)
                &&& v.site.i == i
                &&& v.site.j == j
                &&& self.defect_at(*tol, v.site) == Some(v.defect)
                &&& forall|s: Site|
                    self.in_scan(s) && s.i == i && s.j == j && s.precedes(v.site) ==> (
                    #[trigger] self.defect_at(*tol, s)) is None
            },
    {
        match self.check_axis(tol, i, j, 0) {
            Err(v) => {
                assert forall|s: Site|
                    self.in_scan(s) && s.i == i && s.j == j && s.precedes(v.site) implies (
                #[trigger] self.defect_at(*tol, s)) is None by {
                    assert(s == Site { i, j, axis: 0, side: Side::Current });
                }
                return Err(v);
            },
            Ok(()) => {},
        }
        match self.check_axis(tol, i, j, 1) {
            Err(v) => {
                assert forall|s: Site|
                    self.in_scan(s) && s.i == i && s.j == j && s.precedes(v.site) implies (
                #[trigger] self.defect_at(*tol, s)) is None by {
                    if s.axis == 1 {
                        assert(s == Site { i, j, axis: 1, side: Side::Current });
                    }
                }
                Err(v)
            },
            Ok(()) => Ok(()),
        }
    }
}

/// Checks the corner rule at every site of the diagram, in scan order, and
/// stops at the first site that breaks it.
pub fn check_corner_consistency(d: &Diagram, tol: &Tolerance) -> (r: Result<(), CornerViolation>)
    requires
        d.wf(),
    ensures
        r is Ok <==> d.consistent(*tol),
        r matches Err(v) ==> d.first_violation(*tol, v),
{
    let n: usize = d.n();
    let m: usize = d.m();
    let mut j: usize = 0;
    while j < m
        invariant
            d.wf(),
            n == d.dim_n(),
            m == d.dim_m(),
            j <= m,
            forall|s: Site| d.in_scan(s) && s.j < j ==> (#[trigger] d.defect_at(*tol, s)) is None,
        decreases m - j,
    {
        let mut i: usize = 0;
        while i < n
            invariant
                d.wf(),
                n == d.dim_n(),
                m == d.dim_m(),
                j < m,
                i <= n,
                forall|s: Site|
                    d.in_scan(s) && (s.j < j || (s.j == j && s.i < i)) ==> (
                    #[trigger] d.defect_at(*tol, s)) is None,
            decreases n - i,
        {
            match d.check_vertex(tol, i, j) {
                Err(v) => {
                    return Err(v);
                },
                Ok(()) => {},
            }
            i += 1;
        }
        j += 1;
    }
    Ok(())
}

/// A diagram has at most one first violation, and has one exactly when it
/// is not consistent.
pub proof fn lemma_first_violation_unique(
    d: Diagram,
    tol: Tolerance,
    a: CornerViolation,
    b: CornerViolation,
)
    requires
        d.first_violation(tol, a),
    ensures
        !d.consistent(tol),
        d.first_violation(tol, b) ==> a == b,
{
    assert(d.defect_at(tol, a.site) is Some);
    if d.first_violation(tol, b) {
        if a.site.precedes(b.site) {
            assert(d.defect_at(tol, a.site) is None);
        }
        if b.site.precedes(a.site) {
            assert(d.defect_at(tol, b.site) is None);
        }
        assert(a.site.side == b.site.side);
        assert(a.site == b.site);
    }
}

/// At a marked vertex of a consistent diagram, each incident edge has a
/// boundary that reaches the vertex within the tolerance: the current one
/// starts below `eps`, the previous one ends at `one_less_eps` or above.
pub proof fn lemma_marked_vertex(d: Diagram, tol: Tolerance, s: Site)
    requires
        d.consistent(tol),
        d.in_scan(s),
        d.has_corner(s.i as int, s.j as int),
    ensures
        d.boundary_at(s) is Some,
        s.side == Side::Current ==> d.boundary_at(s)->0.start.lt(tol.eps),
        s.side == Side::Previous ==> tol.one_less_eps.le(d.boundary_at(s)->0.end),
{
    assert(d.defect_at(tol, s) is None);
}

/// At an unmarked vertex of a consistent diagram, no incident edge has a
/// boundary that touches the vertex: the current one does not start at
/// zero, the previous one does not end at one.
pub proof fn lemma_unmarked_vertex(d: Diagram, tol: Tolerance, s: Site)
    requires
        d.consistent(tol),
        d.in_scan(s),
        !d.has_corner(s.i as int, s.j as int),
        d.boundary_at(s) is Some,
    ensures
        s.side == Side::Current ==> !d.boundary_at(s)->0.start.same_number(Scalar { bits: 0 }),
        s.side == Side::Previous ==> !d.boundary_at(s)->0.end.same_number(
            Scalar { bits: ONE_BITS },
        ),
{
    assert(d.defect_at(tol, s) is None);
}


impl CornerViolation {
    /// How the description of the violation begins: what is wrong with the
    /// boundary.
    pub open spec fn opening(self) -> Seq<char> {
        match (self.defect, self.site.side) {
            (Defect::Unexpected, Side::Current) => "Start of boundary exists at "@,
            (Defect::Unexpected, Side::Previous) => "End of boundary exists at "@,
            (Defect::OutOfTolerance, Side::Current) => "Start of boundary does not exist at "@,
            (Defect::OutOfTolerance, Side::Previous) => "End of boundary does not exist at "@,
            (Defect::Missing, _) => "Boundary does not exist at "@,
        }
    }

    /// The words between the edge and the vertex: whether the vertex is
    /// marked.
    pub open spec fn joint(self) -> Seq<char> {
        match self.defect {
            Defect::Unexpected => " while no corner at (("@,
            _ => " while corner at (("@,
        }
    }

    /// The description of the violation: the opening, the edge as
    /// `(axis, x, y)`, whether the vertex is marked, and the vertex as
    /// `((i,j))`, with one blank after it.
    pub open spec fn description(self) -> Seq<char>
        recommends
            self.site.edge_y() >= 0,
    {
        self.opening() + "("@ + decimal(self.site.axis as nat) + ", "@ + decimal(
            self.site.x() as nat,
        ) + ", "@ + decimal(self.site.edge_y() as nat) + ")"@ + self.joint() + decimal(
            self.site.i as nat,
        ) + ","@ + decimal(self.site.j as nat) + ")) "@
    }

    /// Describes the violation in words. A previous edge has a description
    /// only where there is one: above the first row of its axis.
    pub fn describe(&self) -> (text: String)
        requires
            self.site.edge_y() >= 0,
        ensures
            text@ == self.description(),
    {
        let site = self.site;
        let x: usize = if site.axis == 0 {
            site.i
        } else {
            site.j
        };
        let y: usize = if site.axis == 0 {
            site.j
        } else {
            site.i
        };
        let edge_y: usize = match site.side {
            Side::Current => y,
            Side::Previous => y - 1,
        };
        let opening = match (self.defect, site.side) {
            (Defect::Unexpected, Side::Current) => "Start of boundary exists at ",
            (Defect::Unexpected, Side::Previous) => "End of boundary exists at ",
            (Defect::OutOfTolerance, Side::Current) => "Start of boundary does not exist at ",
            (Defect::OutOfTolerance, Side::Previous) => "End of boundary does not exist at ",
            (Defect::Missing, _) => "Boundary does not exist at ",
        };
        let joint = match self.defect {
            Defect::Unexpected => " while no corner at ((",
            _ => " while corner at ((",
        };
        let mut text = String::from_str(opening);
        text.append("(");
        push_decimal(&mut text, site.axis);
        text.append(", ");
        push_decimal(&mut text, x);
        text.append(", ");
        push_decimal(&mut text, edge_y);
        text.append(")");
        text.append(joint);
        push_decimal(&mut text, site.i);
        text.append(",");
        push_decimal(&mut text, site.j);
        text.append(")) ");
        assert(text@ =~= self.description());
        text
    }
}

} // verus!

//! The shape layer: drawable primitives in a shared signed, pixel-centred
//! coordinate space, each with a centroid-preserving scale transform.
//!
//! Coordinates are whole pixels (signed, origin at the image centre) and a
//! scale factor is a rational number `num / den` with a positive
//! denominator, so every transform is exact integer arithmetic: the result
//! of `scale` is pinned down coordinate by coordinate.
use vstd::prelude::*;
use vstd::arithmetic::div_mod::{
    lemma_fundamental_div_mod, lemma_div_multiples_vanish, lemma_fundamental_div_mod_converse_div,
};
use crate::draw::{DrawCommand, DrawCommands};

verus! {

/// Largest coordinate magnitude a well-formed shape may use.  Generous for
/// any realistic raster (an 8K frame is under 10_000 pixels wide) while
/// keeping every intermediate product of the scale transform inside `i64`.
pub const COORD_LIMIT: i64 = 1_000_000;

/// Largest magnitude of a scale factor's numerator and denominator.
pub const FACTOR_LIMIT: i64 = 1_000_000;

/// A position in the shared 3D drawing space: whole pixels, signed, with
/// the origin at the centre of the frame.  `z` is unused by the current
/// shapes and reserved for depth.
#[derive(Clone, Copy, PartialEq, Eq, Structural, Debug)]
pub struct Point {
    pub x: i64,
    pub y: i64,
    pub z: i64,
}

/// A pure scale factor `num / den`.  The denominator is kept positive, so
/// negative and zero factors are expressed through the numerator alone.
#[derive(Clone, Copy, PartialEq, Eq, Structural, Debug)]
pub struct ScaleFactor {
    pub num: i64,
    pub den: i64,
}

impl Point {
    pub open spec fn in_range(self) -> bool {
        &&& -COORD_LIMIT <= self.x <= COORD_LIMIT
        &&& -COORD_LIMIT <= self.y <= COORD_LIMIT
        &&& -COORD_LIMIT <= self.z <= COORD_LIMIT
    }

    pub fn new(x: i64, y: i64, z: i64) -> (p: Point)
        ensures
            p == (Point { x, y, z }),
    {
        Point { x, y, z }
    }
}

impl ScaleFactor {
    /// A well-formed factor: positive denominator, both parts bounded.
    pub open spec fn wf(self) -> bool {
        &&& 0 < self.den <= FACTOR_LIMIT
        &&& -FACTOR_LIMIT <= self.num <= FACTOR_LIMIT
    }

    pub fn new(num: i64, den: i64) -> (f: ScaleFactor)
        requires
            0 < den <= FACTOR_LIMIT,
            -FACTOR_LIMIT <= num <= FACTOR_LIMIT,
        ensures
            f == (ScaleFactor { num, den }),
            f.wf(),
    {
        ScaleFactor { num, den }
    }
}

/// One scaled coordinate: the centroid plus the scaled offset from the
/// centroid, with the offset rounded towards negative infinity.
pub open spec fn scale_coord(p: int, c: int, num: int, den: int) -> int {
    c + ((p - c) * num) / den
}

/// The mean of three values, rounded towards negative infinity.
pub open spec fn mean3(x1: int, x2: int, x3: int) -> int {
    (x1 + x2 + x3) / 3
}

/// The mean of two values, rounded towards negative infinity.
pub open spec fn mean2(x1: int, x2: int) -> int {
    (x1 + x2) / 2
}

/// Exact division: if `x` is the product `q * d`, then dividing `x` by `d`
/// recovers `q` exactly.
pub proof fn lemma_exact_div(x: int, d: int, q: int)
    requires
        d > 0,
        x == q * d,
    ensures
        x / d == q,
{
    lemma_fundamental_div_mod_converse_div(x, d, q, 0);
}

/// The magnitude of a quotient with a positive divisor never exceeds the
/// magnitude of the dividend.
pub proof fn lemma_div_bounded_by_dividend(x: int, d: int)
    requires
        d > 0,
    ensures
        x >= 0 ==> 0 <= x / d <= x,
        x < 0 ==> x <= x / d <= 0,
{
    lemma_fundamental_div_mod(x, d);
    let q = x / d;
    let r = x % d;
    assert(0 <= r < d);
    assert(x >= 0 ==> 0 <= q <= x) by (nonlinear_arith)
        requires
            x == d * q + r,
            0 <= r < d,
    ;
    assert(x < 0 ==> x <= q <= 0) by (nonlinear_arith)
        requires
            x == d * q + r,
            0 <= r < d,
    ;
}

/// Euclidean division with a positive divisor, as the specification-level
/// `/` computes it.
pub fn euclid_div(x: i64, d: i64) -> (q: i64)
    requires
        d > 0,
    ensures
        q == x as int / d as int,
{
    proof {
        lemma_div_bounded_by_dividend(x as int, d as int);
    }
    x.checked_div_euclid(d).unwrap()
}

/// One scaled point: every coordinate is moved by `scale_coord` about the
/// given centroid.
pub open spec fn spec_scale_point(p: Point, cx: int, cy: int, cz: int, num: int, den: int) -> Point {
    Point {
        x: scale_coord(p.x as int, cx, num, den) as i64,
        y: scale_coord(p.y as int, cy, num, den) as i64,
        z: scale_coord(p.z as int, cz, num, den) as i64,
    }
}

/// Applies the scale transform to one point about the centroid
/// `(cx, cy, cz)`.
fn scale_point(p: Point, cx: i64, cy: i64, cz: i64, factor: ScaleFactor) -> (r: Point)
    requires
        p.in_range(),
        -COORD_LIMIT <= cx <= COORD_LIMIT,
        -COORD_LIMIT <= cy <= COORD_LIMIT,
        -COORD_LIMIT <= cz <= COORD_LIMIT,
        factor.wf(),
    ensures
        r == spec_scale_point(p, cx as int, cy as int, cz as int, factor.num as int, factor.den as int),
{
    let x: i64 = scale_coord_exec(p.x, cx, factor);
    let y: i64 = scale_coord_exec(p.y, cy, factor);
    let z: i64 = scale_coord_exec(p.z, cz, factor);
    Point { x, y, z }
}

/// Applies the scale transform to one coordinate about the centroid
/// coordinate `c`.
fn scale_coord_exec(p: i64, c: i64, factor: ScaleFactor) -> (r: i64)
    requires
        -COORD_LIMIT <= p <= COORD_LIMIT,
        -COORD_LIMIT <= c <= COORD_LIMIT,
        factor.wf(),
    ensures
        r == scale_coord(p as int, c as int, factor.num as int, factor.den as int),
        -COORD_LIMIT - 2 * COORD_LIMIT * FACTOR_LIMIT <= r
            <= COORD_LIMIT + 2 * COORD_LIMIT * FACTOR_LIMIT,
{
    let off: i64 = p - c;
    assert(-2 * COORD_LIMIT * FACTOR_LIMIT <= off * factor.num <= 2 * COORD_LIMIT * FACTOR_LIMIT)
        by (nonlinear_arith)
        requires
            -2 * COORD_LIMIT <= off <= 2 * COORD_LIMIT,
            -FACTOR_LIMIT <= factor.num <= FACTOR_LIMIT,
    ;
    let prod: i64 = off * factor.num;
    proof {
        lemma_div_bounded_by_dividend(prod as int, factor.den as int);
    }
    let q: i64 = euclid_div(prod, factor.den);
    c + q
}

/// Scaling with numerator equal to denominator moves no coordinate:
/// the offset from the centroid is multiplied and divided by the same
/// positive number, which cancels exactly.
pub proof fn lemma_scale_coord_identity(p: int, c: int, n: int)
    requires
        n > 0,
    ensures
        scale_coord(p, c, n, n) == p,
{
    lemma_exact_div((p - c) * n, n, p - c);
}

/// The mean of `n` values, each bounded by `bound` in magnitude, is itself
/// bounded by `bound` in magnitude.
pub proof fn lemma_mean_in_range(sum: int, n: int, bound: int)
    requires
        n > 0,
        bound >= 0,
        -n * bound <= sum <= n * bound,
    ensures
        -bound <= sum / n <= bound,
{
    lemma_fundamental_div_mod(sum, n);
    let q = sum / n;
    let r = sum % n;
    assert(-bound <= q <= bound) by (nonlinear_arith)
        requires
            sum == n * q + r,
            0 <= r < n,
            n > 0,
            bound >= 0,
            -n * bound <= sum <= n * bound,
    ;
}

/// Multiplying an offset by `a / b` and the result by `a2 / b2`, where the
/// two rationals are mutual reciprocals and the first division is exact,
/// recovers the offset exactly.
pub proof fn lemma_offset_round_trip(off: int, a: int, b: int, a2: int, b2: int)
    requires
        b > 0,
        b2 > 0,
        a * a2 == b * b2,
        (off * a) % b == 0,
    ensures
        ((off * a) / b) * a2 / b2 == off,
{
    let q = (off * a) / b;
    lemma_fundamental_div_mod(off * a, b);
    assert(q * b == off * a) by (nonlinear_arith)
        requires
            off * a == b * q + (off * a) % b,
            (off * a) % b == 0,
    ;
    assert(q * a2 == off * b2) by (nonlinear_arith)
        requires
            q * b == off * a,
            a * a2 == b * b2,
            b > 0,
    ;
    lemma_exact_div(q * a2, b2, off);
}

/// A quotient from an exact division is no larger in magnitude than the
/// dividend.
pub proof fn lemma_exact_quotient_bound(m: int, b: int, bound: int)
    requires
        b > 0,
        bound >= 0,
        -bound <= m <= bound,
        m % b == 0,
    ensures
        -bound <= m / b <= bound,
{
    lemma_fundamental_div_mod(m, b);
    let q = m / b;
    assert(-bound <= q <= bound) by (nonlinear_arith)
        requires
            m == b * q + m % b,
            m % b == 0,
            b > 0,
            -bound <= m <= bound,
            bound >= 0,
    ;
}

/// A drawable triangle, given by its three corners.
#[derive(Clone, Copy, PartialEq, Eq, Structural, Debug)]
pub struct Triangle {
    pub p1: Point,
    pub p2: Point,
    pub p3: Point,
}

/// A drawable circle, given by its centre and radius.
#[derive(Clone, Copy, PartialEq, Eq, Structural, Debug)]
pub struct Circle {
    pub position: Point,
    pub radius: i64,
}

/// A drawable line segment, given by its two endpoints.
#[derive(Clone, Copy, PartialEq, Eq, Structural, Debug)]
pub struct Line {
    pub start: Point,
    pub end: Point,
}

impl Triangle {
    pub fn new(p1: Point, p2: Point, p3: Point) -> (t: Triangle)
        ensures
            t == (Triangle { p1, p2, p3 }),
    {
        Triangle { p1, p2, p3 }
    }

    pub open spec fn wf(self) -> bool {
        &&& self.p1.in_range()
        &&& self.p2.in_range()
        &&& self.p3.in_range()
    }

    /// The centroid is the mean of the three corners, rounded towards
    /// negative infinity on each axis.
    pub open spec fn centroid_x(self) -> int {
        mean3(self.p1.x as int, self.p2.x as int, self.p3.x as int)
    }

    pub open spec fn centroid_y(self) -> int {
        mean3(self.p1.y as int, self.p2.y as int, self.p3.y as int)
    }

    pub open spec fn centroid_z(self) -> int {
        mean3(self.p1.z as int, self.p2.z as int, self.p3.z as int)
    }

    /// Every division of the scale transform is exact: the corner sums
    /// divide by three, and every scaled offset divides by `den`.
    pub open spec fn scale_exact(self, num: int, den: int) -> bool {
        &&& (self.p1.x + self.p2.x + self.p3.x) % 3 == 0
        &&& (self.p1.y + self.p2.y + self.p3.y) % 3 == 0
        &&& (self.p1.z + self.p2.z + self.p3.z) % 3 == 0
        &&& ((self.p1.x - self.centroid_x()) * num) % den == 0
        &&& ((self.p2.x - self.centroid_x()) * num) % den == 0
        &&& ((self.p3.x - self.centroid_x()) * num) % den == 0
        &&& ((self.p1.y - self.centroid_y()) * num) % den == 0
        &&& ((self.p2.y - self.centroid_y()) * num) % den == 0
        &&& ((self.p3.y - self.centroid_y()) * num) % den == 0
        &&& ((self.p1.z - self.centroid_z()) * num) % den == 0
        &&& ((self.p2.z - self.centroid_z()) * num) % den == 0
        &&& ((self.p3.z - self.centroid_z()) * num) % den == 0
    }

    /// The scale transform: every corner moves about the centroid.
    pub open spec fn spec_scale(self, num: int, den: int) -> Triangle {
        Triangle {
            p1: spec_scale_point(
                self.p1,
                self.centroid_x(),
                self.centroid_y(),
                self.centroid_z(),
                num,
                den,
            ),
            p2: spec_scale_point(
                self.p2,
                self.centroid_x(),
                self.centroid_y(),
                self.centroid_z(),
                num,
                den,
            ),
            p3: spec_scale_point(
                self.p3,
                self.centroid_x(),
                self.centroid_y(),
                self.centroid_z(),
                num,
                den,
            ),
        }
    }

    /// Returns the triangle scaled by `factor` about its centroid.
    pub fn scale(self, factor: ScaleFactor) -> (r: Triangle)
        requires
            self.wf(),
            factor.wf(),
        ensures
            r == self.spec_scale(factor.num as int, factor.den as int),
    {
        proof {
            lemma_mean_in_range(
                self.p1.x + self.p2.x + self.p3.x,
                3,
                COORD_LIMIT as int,
            );
            lemma_mean_in_range(
                self.p1.y + self.p2.y + self.p3.y,
                3,
                COORD_LIMIT as int,
            );
            lemma_mean_in_range(
                self.p1.z + self.p2.z + self.p3.z,
                3,
                COORD_LIMIT as int,
            );
        }
        let cx: i64 = euclid_div(self.p1.x + self.p2.x + self.p3.x, 3);
        let cy: i64 = euclid_div(self.p1.y + self.p2.y + self.p3.y, 3);
        let cz: i64 = euclid_div(self.p1.z + self.p2.z + self.p3.z, 3);
        Triangle {
            p1: scale_point(self.p1, cx, cy, cz, factor),
            p2: scale_point(self.p2, cx, cy, cz, factor),
            p3: scale_point(self.p3, cx, cy, cz, factor),
        }
    }

    /// The commands that render the triangle: exactly one triangle command.
    pub fn draw(&self) -> (r: DrawCommands)
        ensures
            r.commands@ == seq![
                DrawCommand::Triangle { p1: self.p1, p2: self.p2, p3: self.p3 },
            ],
    {
        let mut commands: Vec<DrawCommand> = Vec::new();
        commands.push(DrawCommand::Triangle { p1: self.p1, p2: self.p2, p3: self.p3 });
        proof {
            assert(commands@ =~= seq![
                DrawCommand::Triangle { p1: self.p1, p2: self.p2, p3: self.p3 },
            ]);
        }
        DrawCommands { commands }
    }
}

impl Circle {
    pub fn new(position: Point, radius: i64) -> (c: Circle)
        ensures
            c == (Circle { position, radius }),
    {
        Circle { position, radius }
    }

    pub open spec fn wf(self) -> bool {
        &&& self.position.in_range()
        &&& -COORD_LIMIT <= self.radius <= COORD_LIMIT
    }

    /// The one division of the scale transform is exact: the scaled radius
    /// divides by `den`.
    pub open spec fn scale_exact(self, num: int, den: int) -> bool {
        (self.radius * num) % den == 0
    }

    /// The scale transform: the centre is unchanged, the radius is scaled.
    pub open spec fn spec_scale(self, num: int, den: int) -> Circle {
        Circle { position: self.position, radius: ((self.radius * num) / den) as i64 }
    }

    /// Returns the circle scaled by `factor` about its own centre.
    pub fn scale(self, factor: ScaleFactor) -> (r: Circle)
        requires
            self.wf(),
            factor.wf(),
        ensures
            r == self.spec_scale(factor.num as int, factor.den as int),
    {
        assert(-COORD_LIMIT * FACTOR_LIMIT <= self.radius * factor.num
            <= COORD_LIMIT * FACTOR_LIMIT) by (nonlinear_arith)
            requires
                -COORD_LIMIT <= self.radius <= COORD_LIMIT,
                -FACTOR_LIMIT <= factor.num <= FACTOR_LIMIT,
        ;
        let radius: i64 = euclid_div(self.radius * factor.num, factor.den);
        Circle { position: self.position, radius }
    }

    /// The commands that render the circle: exactly one circle command.
    pub fn draw(&self) -> (r: DrawCommands)
        ensures
            r.commands@ == seq![
                DrawCommand::Circle { p: self.position, radius: self.radius },
            ],
    {
        let mut commands: Vec<DrawCommand> = Vec::new();
        commands.push(DrawCommand::Circle { p: self.position, radius: self.radius });
        proof {
            assert(commands@ =~= seq![
                DrawCommand::Circle { p: self.position, radius: self.radius },
            ]);
        }
        DrawCommands { commands }
    }
}

impl Line {
    pub fn new(start: Point, end: Point) -> (l: Line)
        ensures
            l == (Line { start, end }),
    {
        Line { start, end }
    }

    pub open spec fn wf(self) -> bool {
        &&& self.start.in_range()
        &&& self.end.in_range()
    }

    /// The midpoint of the segment, rounded towards negative infinity on
    /// each axis.
    pub open spec fn midpoint_x(self) -> int {
        mean2(self.start.x as int, self.end.x as int)
    }

    pub open spec fn midpoint_y(self) -> int {
        mean2(self.start.y as int, self.end.y as int)
    }

    pub open spec fn midpoint_z(self) -> int {
        mean2(self.start.z as int, self.end.z as int)
    }

    /// Every division of the scale transform is exact: the endpoint sums
    /// divide by two, and every scaled offset divides by `den`.
    pub open spec fn scale_exact(self, num: int, den: int) -> bool {
        &&& (self.start.x + self.end.x) % 2 == 0
        &&& (self.start.y + self.end.y) % 2 == 0
        &&& (self.start.z + self.end.z) % 2 == 0
        &&& ((self.start.x - self.midpoint_x()) * num) % den == 0
        &&& ((self.end.x - self.midpoint_x()) * num) % den == 0
        &&& ((self.start.y - self.midpoint_y()) * num) % den == 0
        &&& ((self.end.y - self.midpoint_y()) * num) % den == 0
        &&& ((self.start.z - self.midpoint_z()) * num) % den == 0
        &&& ((self.end.z - self.midpoint_z()) * num) % den == 0
    }

    /// The scale transform: both endpoints move about the midpoint.
    pub open spec fn spec_scale(self, num: int, den: int) -> Line {
        Line {
            start: spec_scale_point(
                self.start,
                self.midpoint_x(),
                self.midpoint_y(),
                self.midpoint_z(),
                num,
                den,
            ),
            end: spec_scale_point(
                self.end,
                self.midpoint_x(),
                self.midpoint_y(),
                self.midpoint_z(),
                num,
                den,
            ),
        }
    }

    /// Returns the line scaled by `factor` about its midpoint.
    pub fn scale(self, factor: ScaleFactor) -> (r: Line)
        requires
            self.wf(),
            factor.wf(),
        ensures
            r == self.spec_scale(factor.num as int, factor.den as int),
    {
        proof {
            lemma_mean_in_range(self.start.x + self.end.x, 2, COORD_LIMIT as int);
            lemma_mean_in_range(self.start.y + self.end.y, 2, COORD_LIMIT as int);
            lemma_mean_in_range(self.start.z + self.end.z, 2, COORD_LIMIT as int);
        }
        let cx: i64 = euclid_div(self.start.x + self.end.x, 2);
        let cy: i64 = euclid_div(self.start.y + self.end.y, 2);
        let cz: i64 = euclid_div(self.start.z + self.end.z, 2);
        Line {
            start: scale_point(self.start, cx, cy, cz, factor),
            end: scale_point(self.end, cx, cy, cz, factor),
        }
    }

    /// The commands that render the line: exactly one line command.
    pub fn draw(&self) -> (r: DrawCommands)
        ensures
            r.commands@ == seq![DrawCommand::Line { p1: self.start, p2: self.end }],
    {
        let mut commands: Vec<DrawCommand> = Vec::new();
        commands.push(DrawCommand::Line { p1: self.start, p2: self.end });
        proof {
            assert(commands@ =~= seq![DrawCommand::Line { p1: self.start, p2: self.end }]);
        }
        DrawCommands { commands }
    }
}

/// The closed set of drawable shapes.  `scale` and `draw` match on the
/// variants exhaustively, so an unhandled shape kind cannot arise.
#[derive(Clone, Copy, PartialEq, Eq, Structural, Debug)]
pub enum Shape {
    Triangle(Triangle),
    Circle(Circle),
    Line(Line),
}

impl Shape {
    pub open spec fn wf(self) -> bool {
        match self {
            Shape::Triangle(t) => t.wf(),
            Shape::Circle(c) => c.wf(),
            Shape::Line(l) => l.wf(),
        }
    }

    /// The scale transform of the underlying shape.
    pub open spec fn spec_scale(self, num: int, den: int) -> Shape {
        match self {
            Shape::Triangle(t) => Shape::Triangle(t.spec_scale(num, den)),
            Shape::Circle(c) => Shape::Circle(c.spec_scale(num, den)),
            Shape::Line(l) => Shape::Line(l.spec_scale(num, den)),
        }
    }

    /// Every division of the scale transform by `num / den` is exact.
    pub open spec fn scale_exact(self, num: int, den: int) -> bool {
        match self {
            Shape::Triangle(t) => t.scale_exact(num, den),
            Shape::Circle(c) => c.scale_exact(num, den),
            Shape::Line(l) => l.scale_exact(num, den),
        }
    }

    /// The commands that render the shape: exactly one geometric command.
    pub open spec fn spec_draw(self) -> Seq<DrawCommand> {
        match self {
            Shape::Triangle(t) => seq![
                DrawCommand::Triangle { p1: t.p1, p2: t.p2, p3: t.p3 },
            ],
            Shape::Circle(c) => seq![
                DrawCommand::Circle { p: c.position, radius: c.radius },
            ],
            Shape::Line(l) => seq![DrawCommand::Line { p1: l.start, p2: l.end }],
        }
    }

    /// Returns the shape scaled by `factor` about its own centroid.
    pub fn scale(self, factor: ScaleFactor) -> (r: Shape)
        requires
            self.wf(),
            factor.wf(),
        ensures
            r == self.spec_scale(factor.num as int, factor.den as int),
    {
        match self {
            Shape::Triangle(t) => Shape::Triangle(t.scale(factor)),
            Shape::Circle(c) => Shape::Circle(c.scale(factor)),
            Shape::Line(l) => Shape::Line(l.scale(factor)),
        }
    }

    /// The drawing commands of the shape, in rendering order.
    pub fn draw(&self) -> (r: DrawCommands)
        ensures
            r.commands@ == self.spec_draw(),
    {
        match self {
            Shape::Triangle(t) => t.draw(),
            Shape::Circle(c) => c.draw(),
            Shape::Line(l) => l.draw(),
        }
    }
}

/// A scaled coordinate of a well-formed shape stays inside `i64`: the
/// magnitude is at most the centroid bound plus the scaled offset bound.
pub proof fn lemma_scale_coord_in_range(p: int, c: int, a: int, b: int)
    requires
        -COORD_LIMIT <= p <= COORD_LIMIT,
        -COORD_LIMIT <= c <= COORD_LIMIT,
        0 < b <= FACTOR_LIMIT,
        -FACTOR_LIMIT <= a <= FACTOR_LIMIT,
    ensures
        -COORD_LIMIT - 2 * COORD_LIMIT * FACTOR_LIMIT <= scale_coord(p, c, a, b)
            <= COORD_LIMIT + 2 * COORD_LIMIT * FACTOR_LIMIT,
{
    assert(-2 * COORD_LIMIT * FACTOR_LIMIT <= (p - c) * a <= 2 * COORD_LIMIT * FACTOR_LIMIT)
        by (nonlinear_arith)
        requires
            -2 * COORD_LIMIT <= p - c <= 2 * COORD_LIMIT,
            -FACTOR_LIMIT <= a <= FACTOR_LIMIT,
    ;
    lemma_div_bounded_by_dividend((p - c) * a, b);
}

/// Scaling a point by a factor with equal numerator and denominator moves
/// nothing, whatever centroid it is scaled about.
pub proof fn lemma_scale_point_identity(p: Point, cx: int, cy: int, cz: int, n: int)
    requires
        n > 0,
    ensures
        spec_scale_point(p, cx, cy, cz, n, n) == p,
{
    lemma_scale_coord_identity(p.x as int, cx, n);
    lemma_scale_coord_identity(p.y as int, cy, n);
    lemma_scale_coord_identity(p.z as int, cz, n);
}

/// Scaling by one is the identity transform: a factor whose numerator
/// equals its denominator leaves every coordinate of every shape unchanged.
pub proof fn lemma_scale_identity(s: Shape, f: ScaleFactor)
    requires
        f.wf(),
        f.num == f.den,
    ensures
        s.spec_scale(f.num as int, f.den as int) == s,
{
    let n = f.num as int;
    match s {
        Shape::Triangle(t) => {
            lemma_scale_point_identity(t.p1, t.centroid_x(), t.centroid_y(), t.centroid_z(), n);
            lemma_scale_point_identity(t.p2, t.centroid_x(), t.centroid_y(), t.centroid_z(), n);
            lemma_scale_point_identity(t.p3, t.centroid_x(), t.centroid_y(), t.centroid_z(), n);
        },
        Shape::Circle(c) => {
            lemma_exact_div(c.radius * n, n, c.radius as int);
        },
        Shape::Line(l) => {
            lemma_scale_point_identity(l.start, l.midpoint_x(), l.midpoint_y(), l.midpoint_z(), n);
            lemma_scale_point_identity(l.end, l.midpoint_x(), l.midpoint_y(), l.midpoint_z(), n);
        },
    }
}

/// One axis of the triangle round trip: scaling the three coordinates by
/// `a / b` exactly keeps their mean, and scaling back by the reciprocal
/// `a2 / b2` restores each coordinate.
proof fn lemma_tri_axis_round_trip(x1: int, x2: int, x3: int, a: int, b: int, a2: int, b2: int)
    requires
        b > 0,
        b2 > 0,
        a * a2 == b * b2,
        (x1 + x2 + x3) % 3 == 0,
        ((x1 - mean3(x1, x2, x3)) * a) % b == 0,
        ((x2 - mean3(x1, x2, x3)) * a) % b == 0,
        ((x3 - mean3(x1, x2, x3)) * a) % b == 0,
    ensures
        mean3(
            scale_coord(x1, mean3(x1, x2, x3), a, b),
            scale_coord(x2, mean3(x1, x2, x3), a, b),
            scale_coord(x3, mean3(x1, x2, x3), a, b),
        ) == mean3(x1, x2, x3),
        scale_coord(scale_coord(x1, mean3(x1, x2, x3), a, b), mean3(x1, x2, x3), a2, b2) == x1,
        scale_coord(scale_coord(x2, mean3(x1, x2, x3), a, b), mean3(x1, x2, x3), a2, b2) == x2,
        scale_coord(scale_coord(x3, mean3(x1, x2, x3), a, b), mean3(x1, x2, x3), a2, b2) == x3,
{
    let s = x1 + x2 + x3;
    let c = mean3(x1, x2, x3);
    lemma_fundamental_div_mod(s, 3);
    assert(s == 3 * c);
    let o1 = x1 - c;
    let o2 = x2 - c;
    let o3 = x3 - c;
    assert(o1 + o2 + o3 == 0);
    let q1 = (o1 * a) / b;
    let q2 = (o2 * a) / b;
    let q3 = (o3 * a) / b;
    lemma_fundamental_div_mod(o1 * a, b);
    lemma_fundamental_div_mod(o2 * a, b);
    lemma_fundamental_div_mod(o3 * a, b);
    assert(q1 * b == o1 * a && q2 * b == o2 * a && q3 * b == o3 * a) by (nonlinear_arith)
        requires
            o1 * a == b * q1 + (o1 * a) % b,
            o2 * a == b * q2 + (o2 * a) % b,
            o3 * a == b * q3 + (o3 * a) % b,
            (o1 * a) % b == 0,
            (o2 * a) % b == 0,
            (o3 * a) % b == 0,
    ;
    assert(q1 + q2 + q3 == 0) by (nonlinear_arith)
        requires
            q1 * b == o1 * a,
            q2 * b == o2 * a,
            q3 * b == o3 * a,
            o1 + o2 + o3 == 0,
            b > 0,
    ;
    let v1 = scale_coord(x1, c, a, b);
    let v2 = scale_coord(x2, c, a, b);
    let v3 = scale_coord(x3, c, a, b);
    assert(v1 + v2 + v3 == 3 * c);
    lemma_div_multiples_vanish(c, 3);
    assert(mean3(v1, v2, v3) == c);
    lemma_offset_round_trip(o1, a, b, a2, b2);
    lemma_offset_round_trip(o2, a, b, a2, b2);
    lemma_offset_round_trip(o3, a, b, a2, b2);
}

/// One axis of the line round trip: scaling the two coordinates by `a / b`
/// exactly keeps their mean, and scaling back by the reciprocal `a2 / b2`
/// restores each coordinate.
proof fn lemma_two_axis_round_trip(x1: int, x2: int, a: int, b: int, a2: int, b2: int)
    requires
        b > 0,
        b2 > 0,
        a * a2 == b * b2,
        (x1 + x2) % 2 == 0,
        ((x1 - mean2(x1, x2)) * a) % b == 0,
        ((x2 - mean2(x1, x2)) * a) % b == 0,
    ensures
        mean2(
            scale_coord(x1, mean2(x1, x2), a, b),
            scale_coord(x2, mean2(x1, x2), a, b),
        ) == mean2(x1, x2),
        scale_coord(scale_coord(x1, mean2(x1, x2), a, b), mean2(x1, x2), a2, b2) == x1,
        scale_coord(scale_coord(x2, mean2(x1, x2), a, b), mean2(x1, x2), a2, b2) == x2,
{
    let s = x1 + x2;
    let c = mean2(x1, x2);
    lemma_fundamental_div_mod(s, 2);
    assert(s == 2 * c);
    let o1 = x1 - c;
    let o2 = x2 - c;
    assert(o1 + o2 == 0);
    let q1 = (o1 * a) / b;
    let q2 = (o2 * a) / b;
    lemma_fundamental_div_mod(o1 * a, b);
    lemma_fundamental_div_mod(o2 * a, b);
    assert(q1 * b == o1 * a && q2 * b == o2 * a) by (nonlinear_arith)
        requires
            o1 * a == b * q1 + (o1 * a) % b,
            o2 * a == b * q2 + (o2 * a) % b,
            (o1 * a) % b == 0,
            (o2 * a) % b == 0,
    ;
    assert(q1 + q2 == 0) by (nonlinear_arith)
        requires
            q1 * b == o1 * a,
            q2 * b == o2 * a,
            o1 + o2 == 0,
            b > 0,
    ;
    let v1 = scale_coord(x1, c, a, b);
    let v2 = scale_coord(x2, c, a, b);
    assert(v1 + v2 == 2 * c);
    lemma_div_multiples_vanish(c, 2);
    assert(mean2(v1, v2) == c);
    lemma_offset_round_trip(o1, a, b, a2, b2);
    lemma_offset_round_trip(o2, a, b, a2, b2);
}

/// Scaling by `num / den` and then by the reciprocal factor restores a
/// well-formed shape exactly, whenever every division of the first
/// transform is exact.  The two factors are reciprocals when the product
/// of their numerators equals the product of their denominators.
pub proof fn lemma_scale_round_trip(s: Shape, f1: ScaleFactor, f2: ScaleFactor)
    requires
        s.wf(),
        f1.wf(),
        f2.wf(),
        f1.num * f2.num == f1.den * f2.den,
        s.scale_exact(f1.num as int, f1.den as int),
    ensures
        s.spec_scale(f1.num as int, f1.den as int).spec_scale(f2.num as int, f2.den as int) == s,
{
    let a = f1.num as int;
    let b = f1.den as int;
    let a2 = f2.num as int;
    let b2 = f2.den as int;
    match s {
        Shape::Triangle(t) => {
            lemma_mean_in_range(t.p1.x + t.p2.x + t.p3.x, 3, COORD_LIMIT as int);
            lemma_mean_in_range(t.p1.y + t.p2.y + t.p3.y, 3, COORD_LIMIT as int);
            lemma_mean_in_range(t.p1.z + t.p2.z + t.p3.z, 3, COORD_LIMIT as int);
            lemma_tri_axis_round_trip(t.p1.x as int, t.p2.x as int, t.p3.x as int, a, b, a2, b2);
            lemma_tri_axis_round_trip(t.p1.y as int, t.p2.y as int, t.p3.y as int, a, b, a2, b2);
            lemma_tri_axis_round_trip(t.p1.z as int, t.p2.z as int, t.p3.z as int, a, b, a2, b2);
            lemma_scale_coord_in_range(t.p1.x as int, t.centroid_x(), a, b);
            lemma_scale_coord_in_range(t.p2.x as int, t.centroid_x(), a, b);
            lemma_scale_coord_in_range(t.p3.x as int, t.centroid_x(), a, b);
            lemma_scale_coord_in_range(t.p1.y as int, t.centroid_y(), a, b);
            lemma_scale_coord_in_range(t.p2.y as int, t.centroid_y(), a, b);
            lemma_scale_coord_in_range(t.p3.y as int, t.centroid_y(), a, b);
            lemma_scale_coord_in_range(t.p1.z as int, t.centroid_z(), a, b);
            lemma_scale_coord_in_range(t.p2.z as int, t.centroid_z(), a, b);
            lemma_scale_coord_in_range(t.p3.z as int, t.centroid_z(), a, b);
            let t1 = t.spec_scale(a, b);
            assert(t1.centroid_x() == t.centroid_x());
            assert(t1.centroid_y() == t.centroid_y());
            assert(t1.centroid_z() == t.centroid_z());
            assert(t1.spec_scale(a2, b2) == t);
        },
        Shape::Circle(c) => {
            lemma_offset_round_trip(c.radius as int, a, b, a2, b2);
            assert(-COORD_LIMIT * FACTOR_LIMIT <= c.radius * a <= COORD_LIMIT * FACTOR_LIMIT)
                by (nonlinear_arith)
                requires
                    -COORD_LIMIT <= c.radius <= COORD_LIMIT,
                    -FACTOR_LIMIT <= a <= FACTOR_LIMIT,
            ;
            lemma_exact_quotient_bound(
                c.radius * a,
                b,
                COORD_LIMIT * FACTOR_LIMIT,
            );
            let c1 = c.spec_scale(a, b);
            assert(c1.spec_scale(a2, b2) == c);
        },
        Shape::Line(l) => {
            lemma_mean_in_range(l.start.x + l.end.x, 2, COORD_LIMIT as int);
            lemma_mean_in_range(l.start.y + l.end.y, 2, COORD_LIMIT as int);
            lemma_mean_in_range(l.start.z + l.end.z, 2, COORD_LIMIT as int);
            lemma_two_axis_round_trip(l.start.x as int, l.end.x as int, a, b, a2, b2);
            lemma_two_axis_round_trip(l.start.y as int, l.end.y as int, a, b, a2, b2);
            lemma_two_axis_round_trip(l.start.z as int, l.end.z as int, a, b, a2, b2);
            lemma_scale_coord_in_range(l.start.x as int, l.midpoint_x(), a, b);
            lemma_scale_coord_in_range(l.end.x as int, l.midpoint_x(), a, b);
            lemma_scale_coord_in_range(l.start.y as int, l.midpoint_y(), a, b);
            lemma_scale_coord_in_range(l.end.y as int, l.midpoint_y(), a, b);
            lemma_scale_coord_in_range(l.start.z as int, l.midpoint_z(), a, b);
            lemma_scale_coord_in_range(l.end.z as int, l.midpoint_z(), a, b);
            let l1 = l.spec_scale(a, b);
            assert(l1.midpoint_x() == l.midpoint_x());
            assert(l1.midpoint_y() == l.midpoint_y());
            assert(l1.midpoint_z() == l.midpoint_z());
            assert(l1.spec_scale(a2, b2) == l);
        },
    }
}

} // verus!

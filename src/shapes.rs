use vstd::prelude::*;
use crate::color::{default_color, Color};
use crate::geometry::{identity_transform, Transform, Vec2, F32_HALF, F32_MINUS_HALF, F32_ZERO};

verus! {

/// What a circle holds, with its class name as characters.
pub struct CircleView {
    pub center: Vec2,
    pub radius: u32,
    pub color: Color,
    pub transform: Transform,
    pub css_class: Option<Seq<char>>,
}

impl CircleView {
    /// The same circle showing `color`.
    pub open spec fn overridden(self, color: Color) -> CircleView {
        CircleView { color, ..self }
    }
}

/// A circle given by its centre and radius, with an explicit colour, a transform and an optional
/// style class.
#[derive(Debug, Clone)]
pub struct Circle {
    pub center: Vec2,
    /// The radius, as an IEEE-754 single-precision bit pattern.
    pub radius: u32,
    pub color: Color,
    pub transform: Transform,
    pub css_class: Option<String>,
}

impl View for Circle {
    type V = CircleView;

    open spec fn view(&self) -> CircleView {
        CircleView {
            center: self.center,
            radius: self.radius,
            color: self.color,
            transform: self.transform,
            css_class: match self.css_class {
                Some(s) => Some(s@),
                None => None,
            },
        }
    }
}

impl Circle {
    /// A circle in the default colour, with the identity transform and no class.
    pub fn new(center: Vec2, radius: u32) -> (s: Circle)
        ensures
            s.center == center,
            s.radius == radius,
            s.color == default_color(),
            s.transform == identity_transform(),
            s.css_class is None,
    {
        Circle {
            center,
            radius,
            color: Color::default(),
            transform: Transform::identity(),
            css_class: None,
        }
    }

    pub fn with_color(self, color: Color) -> (s: Circle)
        ensures
            s@ == (CircleView { color, ..self@ }),
    {
        let mut s = self;
        s.color = color;
        s
    }

    pub fn with_css_class(self, class: &str) -> (s: Circle)
        ensures
            s@ == (CircleView { css_class: Some(class@), ..self@ }),
    {
        broadcast use vstd::string::to_string_from_display_ensures_for_str;

        let mut s = self;
        s.css_class = Some(class.to_string());
        s
    }

    pub fn with_transform(self, transform: Transform) -> (s: Circle)
        ensures
            s@ == (CircleView { transform, ..self@ }),
    {
        let mut s = self;
        s.transform = transform;
        s
    }

    /// Replaces the shown colour with a class override; the colour it had
    /// before is not kept.
    pub fn apply_css_override(&mut self, color: Color)
        ensures
            final(self)@ == old(self)@.overridden(color),
    {
        self.color = color;
    }
}

/// What a rectangle holds, with its class name as characters.
pub struct RectangleView {
    pub position: Vec2,
    pub size: Vec2,
    pub color: Color,
    pub transform: Transform,
    pub css_class: Option<Seq<char>>,
}

impl RectangleView {
    /// The same rectangle showing `color`.
    pub open spec fn overridden(self, color: Color) -> RectangleView {
        RectangleView { color, ..self }
    }
}

/// A rectangle given by its position and size, with an explicit colour, a transform and an optional
/// style class.
#[derive(Debug, Clone)]
pub struct Rectangle {
    pub position: Vec2,
    pub size: Vec2,
    pub color: Color,
    pub transform: Transform,
    pub css_class: Option<String>,
}

impl View for Rectangle {
    type V = RectangleView;

    open spec fn view(&self) -> RectangleView {
        RectangleView {
            position: self.position,
            size: self.size,
            color: self.color,
            transform: self.transform,
            css_class: match self.css_class {
                Some(s) => Some(s@),
                None => None,
            },
        }
    }
}

impl Rectangle {
    /// A rectangle in the default colour, with the identity transform and no class.
    pub fn new(position: Vec2, size: Vec2) -> (s: Rectangle)
        ensures
            s.position == position,
            s.size == size,
            s.color == default_color(),
            s.transform == identity_transform(),
            s.css_class is None,
    {
        Rectangle {
            position,
            size,
            color: Color::default(),
            transform: Transform::identity(),
            css_class: None,
        }
    }

    pub fn with_color(self, color: Color) -> (s: Rectangle)
        ensures
            s@ == (RectangleView { color, ..self@ }),
    {
        let mut s = self;
        s.color = color;
        s
    }

    pub fn with_css_class(self, class: &str) -> (s: Rectangle)
        ensures
            s@ == (RectangleView { css_class: Some(class@), ..self@ }),
    {
        broadcast use vstd::string::to_string_from_display_ensures_for_str;

        let mut s = self;
        s.css_class = Some(class.to_string());
        s
    }

    pub fn with_transform(self, transform: Transform) -> (s: Rectangle)
        ensures
            s@ == (RectangleView { transform, ..self@ }),
    {
        let mut s = self;
        s.transform = transform;
        s
    }

    /// Replaces the shown colour with a class override; the colour it had
    /// before is not kept.
    pub fn apply_css_override(&mut self, color: Color)
        ensures
            final(self)@ == old(self)@.overridden(color),
    {
        self.color = color;
    }
}

/// What a triangle holds, with its class name as characters.
pub struct TriangleView {
    pub vertices: [Vec2; 3],
    pub color: Color,
    pub transform: Transform,
    pub css_class: Option<Seq<char>>,
}

impl TriangleView {
    /// The same triangle showing `color`.
    pub open spec fn overridden(self, color: Color) -> TriangleView {
        TriangleView { color, ..self }
    }
}

/// A triangle given by its three vertices, with an explicit colour, a transform and an optional
/// style class.
#[derive(Debug, Clone)]
pub struct Triangle {
    pub vertices: [Vec2; 3],
    pub color: Color,
    pub transform: Transform,
    pub css_class: Option<String>,
}

impl View for Triangle {
    type V = TriangleView;

    open spec fn view(&self) -> TriangleView {
        TriangleView {
            vertices: self.vertices,
            color: self.color,
            transform: self.transform,
            css_class: match self.css_class {
                Some(s) => Some(s@),
                None => None,
            },
        }
    }
}

impl Triangle {
    /// A triangle in the default colour, with the identity transform and no class.
    pub fn new(vertices: [Vec2; 3]) -> (s: Triangle)
        ensures
            s.vertices == vertices,
            s.color == default_color(),
            s.transform == identity_transform(),
            s.css_class is None,
    {
        Triangle {
            vertices,
            color: Color::default(),
            transform: Transform::identity(),
            css_class: None,
        }
    }

    pub fn with_color(self, color: Color) -> (s: Triangle)
        ensures
            s@ == (TriangleView { color, ..self@ }),
    {
        let mut s = self;
        s.color = color;
        s
    }

    pub fn with_css_class(self, class: &str) -> (s: Triangle)
        ensures
            s@ == (TriangleView { css_class: Some(class@), ..self@ }),
    {
        broadcast use vstd::string::to_string_from_display_ensures_for_str;

        let mut s = self;
        s.css_class = Some(class.to_string());
        s
    }

    pub fn with_transform(self, transform: Transform) -> (s: Triangle)
        ensures
            s@ == (TriangleView { transform, ..self@ }),
    {
        let mut s = self;
        s.transform = transform;
        s
    }

    /// Replaces the shown colour with a class override; the colour it had
    /// before is not kept.
    pub fn apply_css_override(&mut self, color: Color)
        ensures
            final(self)@ == old(self)@.overridden(color),
    {
        self.color = color;
    }
}

impl Default for Rectangle {
    /// The unit square at the origin.
    fn default() -> (s: Rectangle)
        ensures
            s.position == (Vec2 { x: F32_ZERO, y: F32_ZERO }),
            s.size == (Vec2 { x: crate::geometry::F32_ONE, y: crate::geometry::F32_ONE }),
            s.color == default_color(),
            s.transform == identity_transform(),
            s.css_class is None,
    {
        Rectangle::new(Vec2::zero(), Vec2::one())
    }
}

impl Default for Triangle {
    /// The triangle `(0, 0.5)`, `(-0.5, -0.5)`, `(0.5, -0.5)`.
    fn default() -> (s: Triangle)
        ensures
            s.vertices == [
                Vec2 { x: F32_ZERO, y: F32_HALF },
                Vec2 { x: F32_MINUS_HALF, y: F32_MINUS_HALF },
                Vec2 { x: F32_HALF, y: F32_MINUS_HALF },
            ],
            s.color == default_color(),
            s.transform == identity_transform(),
            s.css_class is None,
    {
        Triangle::new(
            [
                Vec2::new(F32_ZERO, F32_HALF),
                Vec2::new(F32_MINUS_HALF, F32_MINUS_HALF),
                Vec2::new(F32_HALF, F32_MINUS_HALF),
            ],
        )
    }
}

/// Applying the same override twice is applying it once: the circle shows that colour.
pub proof fn lemma_circle_override_idempotent(s: CircleView, color: Color)
    ensures
        s.overridden(color).overridden(color) == s.overridden(color),
        s.overridden(color).overridden(color).color == color,
{
}

/// Applying the same override twice is applying it once: the rectangle shows that colour.
pub proof fn lemma_rectangle_override_idempotent(s: RectangleView, color: Color)
    ensures
        s.overridden(color).overridden(color) == s.overridden(color),
        s.overridden(color).overridden(color).color == color,
{
}

/// Applying the same override twice is applying it once: the triangle shows that colour.
pub proof fn lemma_triangle_override_idempotent(s: TriangleView, color: Color)
    ensures
        s.overridden(color).overridden(color) == s.overridden(color),
        s.overridden(color).overridden(color).color == color,
{
}

} // verus!

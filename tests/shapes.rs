use plinth::{Circle, Color, Rectangle, Transform, Triangle, Vec2, F32_HALF, F32_MINUS_HALF, F32_ONE, F32_ZERO};

#[test]
fn override_twice_is_override_once() {
    let c = Color::from_rgba(10, 20, 30, 40);
    let mut shape = Circle::new(Vec2::zero(), 1.0f32.to_bits()).with_color(Color::red());
    shape.apply_css_override(c);
    shape.apply_css_override(c);
    assert_eq!(shape.color, c);
    let mut rect = Rectangle::default();
    rect.apply_css_override(c);
    rect.apply_css_override(c);
    assert_eq!(rect.color, c);
    let mut tri = Triangle::default();
    tri.apply_css_override(c);
    tri.apply_css_override(c);
    assert_eq!(tri.color, c);
}

#[test]
fn new_shapes_start_plain() {
    let c = Circle::new(Vec2::new(1, 2), 3);
    assert_eq!(c.color, Color::from_rgba(255, 255, 255, 255));
    assert_eq!(c.transform, Transform::identity());
    assert!(c.css_class.is_none());
    let r = Rectangle::default();
    assert_eq!(r.position, Vec2::new(F32_ZERO, F32_ZERO));
    assert_eq!(r.size, Vec2::new(F32_ONE, F32_ONE));
    let t = Triangle::default();
    assert_eq!(t.vertices[0], Vec2::new(0.0f32.to_bits(), 0.5f32.to_bits()));
    assert_eq!(t.vertices[1], Vec2::new(F32_MINUS_HALF, (-0.5f32).to_bits()));
    assert_eq!(t.vertices[2], Vec2::new(F32_HALF, F32_MINUS_HALF));
}

#[test]
fn builders_set_fields() {
    let t = Transform::identity().with_position(Vec2::new(1, 1)).with_scale(Vec2::new(2, 2)).with_rotation(3);
    assert_eq!(t, Transform::new(Vec2::new(1, 1), Vec2::new(2, 2), 3));
    assert_eq!(Transform::default(), Transform::identity());
    assert_eq!(Transform::identity().scale, Vec2::new(1.0f32.to_bits(), 1.0f32.to_bits()));
    let c = Circle::new(Vec2::zero(), 0).with_color(Color::blue()).with_css_class("primary").with_transform(t);
    assert_eq!(c.color, Color::blue());
    assert_eq!(c.css_class.as_deref(), Some("primary"));
    assert_eq!(c.transform, t);
    let r = Rectangle::new(Vec2::new(5, 6), Vec2::new(7, 8)).with_css_class("r").with_color(Color::green());
    assert_eq!(r.size, Vec2::new(7, 8));
    assert_eq!(r.css_class.as_deref(), Some("r"));
    let tri = Triangle::new([Vec2::new(1, 1), Vec2::new(2, 2), Vec2::new(3, 3)]).with_transform(t).with_css_class("t");
    assert_eq!(tri.transform, t);
    assert_eq!(tri.vertices[2], Vec2::new(3, 3));
}

#[test]
fn color_defaults_and_names() {
    assert_eq!(Color::default(), Color::white());
    assert_eq!(Color::red(), Color::from_rgba(255, 0, 0, 255));
    assert_eq!(Color::green(), Color::from_rgba(0, 255, 0, 255));
    assert_eq!(Color::blue(), Color::from_rgba(0, 0, 255, 255));
}

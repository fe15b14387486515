use plinth::{apply_style_overrides, BufferWrite, Circle, ClassMapper, Color, CssClass, DrawCall, PrimitiveRenderer, Vec2};

fn circle(x: f32) -> Circle {
    Circle::new(Vec2::new(x.to_bits(), 0), 0.5f32.to_bits())
}

#[test]
fn three_circles_one_frame() {
    let primary = Color::from_hex(0xFF6B35);
    let secondary = Color::from_hex(0x4ECDC4);
    let mut registry = ClassMapper::new();
    registry.add_class(CssClass::new("primary".to_string()).with_color(primary));
    registry.add_class(CssClass::new("secondary".to_string()).with_color(secondary));
    let mut circles = vec![
        circle(0.0).with_color(Color::red()).with_css_class("primary"),
        circle(1.0).with_color(Color::blue()).with_css_class("secondary"),
        circle(2.0).with_color(Color::green()),
    ];
    let mut renderer = PrimitiveRenderer::new();
    let plan = renderer.prepare_frame(&mut circles, &registry, true);
    assert_eq!(circles[0].color, primary);
    assert_eq!(circles[1].color, secondary);
    assert_eq!(circles[2].color, Color::green());
    let batch = renderer.get_circle_batch_mut();
    assert_eq!(batch.len(), 3);
    let records = batch.instances();
    assert_eq!(records[0].color, primary);
    assert_eq!(records[1].color, secondary);
    assert_eq!(records[2].color, Color::green());
    assert_eq!(records[2].center.x, 2.0f32.to_bits());
    assert_eq!(plan.upload, Some(BufferWrite { size: 156, instance_count: 3 }));
    assert_eq!(plan.draw, Some(DrawCall { vertex_count: 6, instance_count: 3 }));
}

#[test]
fn frames_do_not_accumulate() {
    let registry = ClassMapper::new();
    let mut circles = vec![circle(0.0), circle(1.0)];
    let mut renderer = PrimitiveRenderer::new();
    renderer.prepare_frame(&mut circles, &registry, true);
    let plan = renderer.prepare_frame(&mut circles, &registry, true);
    assert_eq!(plan.draw, Some(DrawCall { vertex_count: 6, instance_count: 2 }));
    let mut none: Vec<Circle> = Vec::new();
    let plan = renderer.prepare_frame(&mut none, &registry, true);
    assert_eq!(plan.draw, None);
}

#[test]
fn overrides_follow_registry_changes() {
    let mut registry = ClassMapper::new();
    let mut circles = vec![circle(0.0).with_css_class("a")];
    apply_style_overrides(&mut circles, &registry);
    assert_eq!(circles[0].color, Color::white());
    registry.add_class(CssClass::new("a".to_string()).with_color(Color::red()));
    apply_style_overrides(&mut circles, &registry);
    assert_eq!(circles[0].color, Color::red());
    // A class without a colour override leaves the last resolved colour.
    registry.add_class(CssClass::new("a".to_string()).with_border_color(Color::blue()));
    apply_style_overrides(&mut circles, &registry);
    assert_eq!(circles[0].color, Color::red());
}

use plinth::{
    BufferWrite, Circle, CircleBatch, CircleInstance, Color, DrawCall, InstanceBatch, PrimitiveRenderer, Transform,
    Vec2, INSTANCE_SIZE,
};

fn circle(x: f32, y: f32, r: f32) -> Circle {
    Circle::new(Vec2::new(x.to_bits(), y.to_bits()), r.to_bits())
}

#[test]
fn len_counts_records_since_last_clear() {
    let mut batch = CircleBatch::new();
    batch.add_circle(circle(0.0, 0.0, 1.0));
    batch.add_circles(vec![circle(1.0, 0.0, 1.0), circle(2.0, 0.0, 1.0)]);
    assert_eq!(batch.len(), 3);
    batch.update_buffer();
    assert_eq!(batch.len(), 3);
    batch.clear();
    batch.add_circle(circle(3.0, 0.0, 1.0));
    batch.update_buffer();
    assert_eq!(batch.len(), 1);
    batch.add_circles(Vec::new());
    assert_eq!(batch.len(), 1);
    assert!(!batch.is_empty());
}

#[test]
fn second_sync_writes_nothing() {
    let mut batch = CircleBatch::new();
    batch.add_circles(vec![circle(0.0, 0.0, 1.0), circle(1.0, 1.0, 2.0)]);
    let first = batch.update_buffer();
    assert_eq!(first, Some(BufferWrite { size: 2 * INSTANCE_SIZE, instance_count: 2 }));
    assert_eq!(batch.update_buffer(), None);
    batch.add_circle(circle(2.0, 2.0, 3.0));
    assert_eq!(batch.update_buffer(), Some(BufferWrite { size: 156, instance_count: 3 }));
}

#[test]
fn empty_batch_writes_nothing_and_stays_dirty() {
    let mut batch = CircleBatch::new();
    assert_eq!(batch.update_buffer(), None);
    batch.add_circle(circle(0.0, 0.0, 1.0));
    assert_eq!(batch.update_buffer(), Some(BufferWrite { size: 52, instance_count: 1 }));
    batch.clear();
    assert_eq!(batch.update_buffer(), None);
    // The stale buffer is never drawn from an empty batch.
    assert_eq!(batch.render(true), None);
    batch.add_circle(circle(0.0, 0.0, 1.0));
    assert_eq!(batch.update_buffer(), Some(BufferWrite { size: 52, instance_count: 1 }));
}

#[test]
fn render_needs_pipeline_buffer_and_records() {
    let mut batch = CircleBatch::new();
    batch.add_circle(circle(0.0, 0.0, 1.0));
    assert_eq!(batch.render(true), None);
    batch.update_buffer();
    assert_eq!(batch.render(false), None);
    assert_eq!(batch.render(true), Some(DrawCall { vertex_count: 6, instance_count: 1 }));
}

#[test]
fn trait_view_of_batch() {
    let mut batch = CircleBatch::default();
    batch.add_circle(circle(0.0, 0.0, 1.0));
    assert_eq!(InstanceBatch::len(&batch), 1);
    assert!(!InstanceBatch::is_empty(&batch));
    InstanceBatch::clear(&mut batch);
    assert!(InstanceBatch::is_empty(&batch));
}

#[test]
fn instance_record_copies_circle_fields() {
    let t = Transform::new(Vec2::new(1, 2), Vec2::new(3, 4), 5);
    let c = circle(0.25, -0.5, 0.75).with_color(Color::from_rgba(9, 8, 7, 6)).with_transform(t);
    let r = CircleInstance::from(&c);
    assert_eq!(r.center, Vec2::new(0.25f32.to_bits(), (-0.5f32).to_bits()));
    assert_eq!(r.radius, 0.75f32.to_bits());
    assert_eq!(r.color, Color::from_rgba(9, 8, 7, 6));
    assert_eq!(r.transform_position, Vec2::new(1, 2));
    assert_eq!(r.transform_scale, Vec2::new(3, 4));
    assert_eq!(r.transform_rotation, 5);
}

#[test]
fn renderer_frame_plan() {
    let mut renderer = PrimitiveRenderer::new();
    renderer.add_circle(circle(0.0, 0.0, 1.0));
    renderer.add_circles(vec![circle(1.0, 0.0, 1.0)]);
    let plan = renderer.render(true);
    assert_eq!(plan.upload, Some(BufferWrite { size: 104, instance_count: 2 }));
    assert_eq!(plan.draw, Some(DrawCall { vertex_count: 6, instance_count: 2 }));
    let again = renderer.render(true);
    assert_eq!(again.upload, None);
    assert_eq!(again.draw, Some(DrawCall { vertex_count: 6, instance_count: 2 }));
    renderer.clear_circles();
    let empty = renderer.render(true);
    assert_eq!(empty.upload, None);
    assert_eq!(empty.draw, None);
    assert_eq!(renderer.get_circle_batch_mut().len(), 0);
    renderer.get_circle_batch_mut().add_circle(circle(0.0, 0.0, 1.0));
    assert_eq!(renderer.render(false).upload, Some(BufferWrite { size: 52, instance_count: 1 }));
}

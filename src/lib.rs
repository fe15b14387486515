//! Instanced shape batching with style-class colour overrides.
//!
//! Shapes are transcoded into fixed-layout instance records, grouped per
//! shape kind, and uploaded only when the batch changed. Named style
//! classes carry colour overrides that a resolution pass applies to shapes,
//! and a change watcher folds raw style samples into the class registry.

pub mod batch;
pub mod color;
pub mod geometry;
pub mod shapes;
pub mod mapper;
pub mod parser;
pub mod renderer;
pub mod styles;
pub mod text;
pub mod watcher;

pub use color::{default_color, Color};
pub use geometry::{identity_transform, Transform, Vec2, F32_HALF, F32_MINUS_HALF, F32_ONE, F32_ZERO};
pub use mapper::{resolve, update_css_colors, with_hex_color, ClassMapper, StyleError};
pub use parser::{CssParseError, CssParser};
pub use styles::{ColorProperty, CssClass, CssClassView};
pub use shapes::{Circle, CircleView, Rectangle, RectangleView, Triangle, TriangleView};
pub use batch::{BatchOp, BatchState, BufferWrite, CircleBatch, CircleInstance, DrawCall, InstanceBatch, INSTANCE_SIZE, MAX_INSTANCES, QUAD_VERTICES};
pub use renderer::{apply_style_overrides, resolved, FramePlan, PrimitiveRenderer};
pub use watcher::{class_with_color, distinct_elements, lemma_rescan_unchanged, settled, sample_views, scan, scan_step, CssWatcher, ElementSample, SampleView, ScanState, WatcherView};

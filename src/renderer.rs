use vstd::prelude::*;
use crate::batch::{BatchOp, BatchState, BufferWrite, CircleBatch, CircleInstance, DrawCall, MAX_INSTANCES};
use crate::color::Color;
use crate::mapper::{resolve, ClassMapper};
use crate::shapes::{Circle, CircleView};
use crate::styles::{ColorProperty, CssClassView};

verus! {

/// A circle after override resolution: when it names a class whose colour
/// slot is set, it shows that colour; otherwise it is unchanged.
pub open spec fn resolved(c: CircleView, registry: Map<Seq<char>, CssClassView>) -> CircleView {
    match c.css_class {
        Some(name) => match resolve(registry, name, ColorProperty::Color) {
            Some(color) => c.overridden(color),
            None => c,
        },
        None => c,
    }
}

fn copy_circle(c: &Circle) -> (r: Circle)
    ensures
        r@ == c@,
{
    Circle {
        center: c.center,
        radius: c.radius,
        color: c.color,
        transform: c.transform,
        css_class: match &c.css_class {
            Some(s) => Some(s.clone()),
            None => None,
        },
    }
}

/// The override resolution pass: every circle that names a class with a
/// colour override takes that colour. The registry is only read.
pub fn apply_style_overrides(circles: &mut Vec<Circle>, mapper: &ClassMapper)
    requires
        mapper.wf(),
    ensures
        final(circles)@.len() == old(circles)@.len(),
        forall|i: int|
            0 <= i < old(circles)@.len() ==> #[trigger] final(circles)@[i]@ == resolved(
                old(circles)@[i]@,
                mapper@,
            ),
{
    let ghost start = circles@;
    let mut i: usize = 0;
    while i < circles.len()
        invariant
            mapper.wf(),
            i <= circles@.len() == start.len(),
            forall|k: int| 0 <= k < i ==> #[trigger] circles@[k]@ == resolved(start[k]@, mapper@),
            forall|k: int| i <= k < start.len() ==> #[trigger] circles@[k] == start[k],
        decreases start.len() - i,
    {
        let color: Option<Color> = match &circles[i].css_class {
            Some(name) => mapper.get_color_for_class(name.as_str(), ColorProperty::Color),
            None => None,
        };
        if let Some(color) = color {
            let mut c = copy_circle(&circles[i]);
            c.apply_css_override(color);
            circles.set(i, c);
        }
        i = i + 1;
    }
}

/// The work a frame hands to the GPU: at most one buffer write, then at
/// most one draw.
#[derive(Clone, Copy, Debug, PartialEq, Eq, Structural)]
pub struct FramePlan {
    pub upload: Option<BufferWrite>,
    pub draw: Option<DrawCall>,
}

/// Per-frame orchestration over the circle batch.
pub struct PrimitiveRenderer {
    circle_batch: CircleBatch,
}

impl PrimitiveRenderer {
    /// The state of the circle batch.
    pub closed spec fn view(&self) -> BatchState {
        self.circle_batch@
    }

    pub open spec fn wf(&self) -> bool {
        self@.records.len() <= MAX_INSTANCES
    }

    pub fn new() -> (r: PrimitiveRenderer)
        ensures
            r.wf(),
            r@ == (BatchState { records: Seq::empty(), dirty: true, buffer: None }),
    {
        PrimitiveRenderer { circle_batch: CircleBatch::new() }
    }

    pub fn add_circle(&mut self, circle: Circle)
        requires
            old(self)@.records.len() < MAX_INSTANCES,
        ensures
            final(self).wf(),
            final(self)@ == old(self)@.after(BatchOp::Add(CircleInstance::of(circle@))),
    {
        self.circle_batch.add_circle(circle);
    }

    pub fn add_circles(&mut self, circles: Vec<Circle>)
        requires
            old(self)@.records.len() + circles@.len() <= MAX_INSTANCES,
        ensures
            final(self).wf(),
            final(self)@ == old(self)@.after(
                BatchOp::AddMany(circles@.map_values(|c: Circle| CircleInstance::of(c@))),
            ),
    {
        self.circle_batch.add_circles(circles);
    }

    pub fn clear_circles(&mut self)
        ensures
            final(self).wf(),
            final(self)@ == old(self)@.after(BatchOp::Clear),
    {
        self.circle_batch.clear();
    }

    /// Synchronises the batch and decides the frame's draw.
    pub fn render(&mut self, pipeline_ready: bool) -> (plan: FramePlan)
        requires
            old(self).wf(),
        ensures
            final(self).wf(),
            (final(self)@, plan.upload) == old(self)@.synced(),
            plan.draw == final(self)@.draw(pipeline_ready),
    {
        let upload = self.circle_batch.update_buffer();
        let draw = self.circle_batch.render(pipeline_ready);
        FramePlan { upload, draw }
    }

    /// One whole frame: clear the batch, resolve overrides over `circles`,
    /// add every circle in order, synchronise, and decide the draw. Nothing
    /// of an earlier frame's shapes remains.
    pub fn prepare_frame(
        &mut self,
        circles: &mut Vec<Circle>,
        mapper: &ClassMapper,
        pipeline_ready: bool,
    ) -> (plan: FramePlan)
        requires
            mapper.wf(),
            old(circles)@.len() <= MAX_INSTANCES,
        ensures
            final(circles)@.len() == old(circles)@.len(),
            forall|i: int|
                0 <= i < old(circles)@.len() ==> #[trigger] final(circles)@[i]@ == resolved(
                    old(circles)@[i]@,
                    mapper@,
                ),
            final(self).wf(),
            (final(self)@, plan.upload) == old(self)@.after(BatchOp::Clear).after(
                BatchOp::AddMany(final(circles)@.map_values(|c: Circle| CircleInstance::of(c@))),
            ).synced(),
            plan.draw == final(self)@.draw(pipeline_ready),
    {
        self.circle_batch.clear();
        apply_style_overrides(circles, mapper);
        let ghost cleared = self.circle_batch@;
        let mut i: usize = 0;
        while i < circles.len()
            invariant
                i <= circles@.len() <= MAX_INSTANCES,
                self.circle_batch@ == cleared.after(
                    BatchOp::AddMany(circles@.take(i as int).map_values(|c: Circle| CircleInstance::of(c@))),
                ),
                cleared.records.len() == 0,
                cleared.dirty,
            decreases circles@.len() - i,
        {
            let r = CircleInstance::from(&circles[i]);
            self.circle_batch.push_record(r);
            assert(circles@.take(i + 1).map_values(|c: Circle| CircleInstance::of(c@))
                =~= circles@.take(i as int).map_values(|c: Circle| CircleInstance::of(c@)).push(r));
            i = i + 1;
        }
        assert(circles@.take(i as int) =~= circles@);
        self.render(pipeline_ready)
    }

    /// Direct access to the circle batch.
    pub fn get_circle_batch_mut(&mut self) -> (b: &mut CircleBatch)
        ensures
            b@ == old(self)@,
            final(self)@ == final(b)@,
    {
        &mut self.circle_batch
    }
}

} // verus!

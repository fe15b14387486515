use vstd::prelude::*;
use crate::color::Color;
use crate::geometry::Vec2;
use crate::shapes::{Circle, CircleView};

verus! {

/// Bytes per instance record in the GPU buffer: thirteen 4-byte floats,
/// twelve of data (centre 2, radius 1, colour 4, position 2, scale 2,
/// rotation 1) and one of trailing padding.
pub const INSTANCE_SIZE: u64 = 52;

/// The most records one batch can hold: a draw call counts instances in 32 bits.
pub const MAX_INSTANCES: usize = 0xffff_ffff;

/// Vertices drawn per instance: one quad as two triangles, shaped in the shader.
pub const QUAD_VERTICES: u32 = 6;

/// What every per-kind batch offers for bookkeeping.
pub trait InstanceBatch {
    /// How many instance records the batch holds.
    spec fn instance_count(&self) -> nat;

    fn len(&self) -> (n: usize)
        ensures
            n == self.instance_count(),
    ;

    fn is_empty(&self) -> (b: bool)
        ensures
            b == (self.instance_count() == 0),
    ;

    fn clear(&mut self)
        ensures
            final(self).instance_count() == 0,
    ;
}

/// One circle as the draw pipeline reads it. Float fields hold IEEE-754 bit
/// patterns; the colour is written out as four floats in `[0, 1]`.
#[derive(Clone, Copy, Debug, PartialEq, Eq, Structural)]
pub struct CircleInstance {
    pub center: Vec2,
    pub radius: u32,
    pub color: Color,
    pub transform_position: Vec2,
    pub transform_scale: Vec2,
    pub transform_rotation: u32,
}

impl CircleInstance {
    /// The record of a circle.
    pub open spec fn of(c: CircleView) -> CircleInstance {
        CircleInstance {
            center: c.center,
            radius: c.radius,
            color: c.color,
            transform_position: c.transform.position,
            transform_scale: c.transform.scale,
            transform_rotation: c.transform.rotation,
        }
    }
}

impl<'a> From<&'a Circle> for CircleInstance {
    fn from(circle: &'a Circle) -> (r: CircleInstance)
        ensures
            r == CircleInstance::of(circle@),
    {
        CircleInstance {
            center: circle.center,
            radius: circle.radius,
            color: circle.color,
            transform_position: circle.transform.position,
            transform_scale: circle.transform.scale,
            transform_rotation: circle.transform.rotation,
        }
    }
}

impl<'a> vstd::std_specs::convert::FromSpecImpl<&'a Circle> for CircleInstance {
    open spec fn obeys_from_spec() -> bool {
        true
    }

    open spec fn from_spec(circle: &'a Circle) -> CircleInstance {
        CircleInstance::of(circle@)
    }
}

/// A buffer (re)allocation followed by one write of every record.
#[derive(Clone, Copy, Debug, PartialEq, Eq, Structural)]
pub struct BufferWrite {
    /// Bytes to allocate and write: `instance_count * INSTANCE_SIZE`.
    pub size: u64,
    pub instance_count: u32,
}

/// One instanced draw.
#[derive(Clone, Copy, Debug, PartialEq, Eq, Structural)]
pub struct DrawCall {
    pub vertex_count: u32,
    pub instance_count: u32,
}

/// What a batch holds.
pub struct BatchState {
    pub records: Seq<CircleInstance>,
    /// Whether the records changed since the buffer was last written.
    pub dirty: bool,
    /// How many records the GPU buffer was last written with, if it was.
    pub buffer: Option<nat>,
}

/// An operation on a batch.
pub enum BatchOp {
    Add(CircleInstance),
    AddMany(Seq<CircleInstance>),
    Clear,
    Sync,
}

impl BatchState {
    /// Synchronisation: when dirty and non-empty, the buffer is rewritten
    /// with every record and the batch is clean; otherwise nothing happens
    /// (an empty batch stays dirty and keeps its stale buffer).
    pub open spec fn synced(self) -> (BatchState, Option<BufferWrite>) {
        if self.dirty && self.records.len() > 0 {
            (
                BatchState { dirty: false, buffer: Some(self.records.len()), ..self },
                Some(
                    BufferWrite {
                        size: (self.records.len() * INSTANCE_SIZE) as u64,
                        instance_count: self.records.len() as u32,
                    },
                ),
            )
        } else {
            (self, None)
        }
    }

    /// The state after one operation.
    pub open spec fn after(self, op: BatchOp) -> BatchState {
        match op {
            BatchOp::Add(r) => BatchState { records: self.records.push(r), dirty: true, ..self },
            BatchOp::AddMany(rs) => BatchState { records: self.records + rs, dirty: true, ..self },
            BatchOp::Clear => BatchState { records: Seq::empty(), dirty: true, ..self },
            BatchOp::Sync => self.synced().0,
        }
    }

    /// The draw that rendering issues: one, over every record, when a
    /// pipeline is ready, a buffer was written and there are records.
    pub open spec fn draw(self, pipeline_ready: bool) -> Option<DrawCall> {
        if pipeline_ready && self.buffer is Some && self.records.len() > 0 {
            Some(DrawCall { vertex_count: QUAD_VERTICES, instance_count: self.records.len() as u32 })
        } else {
            None
        }
    }
}

/// The state after a sequence of operations, applied in order.
pub open spec fn replay(s: BatchState, ops: Seq<BatchOp>) -> BatchState
    decreases ops.len(),
{
    if ops.len() == 0 {
        s
    } else {
        replay(s, ops.drop_last()).after(ops.last())
    }
}

/// How many records a sequence of operations adds.
pub open spec fn added(ops: Seq<BatchOp>) -> nat
    decreases ops.len(),
{
    if ops.len() == 0 {
        0
    } else {
        added(ops.drop_last()) + match ops.last() {
            BatchOp::Add(_) => 1nat,
            BatchOp::AddMany(rs) => rs.len(),
            _ => 0nat,
        }
    }
}

/// Whether a sequence of operations holds no `Clear`.
pub open spec fn clear_free(ops: Seq<BatchOp>) -> bool {
    forall|i: int| 0 <= i < ops.len() ==> !(#[trigger] ops[i] is Clear)
}

proof fn lemma_replay_append(s: BatchState, a: Seq<BatchOp>, b: Seq<BatchOp>)
    ensures
        replay(s, a + b) == replay(replay(s, a), b),
    decreases b.len(),
{
    if b.len() == 0 {
        assert(a + b =~= a);
    } else {
        assert((a + b).drop_last() =~= a + b.drop_last());
        assert((a + b).last() == b.last());
        lemma_replay_append(s, a, b.drop_last());
    }
}

/// Without a `Clear`, the batch grows by exactly the records added, and
/// synchronisation leaves the records alone.
pub proof fn lemma_len_counts_adds(s: BatchState, ops: Seq<BatchOp>)
    requires
        clear_free(ops),
    ensures
        replay(s, ops).records.len() == s.records.len() + added(ops),
    decreases ops.len(),
{
    if ops.len() > 0 {
        assert(clear_free(ops.drop_last())) by {
            assert forall|i: int| 0 <= i < ops.drop_last().len() implies !(
            #[trigger] ops.drop_last()[i] is Clear) by {
                assert(ops.drop_last()[i] == ops[i]);
            }
        }
        assert(!(ops[ops.len() - 1] is Clear));
        lemma_len_counts_adds(s, ops.drop_last());
    }
}

/// After any sequence of operations whose last `Clear` is followed by
/// `tail`, the batch holds exactly the records added in `tail`, whatever
/// came before and however often it was synchronised.
pub proof fn lemma_len_since_last_clear(s: BatchState, before: Seq<BatchOp>, tail: Seq<BatchOp>)
    requires
        clear_free(tail),
    ensures
        replay(s, before.push(BatchOp::Clear) + tail).records.len() == added(tail),
{
    lemma_replay_append(s, before.push(BatchOp::Clear), tail);
    assert(before.push(BatchOp::Clear).drop_last() =~= before);
    lemma_len_counts_adds(replay(s, before.push(BatchOp::Clear)), tail);
}

/// A second synchronisation with no change in between writes nothing and
/// changes nothing: at most one buffer write per change.
pub proof fn lemma_sync_twice(s: BatchState)
    ensures
        s.synced().0.synced().1 is None,
        s.synced().0.synced().0 == s.synced().0,
{
}

/// The circles of a frame as instance records, with the state of their GPU
/// buffer. The buffer and pipeline objects themselves belong to the caller,
/// which carries out the writes and draws that this batch decides.
pub struct CircleBatch {
    instances: Vec<CircleInstance>,
    needs_update: bool,
    buffer_records: Option<usize>,
}

impl CircleBatch {
    pub closed spec fn view(&self) -> BatchState {
        BatchState {
            records: self.instances@,
            dirty: self.needs_update,
            buffer: match self.buffer_records {
                Some(n) => Some(n as nat),
                None => None,
            },
        }
    }

    /// Well-formedness: the records fit in one draw call.
    pub open spec fn wf(&self) -> bool {
        self@.records.len() <= MAX_INSTANCES
    }

    /// An empty batch, dirty, with no buffer yet.
    pub fn new() -> (b: CircleBatch)
        ensures
            b.wf(),
            b@ == (BatchState { records: Seq::empty(), dirty: true, buffer: None }),
    {
        CircleBatch { instances: Vec::new(), needs_update: true, buffer_records: None }
    }

    /// Appends the record of `circle`.
    pub fn add_circle(&mut self, circle: Circle)
        requires
            old(self)@.records.len() < MAX_INSTANCES,
        ensures
            final(self).wf(),
            final(self)@ == old(self)@.after(BatchOp::Add(CircleInstance::of(circle@))),
    {
        let r = CircleInstance::from(&circle);
        self.instances.push(r);
        self.needs_update = true;
    }

    /// Appends the records of `circles`, in order.
    pub fn add_circles(&mut self, circles: Vec<Circle>)
        requires
            old(self)@.records.len() + circles@.len() <= MAX_INSTANCES,
        ensures
            final(self).wf(),
            final(self)@ == old(self)@.after(
                BatchOp::AddMany(circles@.map_values(|c: Circle| CircleInstance::of(c@))),
            ),
    {
        let ghost start = self.instances@;
        let mut i: usize = 0;
        while i < circles.len()
            invariant
                i <= circles@.len(),
                self.instances@ == start + circles@.take(i as int).map_values(
                    |c: Circle| CircleInstance::of(c@),
                ),
                self.buffer_records == old(self).buffer_records,
            decreases circles@.len() - i,
        {
            let r = CircleInstance::from(&circles[i]);
            self.instances.push(r);
            assert(circles@.take(i + 1).map_values(|c: Circle| CircleInstance::of(c@))
                =~= circles@.take(i as int).map_values(|c: Circle| CircleInstance::of(c@)).push(r));
            i = i + 1;
        }
        assert(circles@.take(i as int) =~= circles@);
        self.needs_update = true;
    }

    /// Appends one record.
    pub(crate) fn push_record(&mut self, r: CircleInstance)
        requires
            old(self)@.records.len() < MAX_INSTANCES,
        ensures
            final(self).wf(),
            final(self)@ == old(self)@.after(BatchOp::Add(r)),
    {
        self.instances.push(r);
        self.needs_update = true;
    }

    /// Drops every record; the buffer stays until the next write.
    pub fn clear(&mut self)
        ensures
            final(self).wf(),
            final(self)@ == old(self)@.after(BatchOp::Clear),
    {
        self.instances.clear();
        self.needs_update = true;
        assert(self.instances@ =~= Seq::<CircleInstance>::empty());
    }

    pub fn len(&self) -> (n: usize)
        ensures
            n == self@.records.len(),
    {
        self.instances.len()
    }

    pub fn is_empty(&self) -> (b: bool)
        ensures
            b == (self@.records.len() == 0),
    {
        self.instances.len() == 0
    }

    /// The records, in the order they were added.
    pub fn instances(&self) -> (r: &[CircleInstance])
        ensures
            r@ == self@.records,
    {
        self.instances.as_slice()
    }

    /// Decides whether the GPU buffer must be rewritten, and records that it
    /// was: the caller allocates `size` bytes and writes every record.
    pub fn update_buffer(&mut self) -> (w: Option<BufferWrite>)
        requires
            old(self).wf(),
        ensures
            final(self).wf(),
            (final(self)@, w) == old(self)@.synced(),
    {
        if self.needs_update && self.instances.len() > 0 {
            let n = self.instances.len();
            self.buffer_records = Some(n);
            self.needs_update = false;
            Some(BufferWrite { size: n as u64 * INSTANCE_SIZE, instance_count: n as u32 })
        } else {
            None
        }
    }

    /// The draw to issue this frame, if any.
    pub fn render(&self, pipeline_ready: bool) -> (d: Option<DrawCall>)
        requires
            self.wf(),
        ensures
            d == self@.draw(pipeline_ready),
    {
        if pipeline_ready && self.buffer_records.is_some() && self.instances.len() > 0 {
            Some(DrawCall { vertex_count: QUAD_VERTICES, instance_count: self.instances.len() as u32 })
        } else {
            None
        }
    }
}

impl Default for CircleBatch {
    fn default() -> (b: CircleBatch)
        ensures
            b.wf(),
            b@ == (BatchState { records: Seq::empty(), dirty: true, buffer: None }),
    {
        CircleBatch::new()
    }
}

impl InstanceBatch for CircleBatch {
    open spec fn instance_count(&self) -> nat {
        self@.records.len()
    }

    fn len(&self) -> (n: usize) {
        self.instances.len()
    }

    fn is_empty(&self) -> (b: bool) {
        self.instances.len() == 0
    }

    fn clear(&mut self) {
        CircleBatch::clear(self);
    }
}

} // verus!

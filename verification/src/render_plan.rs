use vstd::prelude::*;
use std::ops::Range;
use crate::ids::{RenderTargetId, SeqNo};

verus! {

/// Width of the indices in an index buffer.
#[derive(Debug, Clone, Copy, PartialEq, Eq, Structural)]
pub enum WgpuIndexFormat {
    Uint16,
    Uint32,
}

/// One indexed draw: buffers, index count and instances.
#[derive(Debug, Clone, Copy, PartialEq, Eq)]
pub struct WgpuDrawIndexedPlan {
    pub vertex_slot: u32,
    pub index_format: WgpuIndexFormat,
    pub index_count: u32,
    pub base_vertex: i32,
    pub first_instance: u32,
    pub instance_count: u32,
}

/// The single-instance draw of `index_count` 32-bit indices from vertex slot 0.
pub open spec fn single_draw(index_format: WgpuIndexFormat, index_count: u32) -> WgpuDrawIndexedPlan {
    WgpuDrawIndexedPlan {
        vertex_slot: 0,
        index_format,
        index_count,
        base_vertex: 0,
        first_instance: 0,
        instance_count: 1,
    }
}

impl WgpuDrawIndexedPlan {
    /// The draw of uploaded vertex and index data, when there is some of both.
    pub fn from_upload_bytes(vertex_count: u32, index_count: u32) -> (plan: Option<Self>)
        ensures
            plan == if vertex_count == 0 || index_count == 0 {
                None
            } else {
                Some(single_draw(WgpuIndexFormat::Uint32, index_count))
            },
    {
        if vertex_count == 0 || index_count == 0 {
            return None;
        }
        Some(
            WgpuDrawIndexedPlan {
                vertex_slot: 0,
                index_format: WgpuIndexFormat::Uint32,
                index_count,
                base_vertex: 0,
                first_instance: 0,
                instance_count: 1,
            },
        )
    }

    /// The draw of uploaded buffers, in the format of their index buffer, when
    /// they hold vertices and indices.
    pub fn from_uploaded_buffers(vertex_count: u32, index_count: u32, index_format: WgpuIndexFormat) -> (plan:
        Option<Self>)
        ensures
            plan == if vertex_count == 0 || index_count == 0 {
                None
            } else {
                Some(single_draw(index_format, index_count))
            },
    {
        if vertex_count == 0 || index_count == 0 {
            return None;
        }
        Some(
            WgpuDrawIndexedPlan {
                vertex_slot: 0,
                index_format,
                index_count,
                base_vertex: 0,
                first_instance: 0,
                instance_count: 1,
            },
        )
    }

    pub fn index_range(&self) -> (range: Range<u32>)
        ensures
            range.start == 0,
            range.end == self.index_count,
    {
        0..self.index_count
    }

    pub fn instance_range(&self) -> (range: Range<u32>)
        requires
            self.first_instance + self.instance_count <= u32::MAX,
        ensures
            range.start == self.first_instance,
            range.end == self.first_instance + self.instance_count,
    {
        self.first_instance..self.first_instance + self.instance_count
    }
}

/// Counts of the indexed draws made.
#[derive(Debug, Clone, Copy, Default, PartialEq, Eq)]
pub struct WgpuDrawIndexedStats {
    pub draw_count: u64,
    pub last_index_count: u32,
    pub last_instance_count: u32,
}

impl WgpuDrawIndexedStats {
    pub fn record(&mut self, plan: WgpuDrawIndexedPlan)
        requires
            old(self).draw_count < u64::MAX,
        ensures
            final(self).draw_count == old(self).draw_count + 1,
            final(self).last_index_count == plan.index_count,
            final(self).last_instance_count == plan.instance_count,
    {
        self.draw_count = self.draw_count + 1;
        self.last_index_count = plan.index_count;
        self.last_instance_count = plan.instance_count;
    }
}

/// One command of a render pass.
#[derive(Debug, PartialEq, Eq)]
pub enum WgpuRenderPassCommand {
    SetPipeline,
    SetBindGroup { index: u32, dynamic_offsets: Vec<u32> },
    SetVertexBuffer { slot: u32 },
    SetIndexBuffer { format: WgpuIndexFormat },
    DrawIndexed { indices: Range<u32>, base_vertex: i32, instances: Range<u32> },
}

/// A render pass command as plain values.
pub enum RenderPassCall {
    SetPipeline,
    SetBindGroup { index: u32, dynamic_offsets: Seq<u32> },
    SetVertexBuffer { slot: u32 },
    SetIndexBuffer { format: WgpuIndexFormat },
    DrawIndexed {
        index_start: u32,
        index_end: u32,
        base_vertex: i32,
        instance_start: u32,
        instance_end: u32,
    },
}

impl View for WgpuRenderPassCommand {
    type V = RenderPassCall;

    open spec fn view(&self) -> RenderPassCall {
        match self {
            WgpuRenderPassCommand::SetPipeline => RenderPassCall::SetPipeline,
            WgpuRenderPassCommand::SetBindGroup { index, dynamic_offsets } => RenderPassCall::SetBindGroup {
                index: *index,
                dynamic_offsets: dynamic_offsets@,
            },
            WgpuRenderPassCommand::SetVertexBuffer { slot } => RenderPassCall::SetVertexBuffer {
                slot: *slot,
            },
            WgpuRenderPassCommand::SetIndexBuffer { format } => RenderPassCall::SetIndexBuffer {
                format: *format,
            },
            WgpuRenderPassCommand::DrawIndexed { indices, base_vertex, instances } => RenderPassCall::DrawIndexed {
                index_start: indices.start,
                index_end: indices.end,
                base_vertex: *base_vertex,
                instance_start: instances.start,
                instance_end: instances.end,
            },
        }
    }
}

pub open spec fn commands_view(commands: Seq<WgpuRenderPassCommand>) -> Seq<RenderPassCall> {
    commands.map_values(|c: WgpuRenderPassCommand| c@)
}

pub open spec fn is_draw_call(call: RenderPassCall) -> bool {
    call is DrawIndexed
}

/// The number of indexed draws among `calls`.
pub open spec fn draw_call_count(calls: Seq<RenderPassCall>) -> nat
    decreases calls.len(),
{
    if calls.len() == 0 {
        0
    } else {
        draw_call_count(calls.drop_last()) + if is_draw_call(calls.last()) {
            1nat
        } else {
            0nat
        }
    }
}

/// The indices drawn by the indexed draws among `calls`.
pub open spec fn drawn_index_total(calls: Seq<RenderPassCall>) -> int
    decreases calls.len(),
{
    if calls.len() == 0 {
        0
    } else {
        drawn_index_total(calls.drop_last()) + match calls.last() {
            RenderPassCall::DrawIndexed { index_start, index_end, .. } => index_end - index_start,
            _ => 0,
        }
    }
}

/// The five commands of a terminal pass for one indexed draw.
pub open spec fn terminal_pass_calls(plan: WgpuDrawIndexedPlan) -> Seq<RenderPassCall> {
    seq![
        RenderPassCall::SetPipeline,
        RenderPassCall::SetBindGroup { index: 0, dynamic_offsets: Seq::empty() },
        RenderPassCall::SetVertexBuffer { slot: plan.vertex_slot },
        RenderPassCall::SetIndexBuffer { format: plan.index_format },
        RenderPassCall::DrawIndexed {
            index_start: 0,
            index_end: plan.index_count,
            base_vertex: plan.base_vertex,
            instance_start: plan.first_instance,
            instance_end: (plan.first_instance + plan.instance_count) as u32,
        },
    ]
}

fn copy_offsets(offsets: &[u32]) -> (copy: Vec<u32>)
    ensures
        copy@ == offsets@,
{
    let mut copy: Vec<u32> = Vec::new();
    let mut i: usize = 0;
    while i < offsets.len()
        invariant
            i <= offsets@.len(),
            copy@ == offsets@.subrange(0, i as int),
        decreases offsets@.len() - i,
    {
        copy.push(offsets[i]);
        i = i + 1;
        assert(copy@ =~= offsets@.subrange(0, i as int));
    }
    assert(offsets@.subrange(0, i as int) =~= offsets@);
    copy
}

impl WgpuRenderPassCommand {
    pub fn duplicate(&self) -> (copy: Self)
        ensures
            copy@ == self@,
    {
        match self {
            WgpuRenderPassCommand::SetPipeline => WgpuRenderPassCommand::SetPipeline,
            WgpuRenderPassCommand::SetBindGroup { index, dynamic_offsets } => WgpuRenderPassCommand::SetBindGroup {
                index: *index,
                dynamic_offsets: copy_offsets(dynamic_offsets.as_slice()),
            },
            WgpuRenderPassCommand::SetVertexBuffer { slot } => WgpuRenderPassCommand::SetVertexBuffer {
                slot: *slot,
            },
            WgpuRenderPassCommand::SetIndexBuffer { format } => WgpuRenderPassCommand::SetIndexBuffer {
                format: *format,
            },
            WgpuRenderPassCommand::DrawIndexed { indices, base_vertex, instances } => WgpuRenderPassCommand::DrawIndexed {
                indices: indices.start..indices.end,
                base_vertex: *base_vertex,
                instances: instances.start..instances.end,
            },
        }
    }

    pub fn is_draw_indexed(&self) -> (r: bool)
        ensures
            r == is_draw_call(self@),
    {
        match self {
            WgpuRenderPassCommand::DrawIndexed { .. } => true,
            _ => false,
        }
    }
}

/// The commands of one terminal render pass.
#[derive(Debug, PartialEq, Eq)]
pub struct WgpuTerminalRenderPassPlan {
    pub commands: Vec<WgpuRenderPassCommand>,
}

impl WgpuTerminalRenderPassPlan {
    /// The pass that draws `draw_plan`: pipeline, bind group 0 with no dynamic
    /// offsets, vertex buffer, index buffer, indexed draw.
    pub fn new(draw_plan: WgpuDrawIndexedPlan) -> (plan: Self)
        requires
            draw_plan.first_instance + draw_plan.instance_count <= u32::MAX,
        ensures
            commands_view(plan.commands@) == terminal_pass_calls(draw_plan),
    {
        let mut commands: Vec<WgpuRenderPassCommand> = Vec::new();
        commands.push(WgpuRenderPassCommand::SetPipeline);
        commands.push(WgpuRenderPassCommand::SetBindGroup { index: 0, dynamic_offsets: Vec::new() });
        commands.push(WgpuRenderPassCommand::SetVertexBuffer { slot: draw_plan.vertex_slot });
        commands.push(WgpuRenderPassCommand::SetIndexBuffer { format: draw_plan.index_format });
        commands.push(
            WgpuRenderPassCommand::DrawIndexed {
                indices: draw_plan.index_range(),
                base_vertex: draw_plan.base_vertex,
                instances: draw_plan.instance_range(),
            },
        );
        let plan = WgpuTerminalRenderPassPlan { commands };
        assert(commands_view(plan.commands@) =~= terminal_pass_calls(draw_plan));
        plan
    }

    pub fn is_empty(&self) -> (r: bool)
        ensures
            r == (self.commands@.len() == 0),
    {
        self.commands.len() == 0
    }

    pub fn len(&self) -> (r: usize)
        ensures
            r == self.commands@.len(),
    {
        self.commands.len()
    }

    pub fn has_draw_indexed(&self) -> (r: bool)
        ensures
            r == (draw_call_count(commands_view(self.commands@)) > 0),
    {
        count_draws(&self.commands) > 0
    }

    /// The commands again, as equal values.
    pub fn duplicate_commands(&self) -> (commands: Vec<WgpuRenderPassCommand>)
        ensures
            commands_view(commands@) == commands_view(self.commands@),
    {
        let mut commands: Vec<WgpuRenderPassCommand> = Vec::new();
        let mut i: usize = 0;
        while i < self.commands.len()
            invariant
                i <= self.commands@.len(),
                commands_view(commands@) == commands_view(self.commands@.subrange(0, i as int)),
            decreases self.commands@.len() - i,
        {
            let ghost before = commands@;
            commands.push(self.commands[i].duplicate());
            proof {
                lemma_view_prefix(self.commands@, i as int);
                assert(commands_view(commands@) =~= commands_view(before).push(self.commands@[i as int]@));
            }
            i = i + 1;
        }
        assert(self.commands@.subrange(0, i as int) =~= self.commands@);
        commands
    }
}

proof fn lemma_view_prefix(commands: Seq<WgpuRenderPassCommand>, i: int)
    requires
        0 <= i < commands.len(),
    ensures
        commands_view(commands.subrange(0, i + 1)).drop_last() == commands_view(commands.subrange(0, i)),
        commands_view(commands.subrange(0, i + 1)).last() == commands[i]@,
{
    assert(commands_view(commands.subrange(0, i + 1)).drop_last() =~= commands_view(
        commands.subrange(0, i),
    ));
}

/// The number of indexed draws among `commands`.
pub fn count_draws(commands: &Vec<WgpuRenderPassCommand>) -> (count: usize)
    ensures
        count == draw_call_count(commands_view(commands@)),
{
    let mut count: usize = 0;
    let mut i: usize = 0;
    while i < commands.len()
        invariant
            i <= commands@.len(),
            count == draw_call_count(commands_view(commands@.subrange(0, i as int))),
            count <= i,
        decreases commands@.len() - i,
    {
        proof {
            lemma_view_prefix(commands@, i as int);
        }
        if commands[i].is_draw_indexed() {
            count = count + 1;
        }
        i = i + 1;
    }
    assert(commands@.subrange(0, i as int) =~= commands@);
    count
}

/// The indices drawn by the indexed draws among `commands`.
pub fn count_drawn_indices(commands: &Vec<WgpuRenderPassCommand>) -> (total: u32)
    requires
        drawn_index_total(commands_view(commands@)) <= u32::MAX,
        forall|i: int|
            0 <= i < commands@.len() ==> (#[trigger] commands@[i]@ matches RenderPassCall::DrawIndexed {
                index_start,
                index_end,
                ..
            } ==> index_start <= index_end),
    ensures
        total == drawn_index_total(commands_view(commands@)),
{
    let mut total: u32 = 0;
    let mut i: usize = 0;
    while i < commands.len()
        invariant
            i <= commands@.len(),
            total == drawn_index_total(commands_view(commands@.subrange(0, i as int))),
            drawn_index_total(commands_view(commands@)) <= u32::MAX,
            forall|i: int|
                0 <= i < commands@.len() ==> (#[trigger] commands@[i]@ matches RenderPassCall::DrawIndexed {
                    index_start,
                    index_end,
                    ..
                } ==> index_start <= index_end),
        decreases commands@.len() - i,
    {
        proof {
            lemma_view_prefix(commands@, i as int);
            lemma_drawn_total_prefix_bounded(commands@, i as int + 1);
        }
        match &commands[i] {
            WgpuRenderPassCommand::DrawIndexed { indices, .. } => {
                total = total + (indices.end - indices.start);
            },
            _ => {},
        }
        i = i + 1;
    }
    assert(commands@.subrange(0, i as int) =~= commands@);
    total
}

proof fn lemma_drawn_total_prefix_bounded(commands: Seq<WgpuRenderPassCommand>, n: int)
    requires
        0 <= n <= commands.len(),
        forall|i: int|
            0 <= i < commands.len() ==> (#[trigger] commands[i]@ matches RenderPassCall::DrawIndexed {
                index_start,
                index_end,
                ..
            } ==> index_start <= index_end),
    ensures
        0 <= drawn_index_total(commands_view(commands.subrange(0, n))) <= drawn_index_total(
            commands_view(commands),
        ),
    decreases commands.len() - n,
{
    if n < commands.len() {
        lemma_drawn_total_prefix_bounded(commands, n + 1);
        lemma_view_prefix(commands, n);
    } else {
        assert(commands.subrange(0, n) =~= commands);
    }
    lemma_drawn_total_nonnegative(commands, n);
}

proof fn lemma_drawn_total_nonnegative(commands: Seq<WgpuRenderPassCommand>, n: int)
    requires
        0 <= n <= commands.len(),
        forall|i: int|
            0 <= i < commands.len() ==> (#[trigger] commands[i]@ matches RenderPassCall::DrawIndexed {
                index_start,
                index_end,
                ..
            } ==> index_start <= index_end),
    ensures
        drawn_index_total(commands_view(commands.subrange(0, n))) >= 0,
    decreases n,
{
    if n > 0 {
        lemma_view_prefix(commands, n - 1);
        lemma_drawn_total_nonnegative(commands, n - 1);
    }
}

/// Records the commands of render pass plans.
#[derive(Debug, Default, PartialEq, Eq)]
pub struct WgpuRenderPassPlanRecorder {
    pub recorded: Vec<WgpuRenderPassCommand>,
}

impl WgpuRenderPassPlanRecorder {
    pub fn new() -> (recorder: Self)
        ensures
            recorder.recorded@.len() == 0,
    {
        WgpuRenderPassPlanRecorder { recorded: Vec::new() }
    }

    pub fn record_plan(&mut self, plan: &WgpuTerminalRenderPassPlan)
        ensures
            commands_view(final(self).recorded@) == commands_view(old(self).recorded@) + commands_view(
                plan.commands@,
            ),
    {
        let mut copy = plan.duplicate_commands();
        let ghost before = self.recorded@;
        self.recorded.append(&mut copy);
        assert(commands_view(self.recorded@) =~= commands_view(before) + commands_view(plan.commands@));
    }

    pub fn command_count(&self) -> (r: usize)
        ensures
            r == self.recorded@.len(),
    {
        self.recorded.len()
    }

    pub fn draw_count(&self) -> (r: usize)
        ensures
            r == draw_call_count(commands_view(self.recorded@)),
    {
        count_draws(&self.recorded)
    }

    pub fn clear(&mut self)
        ensures
            final(self).recorded@.len() == 0,
    {
        self.recorded.clear();
    }
}

/// A device that render pass commands are issued to.
pub trait WgpuTerminalRenderPassEncoder {
    /// The calls this encoder has received, in order.
    spec fn calls(&self) -> Seq<RenderPassCall>;

    fn set_pipeline(&mut self)
        ensures
            final(self).calls() == old(self).calls().push(RenderPassCall::SetPipeline),
    ;

    fn set_bind_group(&mut self, index: u32, dynamic_offsets: &[u32])
        ensures
            final(self).calls() == old(self).calls().push(
                RenderPassCall::SetBindGroup { index, dynamic_offsets: dynamic_offsets@ },
            ),
    ;

    fn set_vertex_buffer(&mut self, slot: u32)
        ensures
            final(self).calls() == old(self).calls().push(RenderPassCall::SetVertexBuffer { slot }),
    ;

    fn set_index_buffer(&mut self, format: WgpuIndexFormat)
        ensures
            final(self).calls() == old(self).calls().push(RenderPassCall::SetIndexBuffer { format }),
    ;

    fn draw_indexed(&mut self, indices: Range<u32>, base_vertex: i32, instances: Range<u32>)
        ensures
            final(self).calls() == old(self).calls().push(
                RenderPassCall::DrawIndexed {
                    index_start: indices.start,
                    index_end: indices.end,
                    base_vertex,
                    instance_start: instances.start,
                    instance_end: instances.end,
                },
            ),
    ;
}

/// Issues the commands of a render pass plan to an encoder.
#[derive(Debug, Clone, Copy, Default)]
pub struct WgpuTerminalRenderPassPlanEncoder;

impl WgpuTerminalRenderPassPlanEncoder {
    pub fn new() -> (encoder: Self) {
        WgpuTerminalRenderPassPlanEncoder
    }

    /// Issues every command of `plan`, in order.
    pub fn encode<E: WgpuTerminalRenderPassEncoder>(&self, plan: &WgpuTerminalRenderPassPlan, encoder: &mut E)
        ensures
            final(encoder).calls() == old(encoder).calls() + commands_view(plan.commands@),
    {
        let ghost start = encoder.calls();
        let mut i: usize = 0;
        while i < plan.commands.len()
            invariant
                i <= plan.commands@.len(),
                encoder.calls() == start + commands_view(plan.commands@.subrange(0, i as int)),
            decreases plan.commands@.len() - i,
        {
            proof {
                lemma_view_prefix(plan.commands@, i as int);
            }
            match &plan.commands[i] {
                WgpuRenderPassCommand::SetPipeline => {
                    encoder.set_pipeline();
                },
                WgpuRenderPassCommand::SetBindGroup { index, dynamic_offsets } => {
                    encoder.set_bind_group(*index, dynamic_offsets.as_slice());
                },
                WgpuRenderPassCommand::SetVertexBuffer { slot } => {
                    encoder.set_vertex_buffer(*slot);
                },
                WgpuRenderPassCommand::SetIndexBuffer { format } => {
                    encoder.set_index_buffer(*format);
                },
                WgpuRenderPassCommand::DrawIndexed { indices, base_vertex, instances } => {
                    encoder.draw_indexed(indices.start..indices.end, *base_vertex, instances.start..instances.end);
                },
            }
            proof {
                let prefix = commands_view(plan.commands@.subrange(0, i as int + 1));
                assert(prefix =~= commands_view(plan.commands@.subrange(0, i as int)).push(plan.commands@[i as int]@));
                assert(start + prefix =~= (start + commands_view(plan.commands@.subrange(0, i as int))).push(
                    plan.commands@[i as int]@,
                ));
            }
            i = i + 1;
        }
        assert(plan.commands@.subrange(0, i as int) =~= plan.commands@);
    }
}

/// A call that a recording encoder received.
pub type RecordedWgpuRenderPassCall = WgpuRenderPassCommand;

/// An encoder that only records the calls it receives.
#[derive(Debug, Default, PartialEq, Eq)]
pub struct RecordingWgpuTerminalRenderPassEncoder {
    pub calls: Vec<WgpuRenderPassCommand>,
}

impl RecordingWgpuTerminalRenderPassEncoder {
    pub fn new() -> (encoder: Self)
        ensures
            encoder.calls@.len() == 0,
    {
        RecordingWgpuTerminalRenderPassEncoder { calls: Vec::new() }
    }

    pub fn call_count(&self) -> (r: usize)
        ensures
            r == self.calls@.len(),
    {
        self.calls.len()
    }

    pub fn draw_count(&self) -> (r: usize)
        ensures
            r == draw_call_count(commands_view(self.calls@)),
    {
        count_draws(&self.calls)
    }

    pub fn clear(&mut self)
        ensures
            final(self).calls@.len() == 0,
    {
        self.calls.clear();
    }
}

impl WgpuTerminalRenderPassEncoder for RecordingWgpuTerminalRenderPassEncoder {
    open spec fn calls(&self) -> Seq<RenderPassCall> {
        commands_view(self.calls@)
    }

    fn set_pipeline(&mut self) {
        self.calls.push(WgpuRenderPassCommand::SetPipeline);
        assert(commands_view(self.calls@) =~= commands_view(old(self).calls@).push(RenderPassCall::SetPipeline));
    }

    fn set_bind_group(&mut self, index: u32, dynamic_offsets: &[u32]) {
        self.calls.push(
            WgpuRenderPassCommand::SetBindGroup { index, dynamic_offsets: copy_offsets(dynamic_offsets) },
        );
        assert(commands_view(self.calls@) =~= commands_view(old(self).calls@).push(
            RenderPassCall::SetBindGroup { index, dynamic_offsets: dynamic_offsets@ },
        ));
    }

    fn set_vertex_buffer(&mut self, slot: u32) {
        self.calls.push(WgpuRenderPassCommand::SetVertexBuffer { slot });
        assert(commands_view(self.calls@) =~= commands_view(old(self).calls@).push(
            RenderPassCall::SetVertexBuffer { slot },
        ));
    }

    fn set_index_buffer(&mut self, format: WgpuIndexFormat) {
        self.calls.push(WgpuRenderPassCommand::SetIndexBuffer { format });
        assert(commands_view(self.calls@) =~= commands_view(old(self).calls@).push(
            RenderPassCall::SetIndexBuffer { format },
        ));
    }

    fn draw_indexed(&mut self, indices: Range<u32>, base_vertex: i32, instances: Range<u32>) {
        let ghost call = RenderPassCall::DrawIndexed {
            index_start: indices.start,
            index_end: indices.end,
            base_vertex,
            instance_start: instances.start,
            instance_end: instances.end,
        };
        self.calls.push(WgpuRenderPassCommand::DrawIndexed { indices, base_vertex, instances });
        assert(commands_view(self.calls@) =~= commands_view(old(self).calls@).push(call));
    }
}

/// What encoding a frame's render pass did.
#[derive(Debug, Clone, Copy, PartialEq, Eq)]
pub struct WgpuTerminalFrameEncodeResult {
    pub target_id: RenderTargetId,
    pub seq: SeqNo,
    pub encoded: bool,
    pub command_count: usize,
    pub draw_count: usize,
    pub index_count: u32,
}

impl WgpuTerminalFrameEncodeResult {
    pub fn encoded(&self) -> (r: bool)
        ensures
            r == self.encoded,
    {
        self.encoded
    }
}

/// Encodes frames by issuing their render pass plans.
#[derive(Debug, Clone, Copy, Default)]
pub struct WgpuTerminalFrameEncoder {
    plan_encoder: WgpuTerminalRenderPassPlanEncoder,
}

/// A plan whose draws' indices can be counted.
pub open spec fn countable_plan(plan: &WgpuTerminalRenderPassPlan) -> bool {
    &&& drawn_index_total(commands_view(plan.commands@)) <= u32::MAX
    &&& forall|i: int|
        0 <= i < plan.commands@.len() ==> (#[trigger] plan.commands@[i]@ matches RenderPassCall::DrawIndexed {
            index_start,
            index_end,
            ..
        } ==> index_start <= index_end)
}

impl WgpuTerminalFrameEncoder {
    pub fn new() -> (encoder: Self) {
        WgpuTerminalFrameEncoder { plan_encoder: WgpuTerminalRenderPassPlanEncoder::new() }
    }

    /// Issues the plan, if there is a non-empty one, and reports what it held.
    pub fn encode_optional_plan<E: WgpuTerminalRenderPassEncoder>(
        &self,
        target_id: RenderTargetId,
        seq: SeqNo,
        render_pass_plan: Option<&WgpuTerminalRenderPassPlan>,
        encoder: &mut E,
    ) -> (result: WgpuTerminalFrameEncodeResult)
        requires
            render_pass_plan matches Some(plan) ==> countable_plan(plan),
        ensures
            result.target_id == target_id,
            result.seq == seq,
            match render_pass_plan {
                Some(plan) if plan.commands@.len() > 0 => {
                    &&& result.encoded
                    &&& result.command_count == plan.commands@.len()
                    &&& result.draw_count == draw_call_count(commands_view(plan.commands@))
                    &&& result.index_count == drawn_index_total(commands_view(plan.commands@))
                    &&& final(encoder).calls() == old(encoder).calls() + commands_view(plan.commands@)
                },
                _ => {
                    &&& !result.encoded
                    &&& result.command_count == 0
                    &&& result.draw_count == 0
                    &&& result.index_count == 0
                    &&& final(encoder).calls() == old(encoder).calls()
                },
            },
    {
        match render_pass_plan {
            None => WgpuTerminalFrameEncodeResult {
                target_id,
                seq,
                encoded: false,
                command_count: 0,
                draw_count: 0,
                index_count: 0,
            },
            Some(plan) => {
                if plan.is_empty() {
                    return WgpuTerminalFrameEncodeResult {
                        target_id,
                        seq,
                        encoded: false,
                        command_count: 0,
                        draw_count: 0,
                        index_count: 0,
                    };
                }
                self.plan_encoder.encode(plan, encoder);
                WgpuTerminalFrameEncodeResult {
                    target_id,
                    seq,
                    encoded: true,
                    command_count: plan.commands.len(),
                    draw_count: count_draws(&plan.commands),
                    index_count: count_drawn_indices(&plan.commands),
                }
            },
        }
    }

    /// Issues `render_pass_plan` for the frame `seq` of `target_id`.
    pub fn encode_plan<E: WgpuTerminalRenderPassEncoder>(
        &self,
        target_id: RenderTargetId,
        seq: SeqNo,
        render_pass_plan: &WgpuTerminalRenderPassPlan,
        encoder: &mut E,
    ) -> (result: WgpuTerminalFrameEncodeResult)
        requires
            countable_plan(render_pass_plan),
        ensures
            result.target_id == target_id,
            result.seq == seq,
            result.encoded == (render_pass_plan.commands@.len() > 0),
            result.encoded ==> {
                &&& result.command_count == render_pass_plan.commands@.len()
                &&& result.draw_count == draw_call_count(commands_view(render_pass_plan.commands@))
                &&& result.index_count == drawn_index_total(commands_view(render_pass_plan.commands@))
            },
            !result.encoded ==> result.command_count == 0 && result.draw_count == 0 && result.index_count
                == 0,
            final(encoder).calls() == old(encoder).calls() + commands_view(render_pass_plan.commands@),
    {
        let result = self.encode_optional_plan(target_id, seq, Some(render_pass_plan), encoder);
        proof {
            if render_pass_plan.commands@.len() == 0 {
                assert(commands_view(render_pass_plan.commands@) =~= Seq::<RenderPassCall>::empty());
                assert(encoder.calls() =~= old(encoder).calls() + commands_view(render_pass_plan.commands@));
            }
        }
        result
    }
}

} // verus!

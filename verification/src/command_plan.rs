use vstd::prelude::*;
use crate::frame_geometry::WgpuTerminalRenderTargetPlan;
use crate::ids::{RenderTargetId, SeqNo};
use crate::render_plan::{WgpuIndexFormat, WgpuTerminalFrameEncodeResult, WgpuTerminalRenderPassPlan};
use vstd::std_specs::convert::FromSpecImpl;

verus! {

/// What a prepared frame hands to the GPU: the counts of its vertex upload
/// and its render pass plan, if it has one.
pub struct WgpuTerminalFrameUploadPlan {
    pub target_id: RenderTargetId,
    pub seq: SeqNo,
    pub vertex_count: u32,
    pub index_count: u32,
    pub render_pass_plan: Option<WgpuTerminalRenderPassPlan>,
}

impl WgpuTerminalFrameUploadPlan {
    /// There is something to draw: vertex data was uploaded and a render pass
    /// was planned.
    pub open spec fn spec_has_draw_work(&self) -> bool {
        !(self.vertex_count == 0 && self.index_count == 0) && self.render_pass_plan is Some
    }

    pub fn has_draw_work(&self) -> (r: bool)
        ensures
            r == self.spec_has_draw_work(),
    {
        !(self.vertex_count == 0 && self.index_count == 0) && self.render_pass_plan.is_some()
    }

    pub fn vertex_count(&self) -> (r: u32)
        ensures
            r == self.vertex_count,
    {
        self.vertex_count
    }

    pub fn index_count(&self) -> (r: u32)
        ensures
            r == self.index_count,
    {
        self.index_count
    }
}

/// One command of a frame's command buffer.
#[derive(Debug, Clone, Copy, PartialEq, Eq, Structural)]
pub enum WgpuTerminalCommand {
    BeginRenderPass { width_px: u32, height_px: u32, store: bool },
    SetPipeline,
    SetBindGroup { index: u32, dynamic_offsets_len: usize },
    SetVertexBuffer { slot: u32 },
    SetIndexBuffer { format: WgpuIndexFormat },
    DrawIndexed { index_count: u32, instance_count: u32 },
    EndRenderPass,
    Submit,
}

/// The commands that draw `index_count` indices in a pass.
pub open spec fn draw_commands(index_count: u32) -> Seq<WgpuTerminalCommand> {
    seq![
        WgpuTerminalCommand::SetPipeline,
        WgpuTerminalCommand::SetBindGroup { index: 0, dynamic_offsets_len: 0 },
        WgpuTerminalCommand::SetVertexBuffer { slot: 0 },
        WgpuTerminalCommand::SetIndexBuffer { format: WgpuIndexFormat::Uint32 },
        WgpuTerminalCommand::DrawIndexed { index_count, instance_count: 1 },
    ]
}

/// The command buffer of a frame: nothing for an empty target; otherwise
/// one render pass over the target, with the draw commands when there is
/// draw work, ended and submitted.
pub open spec fn frame_commands(
    target: WgpuTerminalRenderTargetPlan,
    has_draw_work: bool,
    index_count: u32,
) -> Seq<WgpuTerminalCommand> {
    if target.width_px == 0 || target.height_px == 0 {
        Seq::empty()
    } else {
        seq![
            WgpuTerminalCommand::BeginRenderPass {
                width_px: target.width_px,
                height_px: target.height_px,
                store: target.store,
            },
        ] + (if has_draw_work {
            draw_commands(index_count)
        } else {
            Seq::empty()
        }) + seq![WgpuTerminalCommand::EndRenderPass, WgpuTerminalCommand::Submit]
    }
}

/// The kinds of command that plans and recorders count.
#[derive(Debug, Clone, Copy, PartialEq, Eq, Structural)]
pub enum CountedCommand {
    Draw,
    BeginRenderPass,
    Submit,
}

/// Whether `command` is of the counted kind.
pub open spec fn is_counted(command: WgpuTerminalCommand, kind: CountedCommand) -> bool {
    match kind {
        CountedCommand::Draw => command is DrawIndexed,
        CountedCommand::BeginRenderPass => command is BeginRenderPass,
        CountedCommand::Submit => command is Submit,
    }
}

/// How many of `commands` are of the counted kind.
pub open spec fn count_of(commands: Seq<WgpuTerminalCommand>, kind: CountedCommand) -> nat
    decreases commands.len(),
{
    if commands.len() == 0 {
        0
    } else {
        count_of(commands.drop_last(), kind) + (if is_counted(commands.last(), kind) {
            1nat
        } else {
            0nat
        })
    }
}

/// Counting over two lists one after the other adds the counts.
pub proof fn lemma_count_of_concat(
    a: Seq<WgpuTerminalCommand>,
    b: Seq<WgpuTerminalCommand>,
    kind: CountedCommand,
)
    ensures
        count_of(a + b, kind) == count_of(a, kind) + count_of(b, kind),
    decreases b.len(),
{
    if b.len() == 0 {
        assert(a + b =~= a);
    } else {
        lemma_count_of_concat(a, b.drop_last(), kind);
        assert((a + b).drop_last() =~= a + b.drop_last());
        assert((a + b).last() == b.last());
    }
}

/// Counts the commands of the counted kind.
fn count_commands(commands: &Vec<WgpuTerminalCommand>, kind: CountedCommand) -> (count: usize)
    ensures
        count == count_of(commands@, kind),
{
    let mut count: usize = 0;
    let mut i: usize = 0;
    while i < commands.len()
        invariant
            i <= commands@.len(),
            count == count_of(commands@.subrange(0, i as int), kind),
            count <= i,
        decreases commands@.len() - i,
    {
        let command = commands[i];
        let hit = match kind {
            CountedCommand::Draw => match command {
                WgpuTerminalCommand::DrawIndexed { .. } => true,
                _ => false,
            },
            CountedCommand::BeginRenderPass => match command {
                WgpuTerminalCommand::BeginRenderPass { .. } => true,
                _ => false,
            },
            CountedCommand::Submit => match command {
                WgpuTerminalCommand::Submit => true,
                _ => false,
            },
        };
        proof {
            assert(commands@.subrange(0, i as int + 1).drop_last() =~= commands@.subrange(0, i as int));
        }
        if hit {
            count = count + 1;
        }
        i = i + 1;
    }
    assert(commands@.subrange(0, commands@.len() as int) =~= commands@);
    count
}

/// The commands of one frame for one render target.
#[derive(Debug, Clone, PartialEq, Eq)]
pub struct WgpuTerminalCommandPlan {
    pub target_id: RenderTargetId,
    pub seq: SeqNo,
    pub commands: Vec<WgpuTerminalCommand>,
}

impl WgpuTerminalCommandPlan {
    /// The command plan of a frame: empty for an empty target; otherwise one
    /// render pass over the target, with the draw of the uploaded indices when
    /// there is draw work, ended and submitted once.
    pub fn new(
        render_target_plan: WgpuTerminalRenderTargetPlan,
        upload_plan: &WgpuTerminalFrameUploadPlan,
    ) -> (plan: Self)
        ensures
            plan.target_id == upload_plan.target_id,
            plan.seq == upload_plan.seq,
            plan.commands@ == frame_commands(
                render_target_plan,
                upload_plan.spec_has_draw_work(),
                upload_plan.index_count,
            ),
    {
        let mut commands: Vec<WgpuTerminalCommand> = Vec::new();
        if render_target_plan.is_empty() {
            return WgpuTerminalCommandPlan {
                target_id: upload_plan.target_id,
                seq: upload_plan.seq,
                commands,
            };
        }
        commands.push(
            WgpuTerminalCommand::BeginRenderPass {
                width_px: render_target_plan.width_px,
                height_px: render_target_plan.height_px,
                store: render_target_plan.store,
            },
        );
        if upload_plan.has_draw_work() {
            commands.push(WgpuTerminalCommand::SetPipeline);
            commands.push(WgpuTerminalCommand::SetBindGroup { index: 0, dynamic_offsets_len: 0 });
            commands.push(WgpuTerminalCommand::SetVertexBuffer { slot: 0 });
            commands.push(WgpuTerminalCommand::SetIndexBuffer { format: WgpuIndexFormat::Uint32 });
            commands.push(
                WgpuTerminalCommand::DrawIndexed {
                    index_count: upload_plan.index_count(),
                    instance_count: 1,
                },
            );
        }
        commands.push(WgpuTerminalCommand::EndRenderPass);
        commands.push(WgpuTerminalCommand::Submit);
        let plan = WgpuTerminalCommandPlan {
            target_id: upload_plan.target_id,
            seq: upload_plan.seq,
            commands,
        };
        assert(plan.commands@ =~= frame_commands(
            render_target_plan,
            upload_plan.spec_has_draw_work(),
            upload_plan.index_count,
        ));
        plan
    }

    pub fn is_empty(&self) -> (r: bool)
        ensures
            r == (self.commands@.len() == 0),
    {
        self.commands.len() == 0
    }

    pub fn len(&self) -> (r: usize)
        ensures
            r == self.commands@.len(),
    {
        self.commands.len()
    }

    /// Whether the plan draws anything.
    pub fn has_draw_work(&self) -> (r: bool)
        ensures
            r == (count_of(self.commands@, CountedCommand::Draw) > 0),
    {
        count_commands(&self.commands, CountedCommand::Draw) > 0
    }

    pub fn begin_render_pass_count(&self) -> (r: usize)
        ensures
            r == count_of(self.commands@, CountedCommand::BeginRenderPass),
    {
        count_commands(&self.commands, CountedCommand::BeginRenderPass)
    }

    pub fn submit_count(&self) -> (r: usize)
        ensures
            r == count_of(self.commands@, CountedCommand::Submit),
    {
        count_commands(&self.commands, CountedCommand::Submit)
    }
}

/// A frame for a non-empty target begins exactly one render pass and is
/// submitted exactly once, and draws exactly when it has draw work; a frame
/// for an empty target holds no command.
pub proof fn lemma_frame_commands_counts(
    target: WgpuTerminalRenderTargetPlan,
    has_draw_work: bool,
    index_count: u32,
)
    ensures
        (target.width_px == 0 || target.height_px == 0) ==> frame_commands(
            target,
            has_draw_work,
            index_count,
        ).len() == 0,
        !(target.width_px == 0 || target.height_px == 0) ==> {
            &&& count_of(frame_commands(target, has_draw_work, index_count), CountedCommand::BeginRenderPass) == 1
            &&& count_of(frame_commands(target, has_draw_work, index_count), CountedCommand::Submit) == 1
            &&& count_of(frame_commands(target, has_draw_work, index_count), CountedCommand::Draw) == (
            if has_draw_work {
                1nat
            } else {
                0nat
            })
        },
{
    if !(target.width_px == 0 || target.height_px == 0) {
        let begin = seq![
            WgpuTerminalCommand::BeginRenderPass {
                width_px: target.width_px,
                height_px: target.height_px,
                store: target.store,
            },
        ];
        let middle = if has_draw_work {
            draw_commands(index_count)
        } else {
            Seq::empty()
        };
        let tail = seq![WgpuTerminalCommand::EndRenderPass, WgpuTerminalCommand::Submit];
        assert(frame_commands(target, has_draw_work, index_count) == begin + middle + tail);
        reveal_with_fuel(count_of, 6);
        assert(begin.drop_last() =~= Seq::<WgpuTerminalCommand>::empty());
        assert(tail.drop_last() =~= seq![WgpuTerminalCommand::EndRenderPass]);
        assert(tail.drop_last().drop_last() =~= Seq::<WgpuTerminalCommand>::empty());
        if has_draw_work {
            let d = draw_commands(index_count);
            assert(d.drop_last() =~= seq![d[0], d[1], d[2], d[3]]);
            assert(d.drop_last().drop_last() =~= seq![d[0], d[1], d[2]]);
            assert(d.drop_last().drop_last().drop_last() =~= seq![d[0], d[1]]);
            assert(d.drop_last().drop_last().drop_last().drop_last() =~= seq![d[0]]);
            assert(d.drop_last().drop_last().drop_last().drop_last().drop_last()
                =~= Seq::<WgpuTerminalCommand>::empty());
        }
        lemma_count_of_concat(begin + middle, tail, CountedCommand::BeginRenderPass);
        lemma_count_of_concat(begin, middle, CountedCommand::BeginRenderPass);
        lemma_count_of_concat(begin + middle, tail, CountedCommand::Submit);
        lemma_count_of_concat(begin, middle, CountedCommand::Submit);
        lemma_count_of_concat(begin + middle, tail, CountedCommand::Draw);
        lemma_count_of_concat(begin, middle, CountedCommand::Draw);
    }
}

/// Records the commands of the plans it is given, in order.
#[derive(Debug, Clone, PartialEq, Eq)]
pub struct WgpuTerminalCommandPlanRecorder {
    pub recorded: Vec<WgpuTerminalCommand>,
}

impl WgpuTerminalCommandPlanRecorder {
    pub fn new() -> (recorder: Self)
        ensures
            recorder.recorded@.len() == 0,
    {
        WgpuTerminalCommandPlanRecorder { recorded: Vec::new() }
    }

    /// Appends the plan's commands to what was recorded.
    pub fn record_plan(&mut self, plan: &WgpuTerminalCommandPlan)
        ensures
            final(self).recorded@ == old(self).recorded@ + plan.commands@,
    {
        let mut i: usize = 0;
        while i < plan.commands.len()
            invariant
                i <= plan.commands@.len(),
                self.recorded@ == old(self).recorded@ + plan.commands@.subrange(0, i as int),
            decreases plan.commands@.len() - i,
        {
            self.recorded.push(plan.commands[i]);
            assert(self.recorded@ =~= old(self).recorded@ + plan.commands@.subrange(0, i as int + 1));
            i = i + 1;
        }
        assert(plan.commands@.subrange(0, plan.commands@.len() as int) =~= plan.commands@);
    }

    pub fn command_count(&self) -> (r: usize)
        ensures
            r == self.recorded@.len(),
    {
        self.recorded.len()
    }

    pub fn draw_count(&self) -> (r: usize)
        ensures
            r == count_of(self.recorded@, CountedCommand::Draw),
    {
        count_commands(&self.recorded, CountedCommand::Draw)
    }

    pub fn submit_count(&self) -> (r: usize)
        ensures
            r == count_of(self.recorded@, CountedCommand::Submit),
    {
        count_commands(&self.recorded, CountedCommand::Submit)
    }
}

impl Default for WgpuTerminalCommandPlanRecorder {
    fn default() -> (recorder: Self)
        ensures
            recorder.recorded@.len() == 0,
    {
        Self::new()
    }
}

/// Recording a plan after others adds its draws and submits to theirs.
pub proof fn lemma_recorded_counts_add(
    recorded: Seq<WgpuTerminalCommand>,
    plan: Seq<WgpuTerminalCommand>,
    kind: CountedCommand,
)
    ensures
        count_of(recorded + plan, kind) == count_of(recorded, kind) + count_of(plan, kind),
{
    lemma_count_of_concat(recorded, plan, kind);
}

/// A summary of what encoding a frame did.
#[derive(Debug, Clone, Copy, PartialEq, Eq)]
pub struct WgpuTerminalCommandEncodeSummary {
    pub target_id: RenderTargetId,
    pub seq: SeqNo,
    pub encoded: bool,
    pub render_pass_command_count: usize,
    pub draw_count: usize,
    pub index_count: u32,
}

/// The summary of an encode result, field for field.
pub open spec fn summary_of(result: WgpuTerminalFrameEncodeResult) -> WgpuTerminalCommandEncodeSummary {
    WgpuTerminalCommandEncodeSummary {
        target_id: result.target_id,
        seq: result.seq,
        encoded: result.encoded,
        render_pass_command_count: result.command_count,
        draw_count: result.draw_count,
        index_count: result.index_count,
    }
}

impl From<WgpuTerminalFrameEncodeResult> for WgpuTerminalCommandEncodeSummary {
    fn from(result: WgpuTerminalFrameEncodeResult) -> (summary: Self) {
        WgpuTerminalCommandEncodeSummary {
            target_id: result.target_id,
            seq: result.seq,
            encoded: result.encoded,
            render_pass_command_count: result.command_count,
            draw_count: result.draw_count,
            index_count: result.index_count,
        }
    }
}

impl FromSpecImpl<WgpuTerminalFrameEncodeResult> for WgpuTerminalCommandEncodeSummary {
    open spec fn obeys_from_spec() -> bool {
        true
    }

    open spec fn from_spec(result: WgpuTerminalFrameEncodeResult) -> WgpuTerminalCommandEncodeSummary {
        summary_of(result)
    }
}

} // verus!

use germinal_infra::command_plan::{
    WgpuTerminalCommand, WgpuTerminalCommandEncodeSummary, WgpuTerminalCommandPlan,
    WgpuTerminalCommandPlanRecorder, WgpuTerminalFrameUploadPlan,
};
use germinal_infra::frame_geometry::WgpuTerminalRenderTargetPlan;
use germinal_infra::ids::{RenderTargetId, SeqNo};
use germinal_infra::render_plan::{
    RecordedWgpuRenderPassCall, RecordingWgpuTerminalRenderPassEncoder, WgpuDrawIndexedPlan,
    WgpuDrawIndexedStats, WgpuIndexFormat, WgpuRenderPassCommand, WgpuRenderPassPlanRecorder,
    WgpuTerminalFrameEncodeResult, WgpuTerminalRenderPassPlan, WgpuTerminalRenderPassPlanEncoder,
};

fn draw_plan(index_count: u32) -> WgpuDrawIndexedPlan {
    WgpuDrawIndexedPlan {
        vertex_slot: 0,
        index_format: WgpuIndexFormat::Uint32,
        index_count,
        base_vertex: 0,
        first_instance: 0,
        instance_count: 1,
    }
}

#[test]
fn builds_draw_indexed_plan_from_upload_bytes() {
    let plan = WgpuDrawIndexedPlan::from_upload_bytes(4, 6).expect("draw plan should exist");

    assert_eq!(plan.vertex_slot, 0);
    assert_eq!(plan.index_format, WgpuIndexFormat::Uint32);
    assert_eq!(plan.index_count, 6);
    assert_eq!(plan.base_vertex, 0);
    assert_eq!(plan.first_instance, 0);
    assert_eq!(plan.instance_count, 1);

    assert_eq!(plan.index_range(), 0..6);
    assert_eq!(plan.instance_range(), 0..1);
}

#[test]
fn returns_none_for_empty_upload_bytes() {
    assert_eq!(WgpuDrawIndexedPlan::from_upload_bytes(0, 0), None);
}

#[test]
fn records_draw_indexed_stats() {
    let mut stats = WgpuDrawIndexedStats::default();

    stats.record(draw_plan(42));

    assert_eq!(
        stats,
        WgpuDrawIndexedStats {
            draw_count: 1,
            last_index_count: 42,
            last_instance_count: 1,
        }
    );
}

#[test]
fn builds_render_pass_plan_from_draw_indexed_plan() {
    let plan = WgpuTerminalRenderPassPlan::new(draw_plan(42));

    assert_eq!(plan.len(), 5);
    assert!(!plan.is_empty());
    assert!(plan.has_draw_indexed());

    assert_eq!(plan.commands[0], WgpuRenderPassCommand::SetPipeline);
    assert_eq!(
        plan.commands[1],
        WgpuRenderPassCommand::SetBindGroup {
            index: 0,
            dynamic_offsets: Vec::new(),
        }
    );
    assert_eq!(plan.commands[2], WgpuRenderPassCommand::SetVertexBuffer { slot: 0 });
    assert_eq!(
        plan.commands[3],
        WgpuRenderPassCommand::SetIndexBuffer {
            format: WgpuIndexFormat::Uint32,
        }
    );
    assert_eq!(
        plan.commands[4],
        WgpuRenderPassCommand::DrawIndexed {
            indices: 0..42,
            base_vertex: 0,
            instances: 0..1,
        }
    );
}

#[test]
fn recorder_records_render_pass_plan_commands() {
    let plan = WgpuTerminalRenderPassPlan::new(draw_plan(6));

    let mut recorder = WgpuRenderPassPlanRecorder::new();

    recorder.record_plan(&plan);

    assert_eq!(recorder.command_count(), 5);
    assert_eq!(recorder.draw_count(), 1);
    assert_eq!(recorder.recorded, plan.commands);

    recorder.clear();

    assert_eq!(recorder.command_count(), 0);
    assert_eq!(recorder.draw_count(), 0);
}

#[test]
fn encodes_render_pass_plan_into_encoder_calls() {
    let plan = WgpuTerminalRenderPassPlan::new(draw_plan(42));

    let plan_encoder = WgpuTerminalRenderPassPlanEncoder::new();
    let mut encoder = RecordingWgpuTerminalRenderPassEncoder::new();

    plan_encoder.encode(&plan, &mut encoder);

    assert_eq!(encoder.call_count(), 5);
    assert_eq!(encoder.draw_count(), 1);

    assert_eq!(
        encoder.calls,
        vec![
            RecordedWgpuRenderPassCall::SetPipeline,
            RecordedWgpuRenderPassCall::SetBindGroup {
                index: 0,
                dynamic_offsets: Vec::new()
            },
            RecordedWgpuRenderPassCall::SetVertexBuffer { slot: 0 },
            RecordedWgpuRenderPassCall::SetIndexBuffer {
                format: WgpuIndexFormat::Uint32
            },
            RecordedWgpuRenderPassCall::DrawIndexed {
                indices: 0..42,
                base_vertex: 0,
                instances: 0..1,
            },
        ]
    );
}

#[test]
fn recorder_can_be_reused() {
    let plan = WgpuTerminalRenderPassPlan::new(draw_plan(6));

    let plan_encoder = WgpuTerminalRenderPassPlanEncoder::new();
    let mut encoder = RecordingWgpuTerminalRenderPassEncoder::new();

    plan_encoder.encode(&plan, &mut encoder);

    assert_eq!(encoder.call_count(), 5);

    encoder.clear();

    assert_eq!(encoder.call_count(), 0);
    assert_eq!(encoder.draw_count(), 0);

    plan_encoder.encode(&plan, &mut encoder);

    assert_eq!(encoder.call_count(), 5);
    assert_eq!(encoder.draw_count(), 1);
}

fn upload_plan(vertex_count: u32, index_count: u32, with_pass: bool) -> WgpuTerminalFrameUploadPlan {
    WgpuTerminalFrameUploadPlan {
        target_id: RenderTargetId::new(1),
        seq: SeqNo::new(9),
        vertex_count,
        index_count,
        render_pass_plan: if with_pass {
            Some(WgpuTerminalRenderPassPlan::new(draw_plan(index_count)))
        } else {
            None
        },
    }
}

#[test]
fn builds_command_plan_for_draw_frame() {
    let upload_plan = upload_plan(4, 42, true);

    let command_plan =
        WgpuTerminalCommandPlan::new(WgpuTerminalRenderTargetPlan::new(1280, 720), &upload_plan);

    assert_eq!(command_plan.target_id, RenderTargetId::new(1));
    assert_eq!(command_plan.seq, SeqNo::new(9));

    assert_eq!(command_plan.begin_render_pass_count(), 1);
    assert_eq!(command_plan.submit_count(), 1);
    assert!(command_plan.has_draw_work());

    assert_eq!(
        command_plan.commands,
        vec![
            WgpuTerminalCommand::BeginRenderPass {
                width_px: 1280,
                height_px: 720,
                store: true
            },
            WgpuTerminalCommand::SetPipeline,
            WgpuTerminalCommand::SetBindGroup {
                index: 0,
                dynamic_offsets_len: 0
            },
            WgpuTerminalCommand::SetVertexBuffer { slot: 0 },
            WgpuTerminalCommand::SetIndexBuffer {
                format: WgpuIndexFormat::Uint32
            },
            WgpuTerminalCommand::DrawIndexed {
                index_count: 42,
                instance_count: 1
            },
            WgpuTerminalCommand::EndRenderPass,
            WgpuTerminalCommand::Submit,
        ]
    );
}

#[test]
fn empty_render_target_builds_empty_command_plan() {
    let upload_plan = upload_plan(0, 0, false);

    let command_plan =
        WgpuTerminalCommandPlan::new(WgpuTerminalRenderTargetPlan::new(0, 720), &upload_plan);

    assert!(command_plan.is_empty());
    assert!(!command_plan.has_draw_work());
    assert_eq!(command_plan.begin_render_pass_count(), 0);
    assert_eq!(command_plan.submit_count(), 0);
}

#[test]
fn recorder_records_command_plan() {
    let upload_plan = upload_plan(4, 6, true);

    let command_plan =
        WgpuTerminalCommandPlan::new(WgpuTerminalRenderTargetPlan::new(1280, 720), &upload_plan);

    let mut recorder = WgpuTerminalCommandPlanRecorder::new();

    recorder.record_plan(&command_plan);

    assert_eq!(recorder.command_count(), command_plan.len());
    assert_eq!(recorder.draw_count(), 1);
    assert_eq!(recorder.submit_count(), 1);
    assert_eq!(recorder.recorded, command_plan.commands);
}

#[test]
fn frame_without_draw_work_still_opens_and_submits_one_pass() {
    let upload_plan = upload_plan(0, 0, true);

    let command_plan =
        WgpuTerminalCommandPlan::new(WgpuTerminalRenderTargetPlan::new(10, 10), &upload_plan);

    assert_eq!(command_plan.len(), 3);
    assert!(!command_plan.has_draw_work());
    assert_eq!(command_plan.begin_render_pass_count(), 1);
    assert_eq!(command_plan.submit_count(), 1);
}

#[test]
fn recording_two_plans_adds_their_draws() {
    let upload_plan = upload_plan(4, 6, true);
    let command_plan =
        WgpuTerminalCommandPlan::new(WgpuTerminalRenderTargetPlan::new(8, 8), &upload_plan);
    let mut recorder = WgpuTerminalCommandPlanRecorder::default();

    recorder.record_plan(&command_plan);
    recorder.record_plan(&command_plan);

    assert_eq!(recorder.command_count(), 2 * command_plan.len());
    assert_eq!(recorder.draw_count(), 2);
    assert_eq!(recorder.submit_count(), 2);
}

#[test]
fn encode_summary_copies_the_encode_result() {
    let result = WgpuTerminalFrameEncodeResult {
        target_id: RenderTargetId::new(3),
        seq: SeqNo::new(4),
        encoded: true,
        command_count: 5,
        draw_count: 1,
        index_count: 42,
    };

    let summary = WgpuTerminalCommandEncodeSummary::from(result);

    assert_eq!(summary.target_id, RenderTargetId::new(3));
    assert_eq!(summary.seq, SeqNo::new(4));
    assert!(summary.encoded);
    assert_eq!(summary.render_pass_command_count, 5);
    assert_eq!(summary.draw_count, 1);
    assert_eq!(summary.index_count, 42);
}

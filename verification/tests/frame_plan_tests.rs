use germinal_infra::colors::{RgbColorDto, TextStyleDto};
use germinal_infra::ids::{RenderTargetId, SeqNo};
use germinal_infra::snapshot_frame_plan::{
    frame_plan_from_snapshot, rows_to_render, BuildFramePlanTask, RenderCommandDto,
    SnapshotFramePlanBuilder, TerminalLineSnapshot, TerminalSnapshot, TerminalSnapshotProvider,
    TerminalTextRunSnapshot,
};

fn line(row: u32, text: &str) -> TerminalLineSnapshot {
    TerminalLineSnapshot {
        row,
        text: text.to_string(),
    }
}

#[derive(Debug, Clone)]
struct TestSnapshotProvider;

impl TerminalSnapshotProvider for TestSnapshotProvider {
    fn snapshot_of(&self, render_target_id: RenderTargetId) -> Option<TerminalSnapshot> {
        Some(TerminalSnapshot {
            render_target_id,
            latest_seq: SeqNo::new(7),
            lines: vec![line(0, "hello"), line(1, "world"), line(2, "clean")],
            text_runs: vec![],
            dirty_rows: vec![0, 1],
        })
    }
}

#[test]
fn builds_frame_only_from_dirty_terminal_snapshot_rows() {
    let builder = SnapshotFramePlanBuilder::new(TestSnapshotProvider);

    let frame = builder.build(BuildFramePlanTask {
        target_id: RenderTargetId::new(1),
        seq: SeqNo::new(7),
    });

    assert_eq!(frame.target_id, RenderTargetId::new(1));
    assert_eq!(frame.seq, SeqNo::new(7));

    assert_eq!(
        frame.commands,
        vec![
            RenderCommandDto::ClearLine { y: 0 },
            RenderCommandDto::TextRun {
                x: 0,
                y: 0,
                text: "hello".to_string()
            },
            RenderCommandDto::ClearLine { y: 1 },
            RenderCommandDto::TextRun {
                x: 0,
                y: 1,
                text: "world".to_string()
            },
        ]
    );
}

#[derive(Debug, Clone)]
struct DirtyEmptyLineSnapshotProvider;

impl TerminalSnapshotProvider for DirtyEmptyLineSnapshotProvider {
    fn snapshot_of(&self, render_target_id: RenderTargetId) -> Option<TerminalSnapshot> {
        Some(TerminalSnapshot {
            render_target_id,
            latest_seq: SeqNo::new(7),
            lines: vec![line(0, "hello"), line(1, "world")],
            text_runs: vec![],
            dirty_rows: vec![0, 2],
        })
    }
}

#[test]
fn dirty_empty_line_still_generates_clear_line() {
    let builder = SnapshotFramePlanBuilder::new(DirtyEmptyLineSnapshotProvider);

    let frame = builder.build(BuildFramePlanTask {
        target_id: RenderTargetId::new(1),
        seq: SeqNo::new(7),
    });

    assert_eq!(
        frame.commands,
        vec![
            RenderCommandDto::ClearLine { y: 0 },
            RenderCommandDto::TextRun {
                x: 0,
                y: 0,
                text: "hello".to_string()
            },
            RenderCommandDto::ClearLine { y: 2 },
        ]
    );
}

#[derive(Debug, Clone)]
struct EmptyDirtyRowsSnapshotProvider;

impl TerminalSnapshotProvider for EmptyDirtyRowsSnapshotProvider {
    fn snapshot_of(&self, render_target_id: RenderTargetId) -> Option<TerminalSnapshot> {
        Some(TerminalSnapshot {
            render_target_id,
            latest_seq: SeqNo::new(7),
            lines: vec![line(0, "hello"), line(1, "world")],
            text_runs: vec![],
            dirty_rows: vec![],
        })
    }
}

#[test]
fn empty_dirty_rows_falls_back_to_all_rows() {
    let builder = SnapshotFramePlanBuilder::new(EmptyDirtyRowsSnapshotProvider);

    let frame = builder.build(BuildFramePlanTask {
        target_id: RenderTargetId::new(1),
        seq: SeqNo::new(7),
    });

    assert_eq!(
        frame.commands,
        vec![
            RenderCommandDto::ClearLine { y: 0 },
            RenderCommandDto::TextRun {
                x: 0,
                y: 0,
                text: "hello".to_string()
            },
            RenderCommandDto::ClearLine { y: 1 },
            RenderCommandDto::TextRun {
                x: 0,
                y: 1,
                text: "world".to_string()
            },
        ]
    );
}

#[derive(Debug, Clone)]
struct StyledSnapshotProvider;

fn red_bold() -> TextStyleDto {
    TextStyleDto {
        foreground: Some(RgbColorDto::new(255, 0, 0)),
        background: None,
        bold: true,
        italic: false,
        underline: false,
    }
}

impl TerminalSnapshotProvider for StyledSnapshotProvider {
    fn snapshot_of(&self, render_target_id: RenderTargetId) -> Option<TerminalSnapshot> {
        Some(TerminalSnapshot {
            render_target_id,
            latest_seq: SeqNo::new(8),
            lines: vec![line(0, "red plain")],
            text_runs: vec![
                TerminalTextRunSnapshot {
                    x: 0,
                    y: 0,
                    text: "red".to_string(),
                    style: red_bold(),
                },
                TerminalTextRunSnapshot {
                    x: 4,
                    y: 0,
                    text: "plain".to_string(),
                    style: TextStyleDto::plain(),
                },
            ],
            dirty_rows: vec![0],
        })
    }
}

#[test]
fn styled_runs_take_priority_over_plain_line_text() {
    let builder = SnapshotFramePlanBuilder::new(StyledSnapshotProvider);

    let frame = builder.build(BuildFramePlanTask {
        target_id: RenderTargetId::new(1),
        seq: SeqNo::new(8),
    });

    assert_eq!(
        frame.commands,
        vec![
            RenderCommandDto::ClearLine { y: 0 },
            RenderCommandDto::StyledTextRun {
                x: 0,
                y: 0,
                text: "red".to_string(),
                style: red_bold(),
            },
            RenderCommandDto::StyledTextRun {
                x: 4,
                y: 0,
                text: "plain".to_string(),
                style: TextStyleDto::plain(),
            },
        ]
    );
}

#[derive(Debug, Clone)]
struct MissingSnapshotProvider;

impl TerminalSnapshotProvider for MissingSnapshotProvider {
    fn snapshot_of(&self, _render_target_id: RenderTargetId) -> Option<TerminalSnapshot> {
        None
    }
}

#[test]
fn missing_snapshot_draws_a_notice_on_a_cleared_surface() {
    let builder = SnapshotFramePlanBuilder::new(MissingSnapshotProvider);

    let frame = builder.build(BuildFramePlanTask {
        target_id: RenderTargetId::new(3),
        seq: SeqNo::new(5),
    });

    assert_eq!(
        frame.commands,
        vec![
            RenderCommandDto::Clear,
            RenderCommandDto::TextRun {
                x: 0,
                y: 0,
                text: "target=3 seq=5 terminal_snapshot=<missing>".to_string()
            },
        ]
    );
}

#[test]
fn dirty_rows_are_drawn_once_each_in_row_order() {
    let snapshot = TerminalSnapshot {
        render_target_id: RenderTargetId::new(1),
        latest_seq: SeqNo::new(1),
        lines: vec![line(1, "one"), line(3, "three")],
        text_runs: vec![],
        dirty_rows: vec![3, 1, 3],
    };

    assert_eq!(rows_to_render(&snapshot), vec![1, 3]);
}

#[test]
fn later_lines_for_a_row_replace_earlier_ones_and_empty_runs_are_skipped() {
    let snapshot = TerminalSnapshot {
        render_target_id: RenderTargetId::new(1),
        latest_seq: SeqNo::new(1),
        lines: vec![line(0, "old"), line(0, "new"), line(1, "kept")],
        text_runs: vec![TerminalTextRunSnapshot {
            x: 0,
            y: 1,
            text: String::new(),
            style: TextStyleDto::plain(),
        }],
        dirty_rows: vec![],
    };
    let task = BuildFramePlanTask {
        target_id: RenderTargetId::new(1),
        seq: SeqNo::new(1),
    };

    assert_eq!(
        frame_plan_from_snapshot(task, Some(snapshot)).commands,
        vec![
            RenderCommandDto::ClearLine { y: 0 },
            RenderCommandDto::TextRun {
                x: 0,
                y: 0,
                text: "new".to_string()
            },
            RenderCommandDto::ClearLine { y: 1 },
        ]
    );
}

#[test]
fn missing_snapshot_notice_writes_both_numbers_in_full() {
    let plan = frame_plan_from_snapshot(
        BuildFramePlanTask { target_id: RenderTargetId::new(u64::MAX), seq: SeqNo::new(0) },
        None,
    );
    assert_eq!(
        plan.commands[1],
        RenderCommandDto::TextRun {
            x: 0,
            y: 0,
            text: "target=18446744073709551615 seq=0 terminal_snapshot=<missing>".to_string()
        }
    );
    let plan = frame_plan_from_snapshot(BuildFramePlanTask { target_id: RenderTargetId::new(1000), seq: SeqNo::new(10) }, None);
    assert_eq!(
        plan.commands[1],
        RenderCommandDto::TextRun { x: 0, y: 0, text: "target=1000 seq=10 terminal_snapshot=<missing>".to_string() }
    );
}

use germinal_infra::colors::RgbColorDto;
use germinal_infra::ids::{RenderTargetId, SeqNo};
use germinal_infra::render_surface::{RenderSurfaceSnapshot, RenderSurfaceVideoSurfaceSnapshot};
use germinal_infra::video_surface_registry::WgpuVideoSurfaceRegistry;

fn video(id: &str, x_px: u32, y_px: u32, width_px: u32, height_px: u32) -> RenderSurfaceVideoSurfaceSnapshot {
    RenderSurfaceVideoSurfaceSnapshot { id: id.to_string(), x_px, y_px, width_px, height_px }
}

fn snapshot(target_id: RenderTargetId, seq: u64, video_surfaces: Vec<RenderSurfaceVideoSurfaceSnapshot>) -> RenderSurfaceSnapshot {
    RenderSurfaceSnapshot {
        target_id,
        latest_seq: SeqNo::new(seq),
        default_background: RgbColorDto::new(0, 0, 0),
        rows: vec![],
        video_surfaces,
        image_surface_count: 0,
        dirty_rows: vec![],
        cursor: None,
        ime_preedit: None,
    }
}

#[test]
fn sync_snapshot_tracks_and_replaces_target_video_surfaces() {
    let mut registry: WgpuVideoSurfaceRegistry<u32> = WgpuVideoSurfaceRegistry::default();
    let target_id = RenderTargetId::new(7);

    registry.sync_snapshot(&snapshot(
        target_id,
        1,
        vec![video("left", 10, 20, 30, 40), video("right", 50, 60, 70, 80)],
    ));

    assert_eq!(registry.registrations_for_target(target_id).len(), 2);
    assert_eq!(registry.registration(target_id, "left").map(|registration| registration.surface.x_px), Some(10));

    registry.sync_snapshot(&snapshot(target_id, 2, vec![video("right", 5, 6, 7, 8)]));

    assert!(registry.registration(target_id, "left").is_none());
    assert_eq!(
        registry.registration(target_id, "right").map(|registration| registration.latest_seq),
        Some(SeqNo::new(2))
    );
    assert_eq!(registry.registrations_for_target(target_id).len(), 1);
}

#[test]
fn removing_a_target_drops_all_of_its_video_surfaces() {
    let mut registry: WgpuVideoSurfaceRegistry<u32> = WgpuVideoSurfaceRegistry::default();
    let target_id = RenderTargetId::new(7);
    registry.sync_snapshot(&snapshot(target_id, 1, vec![video("video", 0, 0, 10, 10)]));

    assert!(registry.remove_render_target(target_id));
    assert!(registry.registrations_for_target(target_id).is_empty());
    assert!(!registry.remove_render_target(target_id));
}

#[test]
fn frames_stay_attached_while_their_surface_stays() {
    let mut registry: WgpuVideoSurfaceRegistry<&str> = WgpuVideoSurfaceRegistry::new();
    let target_id = RenderTargetId::new(3);
    assert!(!registry.replace_frame(target_id, "video", "frame 0"));

    registry.sync_snapshot(&snapshot(target_id, 1, vec![video("video", 0, 0, 10, 10)]));
    assert_eq!(registry.attached_frame(target_id, "video"), None);
    assert!(registry.replace_frame(target_id, "video", "frame 1"));
    assert_eq!(registry.attached_frame(target_id, "video"), Some(&"frame 1"));

    // Moving the surface keeps its frame.
    registry.sync_snapshot(&snapshot(target_id, 2, vec![video("video", 5, 5, 10, 10)]));
    assert_eq!(registry.attached_frame(target_id, "video"), Some(&"frame 1"));
    assert_eq!(registry.registration(target_id, "video").map(|r| r.surface.x_px), Some(5));

    assert!(registry.clear_frame(target_id, "video"));
    assert!(!registry.clear_frame(target_id, "video"));
    assert_eq!(registry.attached_frame(target_id, "video"), None);

    // Dropping the surface drops its frame; placing it again starts empty.
    registry.replace_frame(target_id, "video", "frame 2");
    registry.sync_snapshot(&snapshot(target_id, 3, vec![]));
    registry.sync_snapshot(&snapshot(target_id, 4, vec![video("video", 0, 0, 10, 10)]));
    assert_eq!(registry.attached_frame(target_id, "video"), None);
}

#[test]
fn each_target_keeps_its_own_surfaces_and_the_last_placement_wins() {
    let mut registry: WgpuVideoSurfaceRegistry<u8> = WgpuVideoSurfaceRegistry::new();
    let first = RenderTargetId::new(1);
    let second = RenderTargetId::new(2);
    registry.sync_snapshot(&snapshot(first, 1, vec![video("a", 1, 1, 1, 1), video("a", 2, 2, 2, 2)]));
    registry.sync_snapshot(&snapshot(second, 1, vec![video("a", 9, 9, 9, 9)]));

    assert_eq!(registry.registrations_for_target(first).len(), 1);
    assert_eq!(registry.registration(first, "a").map(|r| r.surface.x_px), Some(2));
    assert_eq!(registry.registration(second, "a").map(|r| r.surface.x_px), Some(9));

    assert!(registry.remove_render_target(first));
    assert!(registry.registration(first, "a").is_none());
    assert_eq!(registry.registrations_for_target(second).len(), 1);
}

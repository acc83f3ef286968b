use std::time::Duration;

use germinal_infra::colors::{ansi_256_cube_component, contrasting_color, mix_rgb, RgbColorDto};
use germinal_infra::pane_plugin::{WgpuPaneInputResult, WgpuPaneRenderResult};
use germinal_infra::snapshot_repository::HashMapRepository;
use germinal_infra::terminal_grid::AlacrittyTermSize;
use germinal_infra::timing::{cursor_blink_phase, frame_interval_for_refresh_rate};

#[test]
fn frame_interval_tracks_the_display_refresh_rate() {
    assert_eq!(
        Duration::from_nanos(frame_interval_for_refresh_rate(Some(60_000))),
        Duration::from_nanos(16_666_666),
    );
    assert_eq!(
        Duration::from_nanos(frame_interval_for_refresh_rate(Some(120_000))),
        Duration::from_nanos(8_333_333),
    );
    assert_eq!(
        Duration::from_nanos(frame_interval_for_refresh_rate(None)),
        Duration::from_nanos(16_666_666),
    );
    assert_eq!(
        Duration::from_nanos(frame_interval_for_refresh_rate(Some(0))),
        Duration::from_nanos(16_666_666),
    );
}

#[test]
fn cursor_blink_phase_alternates_and_reports_the_next_deadline() {
    let epoch: u64 = 0;
    let interval = Duration::from_millis(750).as_nanos() as u64;

    assert_eq!(cursor_blink_phase(epoch, epoch, interval), (true, epoch + interval));
    assert_eq!(
        cursor_blink_phase(epoch, epoch + interval, interval),
        (false, epoch + interval * 2)
    );
    assert_eq!(
        cursor_blink_phase(epoch, epoch + interval * 2, interval),
        (true, epoch + interval * 3)
    );
}

#[test]
fn blink_deadline_is_the_end_of_the_current_interval() {
    assert_eq!(cursor_blink_phase(100, 350, 100), (true, 400));
    assert_eq!(cursor_blink_phase(100, 450, 100), (false, 500));
    assert_eq!(cursor_blink_phase(100, 50, 100), (true, 150));
}

#[test]
fn pane_results_say_whether_to_redraw() {
    assert!(!WgpuPaneRenderResult::idle().request_redraw);
    assert!(WgpuPaneRenderResult::redraw().request_redraw);
    assert!(!WgpuPaneInputResult::handled().request_redraw);
    assert!(WgpuPaneInputResult::redraw().request_redraw);
    assert_eq!(WgpuPaneRenderResult::default(), WgpuPaneRenderResult::idle());
}

#[test]
fn term_size_defaults_to_eighty_by_twenty_four() {
    let size = AlacrittyTermSize::default();

    assert_eq!(size.columns(), 80);
    assert_eq!(size.screen_lines(), 24);
    assert_eq!(AlacrittyTermSize::new(66, 35).columns(), 66);
    assert_eq!(AlacrittyTermSize::new(66, 35).screen_lines(), 35);
    assert_eq!(AlacrittyTermSize::new(66, 35).total_lines(), 35);
}

#[test]
fn repository_hands_out_ids_in_order_and_reads_back_writes() {
    let mut repository = HashMapRepository::new();

    let first = repository.insert("{\"a\":1}".to_string());
    let second = repository.insert("{\"b\":2}".to_string());

    assert_eq!((first, second), (0, 1));
    assert_eq!(repository.next_id(), 2);
    assert_eq!(repository.get(first), Some("{\"a\":1}".to_string()));

    repository.update(first, "{\"a\":3}".to_string());
    assert_eq!(repository.get(first), Some("{\"a\":3}".to_string()));

    repository.delete(second);
    assert_eq!(repository.get(second), None);

    let mut listed = repository.list();
    listed.sort();
    assert_eq!(listed, vec![(0, "{\"a\":3}".to_string())]);
}

#[test]
fn contrasting_colors_and_mixes() {
    assert_eq!(contrasting_color(RgbColorDto::new(255, 255, 255)), RgbColorDto::new(0, 0, 0));
    assert_eq!(contrasting_color(RgbColorDto::new(0, 0, 0)), RgbColorDto::new(255, 255, 255));
    assert_eq!(
        mix_rgb(RgbColorDto::new(0, 0, 0), RgbColorDto::new(200, 100, 50), 1, 2),
        RgbColorDto::new(100, 50, 25)
    );
    assert_eq!(ansi_256_cube_component(0), 0);
    assert_eq!(ansi_256_cube_component(1), 95);
    assert_eq!(ansi_256_cube_component(5), 255);
}

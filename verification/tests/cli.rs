use shard::cli::lines::{bar_cells, chunk_counters, summary_bar, worker_label, worker_minibar, worker_share};
use shard::cli::progress::{hash_bar, ProgressView};
use shard::cli::render::{terminal_width, truncate_line, unicode_width, KeyCommand, Renderer, ViewMode};
use shard::cli::state::ProgressTracker;
use shard::cli::style::{ColorChoice, ProgressMode, Style};
use shard::engine::progress::ProgressEvent;
use shard::flag_config::{parse_options, FlagState};

fn start(total: u64) -> ProgressEvent {
    ProgressEvent::Start { total, chunk_size: 100 }
}

#[test]
fn written_bytes_track_the_max_across_retries() {
    let mut tracker = ProgressTracker::new(2);
    tracker.handle(start(200));
    tracker.handle(ProgressEvent::ChunkAdvanced { worker: 0, index: 0, written: 60 });
    tracker.handle(ProgressEvent::ChunkAdvanced { worker: 0, index: 0, written: 30 });
    assert_eq!(tracker.done_bytes(), 60);
}

#[test]
fn chunks_are_attributed_to_the_worker_that_worked_them() {
    let mut tracker = ProgressTracker::new(2);
    tracker.handle(start(400));
    tracker.handle(ProgressEvent::ChunkStarted { worker: 1, index: 3 });
    tracker.handle(ProgressEvent::ChunkAdvanced { worker: 1, index: 3, written: 90 });
    assert_eq!(tracker.chunk_worker(3), Some(1));
    assert_eq!(tracker.worker_bytes(1), 90);
    assert_eq!(tracker.worker_active_chunk(1), Some(3));
}

#[test]
fn completion_marks_worker_idle_and_chunk_done() {
    let mut tracker = ProgressTracker::new(1);
    tracker.handle(start(300));
    tracker.handle(ProgressEvent::ChunkStarted { worker: 0, index: 2 });
    tracker.handle(ProgressEvent::ChunkAdvanced { worker: 0, index: 2, written: 100 });
    tracker.handle(ProgressEvent::ChunkComplete { worker: 0, index: 2 });
    assert_eq!(tracker.worker_active_chunk(0), None);
    assert_eq!(tracker.finished_chunks(), 1);
}

#[test]
fn retried_chunk_keeps_byte_max_from_both_workers() {
    let mut tracker = ProgressTracker::new(3);
    tracker.handle(start(500));
    tracker.handle(ProgressEvent::ChunkAdvanced { worker: 0, index: 4, written: 40 });
    tracker.handle(ProgressEvent::ChunkAdvanced { worker: 2, index: 4, written: 80 });
    assert_eq!(tracker.done_bytes(), 80);
    assert_eq!(tracker.chunk_worker(4), Some(2));
}

#[test]
fn planned_chunks_and_offsets_map_back_to_chunks() {
    let mut tracker = ProgressTracker::new(2);
    tracker.handle(ProgressEvent::Start { total: 1000, chunk_size: 100 });
    assert_eq!(tracker.planned_chunk_count(), 10);
    assert_eq!(tracker.chunk_for_offset(0), Some(0));
    assert_eq!(tracker.chunk_for_offset(250), Some(2));
    assert_eq!(tracker.chunk_for_offset(999), Some(9));
}

#[test]
fn worker_bytes_sum_over_the_chunks_a_worker_touched() {
    let mut tracker = ProgressTracker::new(2);
    tracker.handle(start(1000));
    tracker.handle(ProgressEvent::ChunkAdvanced { worker: 1, index: 0, written: 100 });
    tracker.handle(ProgressEvent::ChunkAdvanced { worker: 1, index: 5, written: 40 });
    tracker.handle(ProgressEvent::ChunkAdvanced { worker: 1, index: 5, written: 70 });
    assert_eq!(tracker.worker_bytes(1), 170);
    assert_eq!(tracker.worker_bytes(0), 0);
    assert_eq!(tracker.worker_bytes(7), 0);
    assert_eq!(tracker.chunk_count(), 6);
}

#[test]
fn color_off_returns_plain_text() {
    let style = Style::new(false, true);
    assert_eq!(style.paint("38;5;39", "x"), "x");
}

#[test]
fn color_on_wraps_in_ansi() {
    let style = Style::new(true, false);
    assert_eq!(style.paint("33", "x"), "\x1b[33mx\x1b[0m");
}

#[test]
fn worker_palette_cycles() {
    let style = Style::new(true, false);
    assert_eq!(style.worker_ansi(0), style.worker_ansi(9));
    assert_ne!(style.worker_ansi(0), style.worker_ansi(1));
}

#[test]
fn worker_colors_come_from_the_palette() {
    let style = Style::new(true, false);
    assert_eq!(style.worker_ansi(0), "38;5;39");
    assert_eq!(style.worker_ansi(2), "38;5;208");
    assert_eq!(style.worker_ansi(17), "38;5;44");
}

#[test]
fn eyecandy_uses_nerd_font_block_glyphs() {
    let style = Style::new(false, true);
    assert_eq!(style.bar_filled(), '\u{25b0}');
    assert_eq!(style.bar_empty(), '\u{25b1}');
    assert_eq!(style.download_glyph(), '\u{f019}');
}

#[test]
fn plain_prefers_tty_safe_ascii_hashes() {
    let style = Style::new(false, false);
    assert_eq!(style.bar_filled(), '#');
    assert_eq!(style.bar_empty(), '-');
    assert_eq!(style.download_glyph(), '>');
    assert_eq!(style.worker_glyph(), '*');
}

#[test]
fn color_choice_resolves_against_the_terminal() {
    assert!(ColorChoice::Always.resolves_to(false));
    assert!(!ColorChoice::Never.resolves_to(true));
    assert!(ColorChoice::Auto.resolves_to(true));
    assert!(!ColorChoice::Auto.resolves_to(false));
}

fn parse(body: &str) -> FlagState {
    parse_options(body)
}

#[test]
fn bare_color_flag_enables_color() {
    let (color, _) = parse("Color\n");
    assert_eq!(color, Some(ColorChoice::Always));
}

#[test]
fn commented_color_flag_disables_color() {
    let (color, _) = parse("#Color\n");
    assert_eq!(color, Some(ColorChoice::Never));
}

#[test]
fn value_lines_set_progress_and_color() {
    let (color, progress) = parse("Progress = nerd\nColor = auto\n");
    assert_eq!(progress, Some(ProgressMode::Nerd));
    assert_eq!(color, Some(ColorChoice::Auto));
}

#[test]
fn unknown_lines_are_ignored() {
    let (color, progress) = parse("[unrelated]\nFoo = 1\n");
    assert_eq!(color, None);
    assert_eq!(progress, None);
}

#[test]
fn empty_config_defaults_to_nothing() {
    let (color, progress) = parse("");
    assert_eq!(color, None);
    assert_eq!(progress, None);
}

#[test]
fn truncate_respects_terminal_width_and_keeps_ansi() {
    let styled = "\x1b[38;5;39mhello\x1b[0m world, this is long";
    let narrowed = truncate_line(styled, 10);
    assert!(narrowed.contains("\x1b[38;5;39m"));
    assert!(narrowed.contains("hello"));
    assert!(!narrowed.contains("this is long"));
}

#[test]
fn truncation_counts_visible_characters_only() {
    assert_eq!(truncate_line("abcdef", 3), "abc");
    assert_eq!(truncate_line("\x1b[1mab\x1b[0mcd", 3), "\x1b[1mab\x1b[0mc");
    assert_eq!(truncate_line("ab", 0), "");
    assert_eq!(unicode_width('a'), 1);
    assert_eq!(unicode_width('\u{25b0}'), 2);
}

#[test]
fn toggle_switches_views() {
    let mut renderer = Renderer::new(Style::new(false, false), 2, false, 80);
    assert_eq!(renderer.view(), ViewMode::Bar);
    renderer.handle_key(KeyCommand::ToggleView);
    assert_eq!(renderer.view(), ViewMode::Workers);
    renderer.handle_key(KeyCommand::ToggleView);
    assert_eq!(renderer.view(), ViewMode::Bar);
}

#[test]
fn hint_only_in_bar_view_before_first_toggle() {
    let style = Style::new(false, false);
    let mut renderer = Renderer::new(style, 2, false, 80);
    let lines = renderer.compose_lines("summary".to_string(), vec!["w0".to_string()]);
    assert!(lines.iter().any(|line| line.contains("toggle view")));
    renderer.handle_key(KeyCommand::ToggleView);
    let lines = renderer.compose_lines("summary".to_string(), vec!["w0".to_string()]);
    assert!(lines.iter().all(|line| !line.contains("toggle view")));
}

#[test]
fn finish_switches_back_to_the_bar_view() {
    let mut renderer = Renderer::new(Style::new(false, false), 2, false, 80);
    renderer.handle_key(KeyCommand::ToggleView);
    assert_eq!(renderer.view(), ViewMode::Workers);
    renderer.finish();
    assert_eq!(renderer.view(), ViewMode::Bar);
}

#[test]
fn paints_are_throttled_and_only_on_terminals() {
    let mut renderer = Renderer::new(Style::new(false, false), 2, true, 80);
    assert!(renderer.handle_progress(start(1000), 0));
    assert!(!renderer.handle_progress(ProgressEvent::ChunkStarted { worker: 0, index: 0 }, 50));
    assert!(renderer.handle_progress(ProgressEvent::ChunkStarted { worker: 1, index: 1 }, 100));
    assert_eq!(renderer.tracker().chunk_worker(1), Some(1));
    let mut quiet = Renderer::new(Style::new(false, false), 2, false, 80);
    assert!(!quiet.handle_progress(start(1000), 0));
    assert_eq!(terminal_width(None), 80);
    assert_eq!(terminal_width(Some(5)), 20);
    assert_eq!(terminal_width(Some(120)), 120);
}

#[test]
fn frames_redraw_over_the_previous_frame() {
    let mut renderer = Renderer::new(Style::new(false, false), 2, true, 4);
    let first = renderer.frame_text(&vec!["abcdef".to_string(), "xy".to_string()]);
    assert_eq!(first, "\r\x1b[2Kabcd\n\r\x1b[2Kxy\n");
    renderer.record_frame(2);
    let second = renderer.frame_text(&vec!["z".to_string()]);
    assert_eq!(second, "\x1b[2A\r\x1b[2Kz\n\r\x1b[2K\n\x1b[1A");
}

#[test]
fn finish_is_silent_before_any_render() {
    let view = ProgressView::with_tty(true);
    assert!(!view.finish());
}

#[test]
fn progress_view_counts_started_and_completed_chunks() {
    let mut view = ProgressView::with_tty(false);
    assert!(!view.handle(ProgressEvent::Start { total: 1000, chunk_size: 100 }, 0));
    view.handle(ProgressEvent::ChunkStarted { worker: 0, index: 0 }, 10);
    view.handle(ProgressEvent::ChunkStarted { worker: 1, index: 1 }, 20);
    assert_eq!(view.finished_count(), 0);
    assert_eq!(view.active_count(), 2);
    view.handle(ProgressEvent::ChunkComplete { worker: 0, index: 0 }, 30);
    assert_eq!(view.finished_count(), 1);
    assert_eq!(view.active_count(), 1);
    view.handle(ProgressEvent::ChunkAdvanced { worker: 1, index: 1, written: 100 }, 40);
    assert_eq!(view.done_bytes(), 100);
    assert!(!view.finish());
    assert_eq!(hash_bar(10), format!("{}{}", "#".repeat(10), "-".repeat(30)));
}

#[test]
fn bar_width_is_clamped() {
    assert_eq!(bar_cells(60), 14);
    assert_eq!(bar_cells(100), 38);
    assert_eq!(bar_cells(500), 80);
}

#[test]
fn summary_bar_colors_cells_by_worker() {
    let mut tracker = ProgressTracker::new(2);
    tracker.handle(ProgressEvent::Start { total: 200, chunk_size: 100 });
    tracker.handle(ProgressEvent::ChunkStarted { worker: 1, index: 0 });
    let plain = summary_bar(&tracker, &Style::new(false, false), 4, 1);
    assert_eq!(plain, "#---");
    let colored = summary_bar(&tracker, &Style::new(true, false), 2, 0);
    assert_eq!(colored, "\x1b[38;5;69m-\x1b[0m\x1b[38;5;240m-\x1b[0m");
}

#[test]
fn counters_and_labels_describe_workers() {
    let mut tracker = ProgressTracker::new(3);
    tracker.handle(ProgressEvent::Start { total: 1000, chunk_size: 100 });
    tracker.handle(ProgressEvent::ChunkStarted { worker: 1, index: 2 });
    tracker.handle(ProgressEvent::ChunkComplete { worker: 0, index: 0 });
    let style = Style::new(false, false);
    assert_eq!(chunk_counters(&tracker, &style), "chunks 1/10 1 active");
    assert_eq!(worker_label(&tracker, &style, 1), "* W1 chunk #2");
    assert_eq!(worker_label(&tracker, &style, 0), "* W0 idle");
    assert_eq!(worker_share(Some(1000), 3), 333);
    assert_eq!(worker_share(None, 0), 1);
    assert_eq!(worker_minibar(&style, 5), format!("{}{}", "#".repeat(5), "-".repeat(15)));
}

#[test]
fn chunk_counts_track_started_and_completed() {
    let mut view = ProgressView::with_tty(false);
    view.handle(ProgressEvent::Start { total: 1000, chunk_size: 100 }, 0);
    view.handle(ProgressEvent::ChunkStarted { worker: 0, index: 0 }, 0);
    view.handle(ProgressEvent::ChunkStarted { worker: 1, index: 1 }, 0);
    assert!(view.chunk_tally().contains("chunks   0 done  2 active"));
    view.handle(ProgressEvent::ChunkComplete { worker: 0, index: 0 }, 0);
    assert!(view.chunk_tally().contains("chunks   1 done  1 active"));
    view.handle(ProgressEvent::ChunkComplete { worker: 1, index: 1 }, 0);
    assert!(view.chunk_tally().contains("chunks   2 done  0 active"));
}

#[test]
fn worker_colors_differ_across_workers() {
    let mut tracker = ProgressTracker::new(3);
    tracker.handle(ProgressEvent::Start { total: 1000, chunk_size: 100 });
    tracker.handle(ProgressEvent::ChunkStarted { worker: 0, index: 0 });
    let style = Style::new(true, false);
    let lines: Vec<String> = (0..2).map(|worker| worker_label(&tracker, &style, worker)).collect();
    assert_ne!(lines[0], lines[1]);
    assert!(lines[0].contains("\x1b["));
}

#[test]
fn truncation_counts_only_visible_columns() {
    let line = "\x1b[31mabcdef\x1b[0m";
    assert_eq!(truncate_line(line, 3), "\x1b[31mabc");
    assert_eq!(truncate_line(line, 6), line);
    assert_eq!(truncate_line(line, 10), line);
    assert_eq!(truncate_line("ab\x1b[1mcd", 2), "ab\x1b[1m");
}

#[test]
fn summary_parts_count_done_bytes_and_chunks() {
    let mut tracker = ProgressTracker::new(3);
    tracker.handle(ProgressEvent::Start { total: 1000, chunk_size: 100 });
    tracker.handle(ProgressEvent::ChunkStarted { worker: 0, index: 0 });
    tracker.handle(ProgressEvent::ChunkAdvanced { worker: 0, index: 0, written: 100 });
    tracker.handle(ProgressEvent::ChunkComplete { worker: 0, index: 0 });
    assert!(tracker.done_bytes_fit());
    assert_eq!(tracker.done_bytes(), 100);
    assert_eq!(tracker.total(), Some(1000));
    let style = Style::new(false, false);
    assert!(chunk_counters(&tracker, &style).contains("chunks 1/"));
    assert_eq!(style.download_glyph(), '>');
}

#[test]
fn worker_label_parts_name_the_worker_and_its_chunk() {
    let mut tracker = ProgressTracker::new(3);
    tracker.handle(ProgressEvent::Start { total: 1000, chunk_size: 100 });
    tracker.handle(ProgressEvent::ChunkStarted { worker: 1, index: 2 });
    tracker.handle(ProgressEvent::ChunkAdvanced { worker: 1, index: 2, written: 500 });
    let style = Style::new(false, true);
    let busy = worker_label(&tracker, &style, 1);
    assert!(busy.contains("W1"));
    assert!(busy.contains("chunk #2"));
    assert!(worker_label(&tracker, &style, 0).contains("idle"));
    assert_eq!(tracker.worker_bytes(1), 500);
}

#[test]
fn hash_bar_parts_reflect_downloaded_bytes() {
    let mut view = ProgressView::with_tty(false);
    view.handle(ProgressEvent::Start { total: 400, chunk_size: 400 }, 0);
    view.handle(ProgressEvent::ChunkAdvanced { worker: 0, index: 0, written: 100 }, 0);
    assert!(view.done_bytes_fit());
    assert_eq!(view.done_bytes(), 100);
    let bar = hash_bar(10);
    assert_eq!(bar.chars().take_while(|&c| c == '#').count(), 10);
    assert_eq!(bar.chars().count(), 40);
}

//! Window recognition, previews and wakeups.

use bytes::Bytes;
use translator::preview::{
    preview_is_current, preview_text, retries_attach, rgba_to_premul_bgra, PreviewInput, PreviewKey,
};
use translator::scalar::Scalar;
use translator::types::NormRect;
use translator::ui::nav_header::{header_position, walk_nav, Level, PaneAt};
use translator::wake::{install_ui_ping, ping_ui, Signal};
use translator::windowing::{
    classify_message, flash_target, is_control_window, is_main_window, is_taskbar_class, list_windows, MessageAction,
    RestackStats, WindowCandidate, APP_TITLE, MAIN_WINDOW_CLASS, WM_ACTIVATEAPP, WM_NCDESTROY,
};

const TEST_RESTORE_MESSAGE: u32 = 0xc123;

fn wide(text: &str) -> Vec<u16> {
    text.encode_utf16().collect()
}

#[test]
fn schedules_restore_only_for_app_activation() {
    assert_eq!(classify_message(WM_ACTIVATEAPP, 1, TEST_RESTORE_MESSAGE), MessageAction::ScheduleRestore);
    assert_eq!(classify_message(WM_ACTIVATEAPP, 0, TEST_RESTORE_MESSAGE), MessageAction::Delegate);
    assert_eq!(classify_message(0x0006, 1, TEST_RESTORE_MESSAGE), MessageAction::Delegate);
}

#[test]
fn private_message_runs_restore_and_destroy_removes_subclass() {
    assert_eq!(classify_message(TEST_RESTORE_MESSAGE, 0, TEST_RESTORE_MESSAGE), MessageAction::RestoreTaskbars);
    assert_eq!(classify_message(WM_NCDESTROY, 0, TEST_RESTORE_MESSAGE), MessageAction::RemoveSubclass);
}

#[test]
fn recognizes_only_primary_and_secondary_taskbar_classes() {
    for class_name in ["Shell_TrayWnd", "Shell_SecondaryTrayWnd"] {
        assert!(is_taskbar_class(&wide(class_name)));
    }

    for class_name in ["shell_traywnd", "Shell_TrayWndExtra", "Progman", ""] {
        assert!(!is_taskbar_class(&wide(class_name)));
    }
}

#[test]
fn control_window_is_known_by_class_title_and_process() {
    assert!(is_main_window(&wide(MAIN_WINDOW_CLASS), &wide(APP_TITLE)));
    assert!(!is_main_window(&wide(MAIN_WINDOW_CLASS), &wide("Other")));
    assert!(is_control_window(7, 7, &wide(MAIN_WINDOW_CLASS)));
    assert!(!is_control_window(8, 7, &wide(MAIN_WINDOW_CLASS)));
    assert_eq!(flash_target(Some(3), 4), Some(3));
    assert_eq!(flash_target(Some(3), 3), None);
    assert_eq!(flash_target(None, 3), None);
}

#[test]
fn window_list_is_sorted_without_case_and_without_blanks() {
    let candidate = |title: &str, hwnd: isize, valid: bool| WindowCandidate { title: title.to_string(), hwnd, valid };
    let listed = list_windows(&vec![
        candidate("beta", 1, true),
        candidate("  ", 2, true),
        candidate("Alpha", 3, true),
        candidate("gone", 4, false),
        candidate("ÄRGER", 5, true),
        candidate("ärger 2", 6, true),
    ]);
    let titles: Vec<&str> = listed.iter().map(|w| w.title.as_str()).collect();
    assert_eq!(titles, vec!["Alpha", "beta", "ÄRGER", "ärger 2"]);
}

#[test]
fn restack_counts_every_taskbar() {
    let mut stats = RestackStats::new();
    stats.record(true, true);
    stats.record(false, true);
    stats.record(true, false);
    assert_eq!((stats.matched, stats.restored, stats.failed), (3, 2, 1));
    assert_eq!((stats.restored_topmost, stats.restored_non_topmost), (1, 1));
}

fn reference(rgba: &[u8]) -> Vec<u8> {
    let mut out = Vec::new();
    for px in rgba.chunks_exact(4) {
        out.push((u32::from(px[2]) * u32::from(px[3]) / 255) as u8);
        out.push((u32::from(px[1]) * u32::from(px[3]) / 255) as u8);
        out.push((u32::from(px[0]) * u32::from(px[3]) / 255) as u8);
        out.push(px[3]);
    }
    out
}

#[test]
fn premul_matches_reference_for_opaque_and_mixed_alpha() {
    let opaque: &[u8] = &[10, 20, 30, 255, 200, 150, 100, 255];
    let mixed: &[u8] = &[10, 20, 30, 128, 200, 150, 100, 255, 0, 255, 0, 51];
    for rgba in [opaque, mixed] {
        assert_eq!(rgba_to_premul_bgra(rgba), reference(rgba));
    }
}

fn input(sequence: u64, rgba: Option<Bytes>) -> PreviewInput {
    PreviewInput { sequence, width: 1, height: 1, rgba, regions: Vec::new() }
}

#[test]
fn preview_input_eq_uses_sequence_not_rgba_bytes() {
    let a = input(7, Some(Bytes::from_static(&[1, 2, 3, 4])));
    let mut b = input(7, Some(Bytes::from_static(&[9, 9, 9, 9])));
    assert!(a.same_input(&b));
    b.sequence = 8;
    assert!(!a.same_input(&b));
}

#[test]
fn preview_is_painted_again_for_other_regions() {
    let scalar = |v: f32| Scalar::from_bits(v.to_bits());
    let a = input(7, Some(Bytes::from_static(&[1, 2, 3, 4])));
    let mut b = input(7, Some(Bytes::from_static(&[1, 2, 3, 4])));
    b.regions.push(NormRect::new(scalar(0.1), scalar(0.1), scalar(0.5), scalar(0.5)));
    assert!(!a.same_input(&b));
    let key = PreviewKey::of(&a, 100);
    assert!(preview_is_current(Some(key), PreviewKey::of(&a, 100)));
    assert!(!preview_is_current(Some(key), PreviewKey::of(&a, 150)));
    assert!(!preview_is_current(Some(key), PreviewKey::of(&b, 100)));
    assert!(!preview_is_current(None, key));
}

#[test]
fn preview_says_why_there_is_no_image() {
    assert_eq!(preview_text(&input(0, None), false), Some("No capture yet"));
    assert_eq!(preview_text(&input(0, Some(Bytes::new())), true), Some("No capture yet"));
    let full = input(0, Some(Bytes::from_static(&[1, 2, 3, 4])));
    assert_eq!(preview_text(&full, false), Some("Preview unavailable"));
    assert_eq!(preview_text(&full, true), None);
    assert!(retries_attach(false, 0) && !retries_attach(false, 1) && !retries_attach(true, 0));
}

#[test]
fn signal_is_kept_until_taken_once() {
    let mut signal = Signal::new();
    assert!(!signal.take());
    signal.notify();
    signal.notify();
    assert!(signal.take());
    assert!(!signal.take());
}

#[test]
fn first_ping_wins() {
    let mut slot: Option<u32> = None;
    assert_eq!(ping_ui(&slot), None);
    install_ui_ping(&mut slot, 1);
    install_ui_ping(&mut slot, 2);
    assert_eq!(ping_ui(&slot), Some(&1));
}

#[test]
fn header_goes_after_the_first_entry_once() {
    assert_eq!(header_position(5, false), Some(1));
    assert_eq!(header_position(5, true), None);
    assert_eq!(header_position(1, false), None);
    let level = |is_pane: bool, children: Vec<bool>| Level { is_pane, children };
    let up = vec![level(false, vec![false]), level(false, vec![false, true]), level(true, vec![])];
    assert_eq!(walk_nav(&up), Some(PaneAt::Child { ancestor: 1, child: 1 }));
    assert_eq!(walk_nav(&vec![level(true, vec![true])]), Some(PaneAt::Ancestor(0)));
    let mut far: Vec<bool> = vec![false; 16];
    far.push(true);
    assert_eq!(walk_nav(&vec![level(false, far)]), None);
}

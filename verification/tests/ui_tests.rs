use gdrive_api::progress::percent;
use gdrive_api::ui::{
    after_poll, download_start_text, event_action, finished_text, folder_query, progress_text, spinner_position,
    text_width, EventAction, EVT_EXIT, EVT_INIT, EVT_KEYPRESS, EVT_POLL,
};
use gdrive_api::{FileDownload, Hourglass};

#[test]
fn hourglass_box_is_centred() {
    let h = Hourglass::place(758, 1024);
    assert_eq!((h.x(), h.y(), h.w(), h.h()), (20, 552, 718, 0));
    let h = Hourglass::place(759, 1023);
    assert_eq!((h.x(), h.y(), h.w(), h.h()), (20, 551, 719, 0));
    assert_eq!(spinner_position(758, 1024), (379, 492));
    assert_eq!(text_width(758), 718);
}

#[test]
fn hourglass_on_narrow_screen_rounds_toward_zero() {
    let h = Hourglass::place(11, 0);
    assert_eq!((h.x(), h.y(), h.w()), (5 - (-29 / 2), 40, -29));
    assert_eq!(spinner_position(-5, -5), (-2, -22));
}

#[test]
fn refresh_covers_old_and_new_text() {
    let mut h = Hourglass::place(600, 800);
    assert_eq!(h.set_text_height(30), 30);
    assert_eq!(h.set_text_height(10), 30);
    assert_eq!(h.h(), 10);
    assert_eq!(h.set_text_height(50), 50);
    assert_eq!(h.h(), 50);
}

#[test]
fn events() {
    assert_eq!(event_action(EVT_INIT), EventAction::Start);
    assert_eq!(event_action(EVT_EXIT), EventAction::Close);
    assert_eq!(event_action(EVT_KEYPRESS), EventAction::Close);
    assert_eq!(event_action(EVT_POLL), EventAction::Poll);
    assert_eq!(event_action(23), EventAction::Ignore);
    assert_eq!(after_poll(true), EventAction::Close);
    assert_eq!(after_poll(false), EventAction::Poll);
}

#[test]
fn messages() {
    assert_eq!(folder_query("1AbC"), "'1AbC' in parents");
    assert_eq!(progress_text("book.epub", 7), "Downloading book.epub... (07%)");
    assert_eq!(progress_text("book.epub", 42), "Downloading book.epub... (42%)");
    assert_eq!(progress_text("b", 100), "Downloading b... (100%)");
    assert_eq!(progress_text("b", 5), format!("Downloading {}... ({:02}%)", "b", 5));
    assert_eq!(download_start_text("x.pdf"), "Downloading x.pdf...");
    assert_eq!(finished_text(3), "Downloaded 3 files");
}

#[test]
fn download_progress_counts_bytes() {
    let mut p = FileDownload::new();
    assert_eq!(p.ready(), 0);
    assert!(!p.next_chunk(4096));
    assert!(!p.next_chunk(100));
    assert_eq!(p.ready(), 4196);
    assert!(p.next_chunk(0));
    assert_eq!(p.ready(), 4196);
}

#[test]
fn percent_rounds_down_and_stays_within_hundred() {
    assert_eq!(percent(0, 10), 0);
    assert_eq!(percent(1, 3), 33);
    assert_eq!(percent(2, 3), 66);
    assert_eq!(percent(10, 10), 100);
    assert_eq!(percent(4196, 1_000_000), 0);
}

use bible_audio::{render_line, DownloadProgress};

#[test]
fn fresh_progress_is_empty() {
    let p = DownloadProgress::new(5);
    assert_eq!(p.total_files, 5);
    assert_eq!(p.downloaded, 0);
    assert_eq!(p.failed.len(), 0);
    assert_eq!(p.current_book, "");
    assert_eq!(p.current_chapter, 0);
    assert!(!p.is_complete());
}

#[test]
fn success_moves_the_counter_and_position() {
    let mut p = DownloadProgress::new(2);
    p.record_success(String::from("Genesis"), 3);
    assert_eq!(p.downloaded, 1);
    assert_eq!(p.failed.len(), 0);
    assert_eq!(p.current_book, "Genesis");
    assert_eq!(p.current_chapter, 3);
    assert_eq!(p.resolved(), 1);
    assert!(!p.is_complete());
}

#[test]
fn failure_appends_a_record() {
    let mut p = DownloadProgress::new(2);
    p.record_failure(String::from("Mark"), 7, String::from("HTTP error: 404"));
    assert_eq!(p.downloaded, 0);
    assert_eq!(p.failed.len(), 1);
    assert_eq!(p.failed[0].book_name, "Mark");
    assert_eq!(p.failed[0].chapter, 7);
    assert_eq!(p.failed[0].reason, "HTTP error: 404");
    assert_eq!(p.current_book, "Mark");
    assert_eq!(p.current_chapter, 7);
}

#[test]
fn completion_needs_every_item_resolved() {
    let mut p = DownloadProgress::new(2);
    p.record_success(String::from("A"), 1);
    assert!(!p.is_complete());
    p.record_failure(String::from("B"), 1, String::from("down"));
    assert!(p.is_complete());
    assert_eq!(p.resolved(), 2);
    assert_eq!(p.downloaded + p.failed.len(), p.total_files);
}

#[test]
fn render_shows_counts_and_position() {
    let mut p = DownloadProgress::new(4);
    p.record_success(String::from("Genesis"), 2);
    let line = render_line(&p);
    let bar: String = "#".repeat(12) + &"-".repeat(38);
    assert_eq!(
        line,
        format!("[{}] 25% | 1/4 files | Current: Genesis Ch.2 | Failed: 0", bar)
    );
}

#[test]
fn render_with_nothing_to_do_is_full() {
    let p = DownloadProgress::new(0);
    let line = render_line(&p);
    let bar: String = "#".repeat(50);
    assert_eq!(line, format!("[{}] 100% | 0/0 files | Current:  Ch.0 | Failed: 0", bar));
    assert!(p.is_complete());
}

#[test]
fn render_counts_failures() {
    let mut p = DownloadProgress::new(2);
    p.record_success(String::from("A"), 1);
    p.record_failure(String::from("B"), 2, String::from("broken"));
    let line = render_line(&p);
    let bar: String = "#".repeat(25) + &"-".repeat(25);
    assert_eq!(line, format!("[{}] 50% | 1/2 files | Current: B Ch.2 | Failed: 1", bar));
}

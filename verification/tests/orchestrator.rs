use bible_audio::{
    apply_resolution, chapter_rel_path, classify_status, fail_with, run_schedule, should_fetch,
    work_items, BibleBook, DownloadError, DownloadProgress, ItemResolution, WorkerPool,
};

fn two_group_catalog() -> Vec<BibleBook> {
    vec![
        BibleBook { id: 1, name: String::from("A"), chapters: 1 },
        BibleBook { id: 2, name: String::from("B"), chapters: 2 },
    ]
}

#[test]
fn enumeration_is_ascending_by_book_then_chapter() {
    let items = work_items(&two_group_catalog());
    assert_eq!(items.len(), 3);
    assert_eq!((items[0].book_id, items[0].book_name.as_str(), items[0].chapter), (1, "A", 1));
    assert_eq!((items[1].book_id, items[1].book_name.as_str(), items[1].chapter), (2, "B", 1));
    assert_eq!((items[2].book_id, items[2].book_name.as_str(), items[2].chapter), (2, "B", 2));
}

#[test]
fn all_fetches_succeed_gives_three_completed() {
    let items = work_items(&two_group_catalog());
    let resolutions = vec![
        ItemResolution::Downloaded,
        ItemResolution::Downloaded,
        ItemResolution::Downloaded,
    ];
    let p = run_schedule(&items, &resolutions);
    assert_eq!(p.downloaded, 3);
    assert_eq!(p.failed.len(), 0);
    assert_eq!(p.downloaded + p.failed.len(), p.total_files);
    let paths: Vec<String> = items
        .iter()
        .map(|w| chapter_rel_path(&w.book_name, w.chapter))
        .collect();
    assert_eq!(paths, vec!["A/chapter-01.mp3", "B/chapter-01.mp3", "B/chapter-02.mp3"]);
}

#[test]
fn one_bad_status_gives_one_failure_naming_the_item() {
    let items = work_items(&two_group_catalog());
    let bad = classify_status(404).unwrap_err();
    let resolutions = vec![
        ItemResolution::Downloaded,
        ItemResolution::Downloaded,
        fail_with(&bad),
    ];
    let p = run_schedule(&items, &resolutions);
    assert_eq!(p.downloaded, 2);
    assert_eq!(p.failed.len(), 1);
    assert_eq!(p.failed[0].book_name, "B");
    assert_eq!(p.failed[0].chapter, 2);
    assert_eq!(p.failed[0].reason, "HTTP error: 404");
    assert_eq!(p.downloaded + p.failed.len(), p.total_files);
}

#[test]
fn rerun_with_everything_present_skips_and_still_completes() {
    let items = work_items(&two_group_catalog());
    // Every target exists: no item needs a fetch.
    for exists in [true, true, true] {
        assert!(!should_fetch(exists));
    }
    let resolutions = vec![
        ItemResolution::AlreadyPresent,
        ItemResolution::AlreadyPresent,
        ItemResolution::AlreadyPresent,
    ];
    let p = run_schedule(&items, &resolutions);
    assert_eq!(p.downloaded, 3);
    assert_eq!(p.failed.len(), 0);
    assert_eq!(p.downloaded + p.failed.len(), p.total_files);
}

#[test]
fn absent_targets_need_a_fetch() {
    assert!(should_fetch(false));
    assert!(!should_fetch(true));
}

#[test]
fn statuses_in_the_success_range_are_accepted() {
    assert!(classify_status(200).is_ok());
    assert!(classify_status(204).is_ok());
    assert!(classify_status(299).is_ok());
    assert!(classify_status(199).is_err());
    assert!(classify_status(301).is_err());
    assert!(classify_status(404).is_err());
    assert!(classify_status(500).is_err());
}

#[test]
fn remote_errors_carry_their_status() {
    match classify_status(503) {
        Err(DownloadError::Remote(status)) => assert_eq!(status, 503),
        _ => panic!("a non-success status must be refused as a remote error"),
    }
}

#[test]
fn error_descriptions_name_the_cause() {
    assert_eq!(DownloadError::Remote(404).describe(), "HTTP error: 404");
    assert_eq!(
        DownloadError::Transport(String::from("connection timed out")).describe(),
        "connection timed out"
    );
    assert_eq!(
        DownloadError::Storage(String::from("disk full")).describe(),
        "disk full"
    );
    let failed = fail_with(&DownloadError::Remote(500));
    assert!(matches!(failed, ItemResolution::Failed(ref m) if m == "HTTP error: 500"));
}

#[test]
fn each_resolution_moves_exactly_one_counter() {
    let mut p = DownloadProgress::new(3);
    apply_resolution(&mut p, String::from("A"), 1, &ItemResolution::Downloaded);
    assert_eq!((p.downloaded, p.failed.len()), (1, 0));
    apply_resolution(&mut p, String::from("B"), 1, &ItemResolution::AlreadyPresent);
    assert_eq!((p.downloaded, p.failed.len()), (2, 0));
    apply_resolution(
        &mut p,
        String::from("B"),
        2,
        &ItemResolution::Failed(String::from("broken")),
    );
    assert_eq!((p.downloaded, p.failed.len()), (2, 1));
    assert_eq!(p.downloaded + p.failed.len(), p.total_files);
}

#[test]
fn the_pool_never_grants_beyond_its_capacity() {
    let mut pool = WorkerPool::new(2);
    assert!(pool.try_acquire());
    assert!(pool.try_acquire());
    assert!(!pool.try_acquire());
    assert!(pool.active <= pool.limit);
    pool.release();
    assert!(pool.try_acquire());
    assert!(!pool.try_acquire());
    assert!(pool.active <= pool.limit);
    pool.release();
    pool.release();
    assert_eq!(pool.active, 0);
}

#[test]
fn a_zero_capacity_pool_grants_nothing() {
    let mut pool = WorkerPool::new(0);
    assert!(!pool.try_acquire());
    assert_eq!(pool.active, 0);
}

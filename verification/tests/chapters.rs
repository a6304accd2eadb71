use media_toc_player::chapter_tree_manager::{
    ChapterTimestamps, ChapterTreeManager, PositionStatus,
};
use media_toc_player::media_info::TocEntry;
use media_toc_player::timestamp::Timestamp;

fn toc_entry(start: u64, end: u64, title: Option<&str>) -> TocEntry {
    TocEntry {
        start: Timestamp::new(start),
        end: Timestamp::new(end),
        title: title.map(String::from),
    }
}

fn manager_with_three_chapters() -> ChapterTreeManager {
    let mut manager = ChapterTreeManager::new();
    let toc = Some(vec![
        toc_entry(0, 10, Some("one")),
        toc_entry(10, 20, Some("two")),
        toc_entry(20, 30, Some("three")),
    ]);
    manager.replace_with(&toc);
    manager
}

#[test]
fn replace_with_builds_and_rewinds() {
    let manager = manager_with_three_chapters();
    assert_eq!(manager.chapters.len(), 3);
    assert_eq!(manager.chapters[1].start().as_u64(), 10);
    assert_eq!(manager.chapters[1].end().as_u64(), 20);
    assert_eq!(manager.chapters[0].title, "one");
    // the first chapter starts at the origin, so it is pre-selected
    assert_eq!(manager.selected, Some(0));
    assert_eq!(manager.iter, Some(0));
}

#[test]
fn replace_with_untitled_entry_gets_default_title() {
    let mut manager = ChapterTreeManager::new();
    manager.replace_with(&Some(vec![toc_entry(5, 10, None)]));
    assert_eq!(manager.chapters[0].title, "untitled");
    // the first chapter does not start at the origin: nothing selected
    assert_eq!(manager.selected, None);
    assert_eq!(manager.iter, Some(0));
}

#[test]
fn replace_with_none_clears() {
    let mut manager = manager_with_three_chapters();
    manager.replace_with(&None);
    assert_eq!(manager.chapters.len(), 0);
    assert_eq!(manager.iter, None);
    assert_eq!(manager.selected, None);
}

#[test]
fn monotonic_fast_path_changes_only_at_boundaries() {
    let mut manager = manager_with_three_chapters();
    let expect_changed = [
        (0u64, false),
        (5, false),
        (9, false),
        (10, true),
        (15, false),
        (19, false),
        (20, true),
        (25, false),
    ];
    for (ts, changed) in expect_changed {
        let status = manager.update_ts(Timestamp::new(ts));
        match status {
            PositionStatus::ChapterChanged { .. } => assert!(changed, "ts {}", ts),
            PositionStatus::ChapterNotChanged => assert!(!changed, "ts {}", ts),
        }
    }
    assert_eq!(manager.selected, Some(2));

    // past the last chapter: nothing is selected any more, and the
    // change carries the chapter left behind
    let status = manager.update_ts(Timestamp::new(35));
    assert_eq!(manager.selected, None);
    match status {
        PositionStatus::ChapterChanged { prev_chapter } => {
            let prev = prev_chapter.unwrap();
            assert_eq!(prev.index, 2);
            assert_eq!(prev.start.as_u64(), 20);
        }
        PositionStatus::ChapterNotChanged => panic!("leaving a chapter must report a change"),
    }

    // staying past the end changes nothing further
    let status = manager.update_ts(Timestamp::new(40));
    assert!(matches!(status, PositionStatus::ChapterNotChanged));
    assert_eq!(manager.selected, None);
}

#[test]
fn boundary_belongs_to_the_next_chapter() {
    let mut manager = ChapterTreeManager::new();
    manager.replace_with(&Some(vec![
        toc_entry(10, 20, Some("a")),
        toc_entry(20, 30, Some("b")),
    ]));
    // the end bound is exclusive: ts 20 selects the next chapter
    manager.update_ts(Timestamp::new(20));
    assert_eq!(manager.selected, Some(1));

    // with no next chapter, the boundary selects nothing
    let mut manager = ChapterTreeManager::new();
    manager.replace_with(&Some(vec![toc_entry(10, 20, Some("a"))]));
    manager.update_ts(Timestamp::new(20));
    assert_eq!(manager.selected, None);
}

#[test]
fn seeking_backward_finds_the_chapter() {
    let mut manager = manager_with_three_chapters();
    manager.update_ts(Timestamp::new(25));
    assert_eq!(manager.selected, Some(2));
    manager.update_ts(Timestamp::new(5));
    assert_eq!(manager.selected, Some(0));
}

#[test]
fn gap_selects_nothing() {
    let mut manager = ChapterTreeManager::new();
    manager.replace_with(&Some(vec![
        toc_entry(0, 10, Some("a")),
        toc_entry(15, 20, Some("b")),
    ]));
    manager.update_ts(Timestamp::new(12));
    assert_eq!(manager.selected, None);
    // and before the first chapter of a list that starts later
    let mut manager = ChapterTreeManager::new();
    manager.replace_with(&Some(vec![toc_entry(10, 20, Some("a"))]));
    manager.update_ts(Timestamp::new(5));
    assert_eq!(manager.selected, None);
}

#[test]
fn pick_next_and_previous() {
    let mut manager = manager_with_three_chapters();
    // the first chapter is selected after the rewind
    assert_eq!(manager.pick_next().unwrap().start().as_u64(), 10);
    assert!(manager.pick_previous().is_none());

    manager.update_ts(Timestamp::new(15));
    assert_eq!(manager.pick_next().unwrap().start().as_u64(), 20);
    assert_eq!(manager.pick_previous().unwrap().start().as_u64(), 0);

    manager.unselect();
    // with nothing selected: next is the first, previous the last
    assert_eq!(manager.pick_next().unwrap().start().as_u64(), 0);
    assert_eq!(manager.pick_previous().unwrap().start().as_u64(), 20);
}

#[test]
fn previous_chapter_threshold() {
    let second = 1_000_000_000u64;
    let mut manager = ChapterTreeManager::new();
    manager.replace_with(&Some(vec![
        toc_entry(0, 30 * second, Some("a")),
        toc_entry(30 * second, 60 * second, Some("b")),
    ]));
    manager.update_ts(Timestamp::new(35 * second));
    assert_eq!(manager.selected, Some(1));

    // more than a second into the chapter: back to its own start
    let target = manager.previous_chapter(Timestamp::new(35 * second)).unwrap();
    assert_eq!(target.as_u64(), 30 * second);

    // just entered: back to the chapter before
    let target = manager
        .previous_chapter(Timestamp::new(30 * second + 500_000_000))
        .unwrap();
    assert_eq!(target.as_u64(), 0);
}

#[test]
fn clear_empties_everything() {
    let mut manager = manager_with_three_chapters();
    manager.clear();
    assert_eq!(manager.chapters.len(), 0);
    assert_eq!(manager.iter, None);
    assert_eq!(manager.selected, None);
    // an update on an empty index selects nothing and reports no change
    let status = manager.update_ts(Timestamp::new(5));
    assert!(matches!(status, PositionStatus::ChapterNotChanged));
}

#[test]
fn chapter_timestamps_from_u64() {
    let ts = ChapterTimestamps::new_from_u64(3, 9);
    assert_eq!(ts.start.as_u64(), 3);
    assert_eq!(ts.end.as_u64(), 9);
}

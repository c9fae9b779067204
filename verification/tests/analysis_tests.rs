use cargo_cleaner::analysis::{
    fold_target_stats, ids_contain, insert_sorted_by_size, record_analysis, remove_selected,
    results_list, FileStat,
};
use cargo_cleaner::ProjectTargetAnalysis;
use std::sync::mpsc::sync_channel;

fn target(id: u128, name: &str, size: u64) -> ProjectTargetAnalysis {
    ProjectTargetAnalysis {
        id,
        project_path: format!("/test/{}", name),
        project_name: Some(name.to_string()),
        size,
        last_modified: 0,
        selected_for_cleanup: false,
    }
}

fn sizes(items: &Vec<ProjectTargetAnalysis>) -> Vec<u64> {
    items.iter().map(|it| it.size).collect()
}

#[test]
fn folding_an_empty_subtree_gives_zero_and_the_epoch() {
    let (size, modified) = fold_target_stats(&vec![]);
    assert_eq!(size, 0);
    assert_eq!(modified, 0);
}

#[test]
fn folding_sums_sizes_and_keeps_the_latest_time() {
    let files = vec![
        FileStat { size: 10, modified: 5 },
        FileStat { size: 20, modified: 3 },
        FileStat { size: 12, modified: 4 },
    ];
    let (size, modified) = fold_target_stats(&files);
    assert_eq!(size, 42);
    assert_eq!(modified, 5);
}

#[test]
fn folding_saturates_instead_of_overflowing() {
    let files = vec![
        FileStat { size: u64::MAX, modified: 1 },
        FileStat { size: 5, modified: 2 },
    ];
    let (size, modified) = fold_target_stats(&files);
    assert_eq!(size, u64::MAX);
    assert_eq!(modified, 2);
}

/// Inserting sizes [5, 1, 9, 3] one at a time keeps the list sorted by
/// descending size at every intermediate state.
#[test]
fn insertion_preserves_descending_order_at_every_state() {
    let mut items: Vec<ProjectTargetAnalysis> = Vec::new();

    insert_sorted_by_size(&mut items, target(1, "a", 5));
    assert_eq!(sizes(&items), vec![5]);

    insert_sorted_by_size(&mut items, target(2, "b", 1));
    assert_eq!(sizes(&items), vec![5, 1]);

    insert_sorted_by_size(&mut items, target(3, "c", 9));
    assert_eq!(sizes(&items), vec![9, 5, 1]);

    insert_sorted_by_size(&mut items, target(4, "d", 3));
    assert_eq!(sizes(&items), vec![9, 5, 3, 1]);
}

#[test]
fn equal_sizes_stay_together_and_nothing_is_lost() {
    let mut items: Vec<ProjectTargetAnalysis> = Vec::new();
    insert_sorted_by_size(&mut items, target(1, "a", 4));
    insert_sorted_by_size(&mut items, target(2, "b", 4));
    insert_sorted_by_size(&mut items, target(3, "c", 4));
    assert_eq!(sizes(&items), vec![4, 4, 4]);
    assert_eq!(items.len(), 3);
}

#[test]
fn recording_skips_empty_targets_and_sorts_the_rest() {
    let (tx, notify_rx) = sync_channel(1);
    let items = results_list(tx);

    record_analysis(&items, target(1, "a", 5));
    record_analysis(&items, target(2, "b", 0));
    record_analysis(&items, target(3, "c", 9));

    let reader = items.read();
    assert_eq!(sizes(reader.borrow()), vec![9, 5]);
    reader.release();
    assert!(notify_rx.try_recv().is_ok());
}

#[test]
fn ids_contain_finds_exactly_the_listed_ids() {
    let sel = vec![3u128, 7u128];
    assert!(ids_contain(&sel, 3));
    assert!(ids_contain(&sel, 7));
    assert!(!ids_contain(&sel, 5));
    assert!(!ids_contain(&vec![], 3));
}

#[test]
fn removing_selected_keeps_the_survivors_in_order() {
    let mut items = vec![
        target(1, "a", 9),
        target(2, "b", 7),
        target(3, "c", 5),
        target(4, "d", 3),
    ];
    remove_selected(&mut items, &vec![2u128, 4u128]);
    assert_eq!(sizes(&items), vec![9, 5]);
    assert_eq!(items[0].id, 1);
    assert_eq!(items[1].id, 3);
}

#[test]
fn removing_nothing_changes_nothing() {
    let mut items = vec![target(1, "a", 9), target(2, "b", 7)];
    remove_selected(&mut items, &vec![]);
    assert_eq!(items.len(), 2);
}

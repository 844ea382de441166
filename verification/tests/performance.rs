use fedorawin::performance::{process_tree, snapshot, HARD_LIMIT_MB, TARGET_IDLE_MB};

#[test]
fn memory_budget_keeps_hard_limit_above_target() {
    assert_eq!(TARGET_IDLE_MB, 100);
    assert_eq!(HARD_LIMIT_MB, 300);
    assert!(HARD_LIMIT_MB > TARGET_IDLE_MB);
}

#[test]
fn process_tree_collects_descendants_only() {
    // 10 is the shell; 11 and 12 are its children, 13 a grandchild, 20 unrelated.
    let relationships = vec![(13, 12), (11, 10), (12, 10), (20, 1), (10, 1)];
    let mut tree = process_tree(10, &relationships);
    tree.sort();
    assert_eq!(tree, vec![10, 11, 12, 13]);
}

#[test]
fn snapshot_rounds_up_to_whole_mebibytes() {
    let mib = 1024 * 1024;
    let result = snapshot(3, &vec![Some(mib), None, Some(1)]);
    assert_eq!(result.working_set_mb, 2);
    assert_eq!(result.process_count, 3);
    assert_eq!(result.target_idle_mb, 100);
    assert_eq!(result.hard_limit_mb, 300);
    assert!(result.within_hard_limit);
}

#[test]
fn snapshot_flags_budget_overrun() {
    let mib = 1024 * 1024;
    let over = snapshot(1, &vec![Some(301 * mib)]);
    assert_eq!(over.working_set_mb, 301);
    assert!(!over.within_hard_limit);
    let at = snapshot(1, &vec![Some(300 * mib)]);
    assert!(at.within_hard_limit);
}

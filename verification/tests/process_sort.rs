use mise_tui::widgets::processes::{sort_positions, sort_positions_by_name};

fn names() -> Vec<String> {
    vec!["systemd".to_string(), "firefox".to_string(), "code".to_string()]
}

#[test]
fn handle_data_sorts_by_name_asc() {
    let n = names();
    let order = sort_positions_by_name(&n, false);
    let sorted: Vec<&str> = order.iter().map(|&i| n[i].as_str()).collect();
    assert_eq!(sorted, vec!["code", "firefox", "systemd"]);
}

#[test]
fn name_sort_ignores_case_and_keeps_ties_in_order() {
    let n = vec!["b".to_string(), "A".to_string(), "a".to_string(), "B".to_string()];
    assert_eq!(sort_positions_by_name(&n, false), vec![1, 2, 0, 3]);
    assert_eq!(sort_positions_by_name(&n, true), vec![0, 3, 1, 2]);
}

#[test]
fn memory_sort_descending_keeps_ties_in_order() {
    let mem = vec![10_000_000u64, 500_000_000, 300_000_000, 500_000_000];
    assert_eq!(sort_positions(&mem, true), vec![1, 3, 2, 0]);
    assert_eq!(sort_positions(&mem, false), vec![0, 2, 1, 3]);
}

#[test]
fn empty_list_sorts_to_nothing() {
    assert!(sort_positions(&vec![], true).is_empty());
    assert!(sort_positions_by_name(&vec![], false).is_empty());
}

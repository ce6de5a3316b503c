use local_file_intelligence::commands::{check_not_running, check_roots_present, validate_folder};
use local_file_intelligence::models::IndexStatus;
use local_file_intelligence::watcher::{
    build_root_map, find_root_id, watch_action, ChangeKind, WatchAction,
};

fn comps(items: &[&str]) -> Vec<String> {
    items.iter().map(|s| s.to_string()).collect()
}

#[test]
fn root_map_keeps_last_id_per_path() {
    let paths = vec![
        (1, comps(&["/", "a"])),
        (2, comps(&["/", "b"])),
        (3, comps(&["/", "a"])),
    ];
    let map = build_root_map(&paths);
    assert_eq!(map.len(), 2);
    assert_eq!(map[0].components, comps(&["/", "a"]));
    assert_eq!(map[0].root_id, 3);
    assert_eq!(map[1].root_id, 2);
}

#[test]
fn root_found_by_component_prefix() {
    let map = build_root_map(&vec![(1, comps(&["/", "docs"])), (2, comps(&["/", "code"]))]);
    assert_eq!(find_root_id(&map, &comps(&["/", "code", "main.rs"])), Some(2));
    assert_eq!(find_root_id(&map, &comps(&["/", "docs"])), Some(1));
    assert_eq!(find_root_id(&map, &comps(&["/", "docsx", "a"])), None);
    assert_eq!(find_root_id(&map, &comps(&["/"])), None);
}

#[test]
fn watch_actions() {
    assert!(matches!(watch_action(ChangeKind::Create, false, true, Some(4)), WatchAction::Index(4)));
    assert!(matches!(watch_action(ChangeKind::Modify, false, true, Some(4)), WatchAction::Index(4)));
    assert!(matches!(watch_action(ChangeKind::Modify, false, false, Some(4)), WatchAction::Remove));
    assert!(matches!(watch_action(ChangeKind::Create, false, false, Some(4)), WatchAction::Skip));
    assert!(matches!(watch_action(ChangeKind::Modify, false, false, None), WatchAction::Skip));
    assert!(matches!(watch_action(ChangeKind::Remove, false, false, Some(4)), WatchAction::Remove));
    assert!(matches!(watch_action(ChangeKind::Remove, false, false, None), WatchAction::Skip));
    assert!(matches!(watch_action(ChangeKind::Create, true, true, Some(4)), WatchAction::Skip));
    assert!(matches!(watch_action(ChangeKind::Other, false, true, Some(4)), WatchAction::Skip));
}

#[test]
fn folder_validation_messages() {
    assert_eq!(validate_folder(true, true), Ok(()));
    assert_eq!(validate_folder(false, false), Err("Path does not exist".to_string()));
    assert_eq!(validate_folder(true, false), Err("Path is not a directory".to_string()));
}

#[test]
fn scans_do_not_overlap() {
    let mut status = IndexStatus::default();
    assert_eq!(check_not_running(&status), Ok(()));
    status.begin_scan();
    assert_eq!(check_not_running(&status), Err("Indexing is already in progress".to_string()));
    assert_eq!(check_roots_present(0), Err("No indexed folders to scan".to_string()));
    assert_eq!(check_roots_present(2), Ok(()));
}

use cp_rs::entry::{read_dir, Child, ChildKind, Entry, Task};
use cp_rs::path::{get_dest, FsPath};
use cp_rs::plan::{initial_entries, ConfigError, Source, SourceKind};
use cp_rs::pool::thread_count;
use cp_rs::state::{send_to_error, Action, State};

fn p(s: &str) -> FsPath {
    let mut parts: Vec<String> = Vec::new();
    if s.starts_with('/') {
        parts.push("/".to_string());
    }
    for c in s.split('/') {
        if !c.is_empty() {
            parts.push(c.to_string());
        }
    }
    FsPath { parts }
}

fn child(name: &str, kind: ChildKind) -> Child {
    Child { name: name.to_string(), kind }
}

fn source(s: &str, kind: SourceKind) -> Source {
    Source { path: p(s), trailing_separator: s.ends_with('/') && s.len() > 1, kind }
}

#[test]
fn resolves_destination_under_root() {
    let d = get_dest(&p("/a/b"), &p("/x"), &p("/a/b/c/d.txt"));
    assert_eq!(d, p("/x/c/d.txt"));
}

#[test]
fn resolves_root_itself_to_destination() {
    let d = get_dest(&p("/a/b"), &p("/x"), &p("/a/b"));
    assert_eq!(d, p("/x"));
}

#[test]
fn trailing_separator_copies_contents_only() {
    let entries = initial_entries(&vec![source("/a/b/", SourceKind::Dir)], false).unwrap();
    assert_eq!(entries, vec![Entry::Dir(p("/a/b"), p("/a/b"))]);
    let Entry::Dir(root, dir) = &entries[0] else { panic!("expected a directory") };
    assert_eq!(get_dest(root, &p("/x"), dir), p("/x"));
    assert_eq!(get_dest(root, &p("/x"), &p("/a/b/c/d.txt")), p("/x/c/d.txt"));
}

#[test]
fn no_trailing_separator_keeps_directory_name() {
    let entries = initial_entries(&vec![source("/a/b", SourceKind::Dir)], false).unwrap();
    assert_eq!(entries, vec![Entry::Dir(p("/a"), p("/a/b"))]);
    let Entry::Dir(root, dir) = &entries[0] else { panic!("expected a directory") };
    assert_eq!(get_dest(root, &p("/x"), dir), p("/x/b"));
    assert_eq!(get_dest(root, &p("/x"), &p("/a/b/c/d.txt")), p("/x/b/c/d.txt"));
}

#[test]
fn file_source_is_anchored_at_parent() {
    let entries = initial_entries(&vec![source("/a/f.txt", SourceKind::File)], false).unwrap();
    assert_eq!(entries, vec![Entry::File(p("/a"), p("/a/f.txt"))]);
}

#[test]
fn many_sources_to_file_destination_is_refused() {
    let sources = vec![source("/a", SourceKind::Dir), source("/b", SourceKind::Dir)];
    assert_eq!(initial_entries(&sources, true), Err(ConfigError::ManySourcesToFile));
    let entries = initial_entries(&sources, false).unwrap();
    assert_eq!(entries.len(), 2);
}

#[test]
fn single_source_to_file_destination_is_accepted() {
    let sources = vec![source("/a/f.txt", SourceKind::File)];
    assert!(initial_entries(&sources, true).is_ok());
}

#[test]
fn source_neither_file_nor_directory_is_refused() {
    let sources = vec![source("/a", SourceKind::Dir), source("/dev/null", SourceKind::Other)];
    assert_eq!(initial_entries(&sources, false), Err(ConfigError::NotFileOrDir(1)));
}

#[test]
fn root_without_parent_is_refused() {
    let sources = vec![Source { path: p("/"), trailing_separator: false, kind: SourceKind::File }];
    assert_eq!(initial_entries(&sources, false), Err(ConfigError::NoParent(0)));
}

#[test]
fn read_dir_keeps_files_and_dirs_in_reverse_order() {
    let listing = vec![
        child("x", ChildKind::File),
        child("sock", ChildKind::Other),
        child("y", ChildKind::Dir),
    ];
    let entries = read_dir(&p("/a"), &p("/a/b"), &listing);
    assert_eq!(entries, vec![Entry::Dir(p("/a"), p("/a/b/y")), Entry::File(p("/a"), p("/a/b/x"))]);
}

#[test]
fn read_dir_of_empty_listing_is_empty() {
    assert!(read_dir(&p("/a"), &p("/a/b"), &vec![]).is_empty());
}

#[test]
fn path_parent_and_prefix() {
    assert_eq!(p("/a/b").parent(), Some(p("/a")));
    assert_eq!(p("/").parent(), None);
    assert_eq!(FsPath::new().parent(), None);
    assert!(p("/a/b/c").starts_with(&p("/a/b")));
    assert!(!p("/a/bc").starts_with(&p("/a/b")));
    assert!(!p("/a").starts_with(&p("/a/b")));
    assert!(p("/a/b").same_path(&p("/a/b")));
    assert!(!p("/a/b").same_path(&p("/a")));
    assert_eq!(p("/a").join_name(&"b".to_string()), p("/a/b"));
}

fn run_with(entries: Vec<Entry>, workers: u16) -> State {
    let mut s = State::new(vec![], p("/x"), entries);
    for _ in 0..workers {
        s.add_worker();
    }
    s
}

#[test]
fn worker_ids_count_up() {
    let mut s = run_with(vec![], 0);
    assert_eq!(s.add_worker(), 0);
    assert_eq!(s.add_worker(), 1);
    assert_eq!(s.workers[1].task, Task::Initializing);
}

#[test]
fn scan_then_copy_then_stop() {
    let mut s = run_with(vec![Entry::Dir(p("/a"), p("/a/b"))], 1);
    let (action, changed) = s.next_action(0);
    assert!(changed);
    assert_eq!(action, Action::Scan { dir: p("/a/b"), dest: p("/x/b") });
    assert_eq!(s.workers[0].task, Task::Scanning(p("/a/b")));
    s.finish_scan(0, &vec![child("f", ChildKind::File)], vec![]);
    assert_eq!(s.totals(), (1, 1));
    let (action, _) = s.next_action(0);
    assert_eq!(action, Action::Copy { file: p("/a/b/f"), dest: p("/x/b/f") });
    s.finish_copy(0, None);
    assert_eq!(s.totals(), (2, 0));
    let (action, changed) = s.next_action(0);
    assert!(changed);
    assert_eq!(action, Action::Stop);
    assert_eq!(s.workers[0].task, Task::Idle);
    assert!(s.errors.is_empty());
}

#[test]
fn entries_are_taken_last_first() {
    let mut s = run_with(vec![], 1);
    s.entries = vec![Entry::File(p("/a"), p("/a/1")), Entry::File(p("/a"), p("/a/2"))];
    let (action, _) = s.next_action(0);
    assert_eq!(action, Action::Copy { file: p("/a/2"), dest: p("/x/2") });
}

#[test]
fn no_stop_while_a_sibling_is_scanning() {
    let mut s = run_with(vec![Entry::Dir(p("/a"), p("/a/b"))], 2);
    let (first, _) = s.next_action(0);
    assert!(matches!(first, Action::Scan { .. }));
    let (action, changed) = s.next_action(1);
    assert!(changed);
    assert_eq!(action, Action::Wait);
    s.finish_scan(0, &vec![child("f", ChildKind::File)], vec![]);
    let (action, _) = s.next_action(1);
    assert!(matches!(action, Action::Copy { .. }));
    let (action, _) = s.next_action(0);
    assert_eq!(action, Action::Wait);
    s.finish_copy(1, None);
    let (action, _) = s.next_action(1);
    assert_eq!(action, Action::Stop);
    let (action, changed) = s.next_action(0);
    assert!(!changed);
    assert_eq!(action, Action::Stop);
}

#[test]
fn no_stop_while_a_sibling_is_initializing() {
    let mut s = run_with(vec![], 2);
    let (action, _) = s.next_action(0);
    assert_eq!(action, Action::Wait);
    let (action, _) = s.next_action(1);
    assert_eq!(action, Action::Stop);
}

#[test]
fn failed_copy_is_counted_and_recorded_once() {
    let mut s = run_with(vec![], 1);
    s.entries = vec![
        Entry::File(p("/a"), p("/a/ok")),
        Entry::File(p("/a"), p("/a/denied")),
    ];
    let (action, _) = s.next_action(0);
    assert_eq!(action, Action::Copy { file: p("/a/denied"), dest: p("/x/denied") });
    s.finish_copy(0, Some("permission denied".to_string()));
    let (action, _) = s.next_action(0);
    assert_eq!(action, Action::Copy { file: p("/a/ok"), dest: p("/x/ok") });
    s.finish_copy(0, None);
    assert_eq!(s.totals(), (2, 0));
    assert_eq!(s.errors, vec!["permission denied".to_string()]);
    assert_eq!(s.next_action(0).0, Action::Stop);
}

#[test]
fn scan_failures_are_recorded() {
    let mut s = run_with(vec![Entry::Dir(p("/a"), p("/a/b"))], 1);
    s.next_action(0);
    s.finish_scan(0, &vec![], vec!["e1".to_string(), "e2".to_string()]);
    assert_eq!(s.errors, vec!["e1".to_string(), "e2".to_string()]);
    assert_eq!(s.totals(), (1, 0));
}

#[test]
fn send_to_error_appends() {
    let mut s = run_with(vec![], 0);
    send_to_error(&mut s, "boom".to_string());
    assert_eq!(s.errors, vec!["boom".to_string()]);
}

#[test]
fn update_task_reports_change() {
    let mut s = run_with(vec![], 1);
    assert!(s.update_task(0, Task::Idle, FsPath::new()));
    assert!(!s.update_task(0, Task::Idle, FsPath::new()));
    assert!(s.update_task(0, Task::Copying(p("/a/f")), p("/a")));
    assert!(!s.update_task(0, Task::Copying(p("/a/f")), p("/a")));
    assert!(s.update_task(0, Task::Copying(p("/a/g")), p("/a")));
}

#[test]
fn task_and_entry_copies_are_equal() {
    let t = Task::Scanning(p("/a/b"));
    assert_eq!(t.clone_task(), t);
    assert!(t.same_task(&t.clone_task()));
    assert!(!t.same_task(&Task::Copying(p("/a/b"))));
    let e = Entry::File(p("/a"), p("/a/b"));
    assert_eq!(e.clone_entry(), e);
    assert!(e.resolvable());
    assert!(!Entry::File(p("/a"), p("/b")).resolvable());
}

#[test]
fn full_tree_lands_at_resolved_destinations() {
    let mut s = run_with(initial_entries(&vec![source("/a/b", SourceKind::Dir)], false).unwrap(), 1);
    let mut created: Vec<FsPath> = Vec::new();
    let mut copied: Vec<FsPath> = Vec::new();
    loop {
        match s.next_action(0).0 {
            Action::Scan { dir, dest } => {
                created.push(dest);
                let listing = if dir == p("/a/b") {
                    vec![child("c", ChildKind::Dir), child("top.txt", ChildKind::File)]
                } else if dir == p("/a/b/c") {
                    vec![child("d.txt", ChildKind::File)]
                } else {
                    vec![]
                };
                s.finish_scan(0, &listing, vec![]);
            }
            Action::Copy { dest, .. } => {
                copied.push(dest);
                s.finish_copy(0, None);
            }
            Action::Wait => panic!("a lone worker never waits"),
            Action::Stop => break,
        }
    }
    assert_eq!(created, vec![p("/x/b"), p("/x/b/c")]);
    assert_eq!(copied, vec![p("/x/b/c/d.txt"), p("/x/b/top.txt")]);
    assert_eq!(s.totals(), (4, 0));
}

#[test]
fn thread_count_uses_request_or_cpus() {
    assert_eq!(thread_count(Some(3)), 3);
    assert_eq!(thread_count(Some(100_000)), u16::MAX);
    assert!(thread_count(None) >= 1);
    assert!(thread_count(Some(0)) >= 1);
}

fn plan_destinations(source_path: &str) -> (Vec<FsPath>, Vec<FsPath>) {
    let mut s = run_with(initial_entries(&vec![source(source_path, SourceKind::Dir)], false).unwrap(), 1);
    let mut created: Vec<FsPath> = Vec::new();
    let mut copied: Vec<FsPath> = Vec::new();
    loop {
        match s.next_action(0).0 {
            Action::Scan { dest, .. } => {
                created.push(dest);
                s.finish_scan(0, &vec![child("f", ChildKind::File)], vec![]);
                let (_, remaining) = s.totals();
                assert_eq!(remaining, 1);
            }
            Action::Copy { dest, .. } => {
                copied.push(dest);
                s.finish_copy(0, None);
            }
            Action::Wait => panic!("a lone worker never waits"),
            Action::Stop => break,
        }
    }
    (created, copied)
}

#[test]
fn second_run_plans_same_destinations() {
    let first = plan_destinations("/a/b");
    let second = plan_destinations("/a/b");
    assert_eq!(first, second);
    assert_eq!(first, (vec![p("/x/b")], vec![p("/x/b/f")]));
    assert_eq!(plan_destinations("/a/b/"), (vec![p("/x")], vec![p("/x/f")]));
}

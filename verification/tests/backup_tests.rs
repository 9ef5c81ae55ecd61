use lodestone_cli::backup::begin_restore;
use lodestone_cli::backup::continue_restore;
use lodestone_cli::backup::copy_dir;
use lodestone_cli::backup::is_exe_file;
use lodestone_cli::backup::load_backup;
use lodestone_cli::backup::recover_backup;
use lodestone_cli::backup::CopyStep;
use lodestone_cli::backup::DirEntry;
use lodestone_cli::backup::EntryKind;
use lodestone_cli::backup::RestoreAction;
use lodestone_cli::backup::RestorePlan;
use lodestone_cli::backup::RestoreState;
use lodestone_cli::error::UpdateError;
use std::collections::BTreeMap;

fn file(name: &str) -> DirEntry {
    let extension = match name.rfind('.') {
        Some(0) | None => None,
        Some(i) => Some(name[i + 1..].to_string()),
    };
    DirEntry { name: name.to_string(), extension, kind: EntryKind::File }
}

fn dir(name: &str, entries: Vec<DirEntry>) -> DirEntry {
    let extension = match name.rfind('.') {
        Some(0) | None => None,
        Some(i) => Some(name[i + 1..].to_string()),
    };
    DirEntry { name: name.to_string(), extension, kind: EntryKind::Directory(entries) }
}

fn other(name: &str) -> DirEntry {
    DirEntry { name: name.to_string(), extension: None, kind: EntryKind::Other }
}

fn show(steps: &[CopyStep]) -> Vec<String> {
    steps
        .iter()
        .map(|s| match s {
            CopyStep::CreateDir(p) => format!("dir /{}", p.join("/")),
            CopyStep::CopyFile(p) => format!("file /{}", p.join("/")),
        })
        .collect()
}

fn sample() -> Vec<DirEntry> {
    vec![
        file("config.json"),
        file("lodestone_core_windows_x86_64_1.2.0.exe"),
        file("lodestone_core_linux_x86_64_1.2.0"),
        dir("lodestone_core_macos_aarch_1.0.0", vec![file("notes.txt")]),
        dir(".core_backup", vec![file("config.json"), dir("data", vec![file("old.txt")])]),
        dir("data", vec![file("a.txt"), file("tool.exe"), dir("nested", vec![]), dir(".core_backup", vec![file("x")])]),
        other("socket"),
        dir("plugins.exe", vec![file("p.bin")]),
        file(".lodestone_cli_metadata.json"),
    ]
}

#[test]
fn copy_dir_lists_its_steps_in_order() {
    assert_eq!(
        show(&copy_dir(&sample())),
        vec![
            "dir /",
            "file /config.json",
            "dir /lodestone_core_macos_aarch_1.0.0",
            "file /lodestone_core_macos_aarch_1.0.0/notes.txt",
            "dir /data",
            "file /data/a.txt",
            "dir /data/nested",
            "file /socket",
            "dir /plugins.exe",
            "file /plugins.exe/p.bin",
            "file /.lodestone_cli_metadata.json",
        ]
    );
}

#[test]
fn copy_dir_of_an_empty_directory_creates_the_destination() {
    assert_eq!(show(&copy_dir(&vec![])), vec!["dir /"]);
}

#[test]
fn executables_and_snapshots_are_left_out() {
    let steps = show(&copy_dir(&sample()));
    for s in &steps {
        assert!(!s.contains(".core_backup"));
        assert!(!s.ends_with("tool.exe"));
        assert!(!s.ends_with("1.2.0.exe"));
        assert!(!s.ends_with("lodestone_core_linux_x86_64_1.2.0"));
    }
}

#[test]
fn is_exe_file_takes_a_regular_file_with_the_extension() {
    assert!(is_exe_file(&file("core.exe")));
    assert!(!is_exe_file(&file("core.EXE")));
    assert!(!is_exe_file(&file("core.exe.txt")));
    assert!(!is_exe_file(&file("exe")));
    assert!(!is_exe_file(&file(".exe")));
    assert!(!is_exe_file(&dir("core.exe", vec![])));
    assert!(is_exe_file(&file("lodestone_core_linux_x86_64_1.3.0")));
    assert!(is_exe_file(&file("lodestone_core_linux_aarch_1.3.0-rc.1")));
    assert!(is_exe_file(&file("lodestone_core_macos_aarch_0.4.2")));
    assert!(is_exe_file(&file("lodestone_core_windows_x86_64_0.4.2.exe")));
    assert!(!is_exe_file(&file("lodestone_core_linux_x86_64")));
    assert!(!is_exe_file(&file("lodestone_core.json")));
    assert!(!is_exe_file(&dir("lodestone_core_linux_x86_64_1.3.0", vec![])));
    assert!(!is_exe_file(&other("lodestone_core_linux_x86_64_1.3.0")));
    assert!(!is_exe_file(&DirEntry {
        name: "core.exe".to_string(),
        extension: Some("exe".to_string()),
        kind: EntryKind::Other
    }));
}

#[test]
fn restore_without_a_snapshot_does_nothing() {
    let plan = load_backup(None);
    assert!(plan.steps.is_empty());
    assert!(!plan.remove_backup);
    let plan = recover_backup(&vec![file("config.json"), dir("data", vec![])]).unwrap();
    assert!(plan.steps.is_empty());
    assert!(!plan.remove_backup);
    let plan = recover_backup(&vec![]).unwrap();
    assert!(plan.steps.is_empty());
    assert!(!plan.remove_backup);
}

#[test]
fn restore_copies_the_snapshot_back_and_removes_it() {
    let snapshot = vec![file("config.json"), dir("data", vec![file("a.txt")])];
    let plan = load_backup(Some(&snapshot));
    assert_eq!(show(&plan.steps), vec!["dir /", "file /config.json", "dir /data", "file /data/a.txt"]);
    assert!(plan.remove_backup);
}

#[test]
fn recover_backup_finds_the_snapshot_in_the_install_directory() {
    let plan = recover_backup(&sample()).unwrap();
    assert_eq!(show(&plan.steps), vec!["dir /", "file /config.json", "dir /data", "file /data/old.txt"]);
    assert!(plan.remove_backup);
}

#[test]
fn recover_backup_fails_on_a_snapshot_that_is_no_directory() {
    let listing = vec![file("config.json"), file(".core_backup")];
    assert_eq!(recover_backup(&listing).unwrap_err(), UpdateError::RestoreFailed);
    let listing = vec![other(".core_backup"), dir(".core_backup", vec![])];
    assert_eq!(recover_backup(&listing).unwrap_err(), UpdateError::RestoreFailed);
}

#[test]
fn snapshot_then_restore_leaves_the_directory_as_it_was() {
    let listing = sample();
    let mut directory: BTreeMap<String, String> = BTreeMap::new();
    for (path, content) in [
        ("config.json", "{}"),
        ("lodestone_core_windows_x86_64_1.2.0.exe", "MZ"),
        ("lodestone_core_linux_x86_64_1.2.0", "ELF"),
        ("lodestone_core_macos_aarch_1.0.0/notes.txt", "n"),
        ("data/a.txt", "a"),
        ("data/tool.exe", "MZ2"),
        ("socket", ""),
        ("plugins.exe/p.bin", "p"),
        (".lodestone_cli_metadata.json", "record"),
    ] {
        directory.insert(path.to_string(), content.to_string());
    }
    let mut backup: BTreeMap<String, String> = BTreeMap::new();
    for step in copy_dir(&listing) {
        if let CopyStep::CopyFile(p) = step {
            let key = p.join("/");
            backup.insert(key.clone(), directory[&key].clone());
        }
    }
    assert_eq!(
        backup.keys().cloned().collect::<Vec<_>>(),
        vec![
            ".lodestone_cli_metadata.json",
            "config.json",
            "data/a.txt",
            "lodestone_core_macos_aarch_1.0.0/notes.txt",
            "plugins.exe/p.bin",
            "socket"
        ]
    );
    let backup_listing = vec![
        file(".lodestone_cli_metadata.json"),
        file("config.json"),
        dir("data", vec![file("a.txt"), dir("nested", vec![])]),
        dir("lodestone_core_macos_aarch_1.0.0", vec![file("notes.txt")]),
        dir("plugins.exe", vec![file("p.bin")]),
        other("socket"),
    ];
    let mut damaged = directory.clone();
    damaged.insert("config.json".to_string(), "broken".to_string());
    damaged.remove("data/a.txt");
    damaged.insert("lodestone_core_windows_x86_64_1.3.0.exe".to_string(), "part".to_string());
    let plan = load_backup(Some(&backup_listing));
    assert!(plan.remove_backup);
    let mut restored = directory.clone();
    for step in &plan.steps {
        if let CopyStep::CopyFile(p) = step {
            let key = p.join("/");
            restored.insert(key.clone(), backup[&key].clone());
            damaged.insert(key.clone(), backup[&key].clone());
        }
    }
    assert_eq!(restored, directory);
    for (path, content) in &backup {
        assert_eq!(&damaged[path], content);
        assert_eq!(&damaged[path], &directory[path]);
    }
}

fn carry_out(plan: &RestorePlan, results: &[bool]) -> (RestoreState, Vec<RestoreAction>) {
    let (mut state, first) = begin_restore(plan);
    let mut actions = vec![first];
    for ok in results {
        let (next, action) = continue_restore(plan, state, *ok);
        actions.push(action);
        state = next;
    }
    (state, actions)
}

#[test]
fn the_snapshot_is_removed_after_the_last_copy_succeeded() {
    let snapshot = vec![file("config.json"), dir("data", vec![file("a.txt")])];
    let plan = load_backup(Some(&snapshot));
    assert_eq!(plan.steps.len(), 4);
    let (state, actions) = carry_out(&plan, &[true, true, true, true, true]);
    assert_eq!(
        actions,
        vec![
            RestoreAction::CarryOut(0),
            RestoreAction::CarryOut(1),
            RestoreAction::CarryOut(2),
            RestoreAction::CarryOut(3),
            RestoreAction::RemoveSnapshot,
            RestoreAction::Finished,
        ]
    );
    assert_eq!(state, RestoreState::Done);
}

#[test]
fn a_failed_copy_ends_the_restore_and_leaves_the_snapshot() {
    let snapshot = vec![file("config.json"), dir("data", vec![file("a.txt")])];
    let plan = load_backup(Some(&snapshot));
    for failing in 0..4 {
        let mut results = vec![true; failing];
        results.push(false);
        results.extend([true, true, true]);
        let (state, actions) = carry_out(&plan, &results);
        assert_eq!(actions[failing + 1], RestoreAction::Failed(UpdateError::RestoreFailed));
        assert!(!actions.contains(&RestoreAction::RemoveSnapshot));
        assert!(!actions.contains(&RestoreAction::Finished));
        assert_eq!(actions[failing + 2], RestoreAction::Unexpected);
        assert_eq!(state, RestoreState::Done);
    }
    let (_, actions) = carry_out(&plan, &[true, true, true, true, false]);
    assert_eq!(actions[4], RestoreAction::RemoveSnapshot);
    assert_eq!(actions[5], RestoreAction::Failed(UpdateError::RestoreFailed));
}

#[test]
fn a_restore_without_a_snapshot_is_complete_at_once() {
    let plan = load_backup(None);
    let (state, first) = begin_restore(&plan);
    assert_eq!(first, RestoreAction::Finished);
    assert_eq!(state, RestoreState::Done);
    assert_eq!(continue_restore(&plan, state, true), (RestoreState::Done, RestoreAction::Unexpected));
    let snapshot = vec![file("a")];
    let plan = load_backup(Some(&snapshot));
    assert_eq!(
        continue_restore(&plan, RestoreState::Copying { step: 7 }, true),
        (RestoreState::Done, RestoreAction::Unexpected)
    );
}

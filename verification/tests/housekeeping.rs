//! What happens around a proof: cleanup, memory reports, the order of steps, the memory mode.

use prover_ffi::cleanup::{
    cleanup_stale_tmp_files, cleanup_steps, report_dir_sizes, CleanupStep, Container,
    ContainerEntry,
};
use prover_ffi::memory_mode::{memory_mode_setting, MemoryModeGuard, ModeChange};
use prover_ffi::runtime::{
    build_runtime, log_memory_state, log_mmap_state, log_vm_state, prepare_prover_runtime,
    release_allocator_memory, with_prover_runtime, Moment, Platform, PressureRelief, RuntimeStep,
    SETTLE_SECONDS,
};
use prover_ffi::status::STATUS_RUNTIME_ERROR;
use prover_ffi::walk::{Walk, WalkAction, WalkEvent};

/// A file tree in memory.
enum Entry {
    File(Option<u64>),
    Dir(Vec<usize>),
    /// A link to the directory with this number.
    Link(usize),
    Closed,
    Socket,
}

fn linked(tree: &[Entry], id: usize) -> usize {
    match tree[id] {
        Entry::Link(target) => target,
        _ => id,
    }
}

/// Walks the tree of which entry 0 is the root and collects what the walk deletes.
fn drive(mut walk: Walk, tree: &[Entry]) -> (u64, Vec<WalkAction>) {
    let mut listings: Vec<Vec<usize>> = Vec::new();
    let mut removals = Vec::new();
    loop {
        let action = walk.action();
        let event = match action {
            WalkAction::Done => return (walk.total(), removals),
            WalkAction::Open(id) => match &tree[linked(tree, id)] {
                Entry::Dir(entries) => {
                    listings.push(entries.iter().rev().copied().collect());
                    WalkEvent::Opened
                }
                _ => WalkEvent::Unreadable,
            },
            WalkAction::Next(_) => match listings.last_mut().unwrap().pop() {
                None => {
                    listings.pop();
                    WalkEvent::End
                }
                Some(id) => match &tree[id] {
                    Entry::File(len) => WalkEvent::File { id, len: *len },
                    Entry::Dir(_) | Entry::Closed => WalkEvent::Dir { id },
                    Entry::Link(_) => WalkEvent::Link { id },
                    Entry::Socket => WalkEvent::Other,
                },
            },
            WalkAction::RemoveFile(_) | WalkAction::RemoveDir(_) => {
                removals.push(action);
                WalkEvent::Removed
            }
        };
        assert!(walk.admits(event));
        walk.step(event);
    }
}

fn sample_tree() -> Vec<Entry> {
    vec![
        Entry::Dir(vec![1, 2, 5, 6, 7]),
        Entry::File(Some(10)),
        Entry::Dir(vec![3, 4]),
        Entry::File(Some(200)),
        Entry::Dir(vec![]),
        Entry::Socket,
        Entry::File(None),
        Entry::Closed,
    ]
}

#[test]
fn removing_walk_deletes_depth_first_and_keeps_the_root() {
    let (total, removals) = drive(Walk::remove_dir_contents(0), &sample_tree());
    assert_eq!(total, 210);
    assert_eq!(
        removals,
        vec![
            WalkAction::RemoveFile(1),
            WalkAction::RemoveFile(3),
            WalkAction::RemoveDir(4),
            WalkAction::RemoveDir(2),
            WalkAction::RemoveFile(6),
            WalkAction::RemoveDir(7),
        ]
    );
}

#[test]
fn measuring_walk_adds_up_and_deletes_nothing() {
    assert_eq!(drive(Walk::dir_size(0), &sample_tree()), (210, vec![]));
}

#[test]
fn removing_walk_stays_inside_its_directory() {
    // entry 4 lies outside the root and holds a file; entry 2 links to it
    let tree = vec![
        Entry::Dir(vec![1, 2, 3]),
        Entry::File(Some(5)),
        Entry::Link(4),
        Entry::Dir(vec![6]),
        Entry::Dir(vec![5]),
        Entry::File(Some(700)),
        Entry::Link(0),
    ];
    let (total, removals) = drive(Walk::remove_dir_contents(0), &tree);
    assert_eq!(total, 5);
    assert_eq!(
        removals,
        vec![
            WalkAction::RemoveFile(1),
            WalkAction::RemoveDir(2),
            WalkAction::RemoveDir(6),
            WalkAction::RemoveDir(3),
        ]
    );
}

#[test]
fn measuring_walk_follows_links() {
    let tree = vec![
        Entry::Dir(vec![1, 2]),
        Entry::File(Some(5)),
        Entry::Link(3),
        Entry::Dir(vec![4]),
        Entry::File(Some(700)),
    ];
    assert_eq!(drive(Walk::dir_size(0), &tree), (705, vec![]));
    assert_eq!(drive(Walk::remove_dir_contents(0), &tree).0, 5);
}

#[test]
fn walks_agree_without_links() {
    let tree = sample_tree();
    let removed = drive(Walk::remove_dir_contents(0), &tree).0;
    assert_eq!(removed, drive(Walk::dir_size(0), &tree).0);
}

#[test]
fn links_are_opened_by_measuring_walks_only() {
    let mut walk = Walk::remove_dir_contents(0);
    walk.step(WalkEvent::Opened);
    walk.step(WalkEvent::Link { id: 9 });
    assert_eq!(walk.action(), WalkAction::RemoveDir(9));
    walk.step(WalkEvent::Removed);
    assert_eq!(walk.action(), WalkAction::Next(0));
    let mut walk = Walk::dir_size(0);
    walk.step(WalkEvent::Opened);
    walk.step(WalkEvent::Link { id: 9 });
    assert_eq!(walk.action(), WalkAction::Open(9));
}

#[test]
fn unreadable_root_counts_for_nothing() {
    assert_eq!(drive(Walk::remove_dir_contents(0), &[Entry::Closed]), (0, vec![]));
    assert_eq!(drive(Walk::dir_size(0), &[Entry::Closed]), (0, vec![]));
}

#[test]
fn walk_admits_only_answers_that_fit() {
    let mut walk = Walk::dir_size(3);
    assert_eq!(walk.action(), WalkAction::Open(3));
    assert!(!walk.admits(WalkEvent::End));
    assert!(!walk.admits(WalkEvent::Removed));
    walk.step(WalkEvent::Opened);
    assert_eq!(walk.action(), WalkAction::Next(3));
    walk.step(WalkEvent::File { id: 4, len: Some(u64::MAX - 1) });
    assert!(walk.admits(WalkEvent::File { id: 5, len: Some(1) }));
    assert!(!walk.admits(WalkEvent::File { id: 5, len: Some(2) }));
    assert!(walk.admits(WalkEvent::File { id: 5, len: None }));
    walk.step(WalkEvent::Other);
    walk.step(WalkEvent::End);
    assert_eq!(walk.action(), WalkAction::Done);
    assert!(!walk.admits(WalkEvent::Opened));
    assert_eq!(walk.total(), u64::MAX - 1);
}

#[test]
fn cleanup_is_reported_if_it_freed_bytes() {
    assert_eq!(cleanup_stale_tmp_files(0, "/tmp"), None);
    assert_eq!(
        cleanup_stale_tmp_files(1, "/tmp").unwrap(),
        "Cleaned 0.0 MB of stale temp files from /tmp"
    );
    assert_eq!(
        cleanup_stale_tmp_files(7_340_032, "/private/tmp").unwrap(),
        "Cleaned 7.0 MB of stale temp files from /private/tmp"
    );
}

#[test]
fn every_directory_is_reported() {
    let entry =
        |name: &str, size: Option<u64>| ContainerEntry { name: format!("{:?}", name), size };
    let lines = report_dir_sizes(&vec![
        entry("Documents", Some(3_145_728)),
        entry("a", Some(1_048_576)),
        entry("empty", Some(0)),
        entry("file.bin", None),
        entry("tmp", Some(2_621_440)),
    ]);
    assert_eq!(
        lines,
        vec![
            "Container dir \"Documents\": 3.0 MB",
            "Container dir \"a\": 1.0 MB",
            "Container dir \"empty\": 0.0 MB",
            "Container dir \"tmp\": 2.5 MB",
        ]
    );
    assert!(report_dir_sizes(&vec![]).is_empty());
}

#[test]
fn cleanup_empties_before_it_reports() {
    assert_eq!(
        cleanup_steps(true),
        vec![
            CleanupStep::EmptyTempDir,
            CleanupStep::ReportFreed,
            CleanupStep::ReportContainer(Container::ParentOfTempDir),
        ]
    );
    assert_eq!(
        cleanup_steps(false),
        vec![
            CleanupStep::EmptyTempDir,
            CleanupStep::ReportFreed,
            CleanupStep::ReportContainer(Container::TempDir),
        ]
    );
}

#[test]
fn preparation_ends_with_the_runtime() {
    assert_eq!(
        prepare_prover_runtime(),
        vec![
            RuntimeStep::InstallTracing,
            RuntimeStep::InstallOomHook,
            RuntimeStep::CleanTempFiles,
            RuntimeStep::ReleaseAllocator,
            RuntimeStep::LogMemory(Moment::BeforeProof),
            RuntimeStep::LogMmap(Moment::BeforeProof),
            RuntimeStep::LogVm(Moment::BeforeProof),
            RuntimeStep::SetMemoryMode,
            RuntimeStep::BuildRuntime,
        ]
    );
}

#[test]
fn proof_runs_once_and_teardown_follows() {
    let steps = with_prover_runtime(Ok(())).unwrap();
    assert_eq!(steps[0], RuntimeStep::BlockOn);
    assert_eq!(steps.iter().filter(|s| **s == RuntimeStep::BlockOn).count(), 1);
    let at = |step: RuntimeStep| steps.iter().position(|s| *s == step).unwrap();
    assert!(at(RuntimeStep::DropRuntime) < at(RuntimeStep::ReleaseAllocator));
    assert!(at(RuntimeStep::ReleaseAllocator) < at(RuntimeStep::Settle));
    assert_eq!(steps.len(), 14);
    assert_eq!(steps[13], RuntimeStep::LogVm(Moment::AfterSettle));
    assert_eq!(SETTLE_SECONDS, 1);
}

#[test]
fn failed_runtime_is_reported() {
    let rejection = with_prover_runtime(Err("no threads".to_owned())).unwrap_err();
    assert_eq!(rejection.status, STATUS_RUNTIME_ERROR);
    assert_eq!(rejection.log, "Failed to create tokio runtime: no threads");
    assert!(build_runtime(Ok(())).is_ok());
    assert_eq!(build_runtime(Err("x".to_owned())).unwrap_err().status, 1);
}

#[test]
fn only_apples_allocator_is_asked() {
    assert_eq!(
        release_allocator_memory(Platform::Apple),
        Some(PressureRelief { all_zones: true, goal: 0 })
    );
    assert_eq!(release_allocator_memory(Platform::Other), None);
}

#[test]
fn memory_lines_name_the_moment() {
    let line = |moment: Moment| {
        log_memory_state(Platform::Apple, moment.memory_label(), 3 * 1024 * 1024 * 1024).unwrap()
    };
    assert_eq!(line(Moment::BeforeProof), "MEMORY [before proof] available=3072 MB");
    assert_eq!(
        line(Moment::AfterBlockOn),
        "MEMORY [after block_on (before rt drop)] available=3072 MB"
    );
    assert_eq!(line(Moment::AfterRuntimeDrop), "MEMORY [after rt drop] available=3072 MB");
    assert_eq!(
        line(Moment::AfterPressureRelief),
        "MEMORY [after malloc_zone_pressure_relief] available=3072 MB"
    );
    assert_eq!(line(Moment::AfterSettle), "MEMORY [after 1s settle] available=3072 MB");
    assert_eq!(log_memory_state(Platform::Other, "x", 5), None);
    assert_eq!(log_memory_state(Platform::Apple, "x", 0).unwrap(), "MEMORY [x] available=0 MB");
}

#[test]
fn checkpoint_lines_name_the_moment() {
    let moments = [
        (Moment::BeforeProof, "ffi:before_proof"),
        (Moment::AfterBlockOn, "ffi:after_block_on"),
        (Moment::AfterRuntimeDrop, "ffi:after_rt_drop"),
        (Moment::AfterPressureRelief, "ffi:after_pressure_relief"),
        (Moment::AfterSettle, "ffi:after_1s_settle"),
    ];
    for (moment, name) in moments {
        let label = moment.checkpoint_label();
        assert_eq!(log_mmap_state(true, label).unwrap(), format!("MMAP_CHECKPOINT [{}]", name));
        assert_eq!(log_vm_state(true, label).unwrap(), format!("VM_CHECKPOINT [{}]", name));
        assert_eq!(log_mmap_state(false, label), None);
        assert_eq!(log_vm_state(false, label), None);
    }
}

#[test]
fn memory_mode_is_low_and_guards_restore() {
    assert_eq!(memory_mode_setting(), ("STWO_PROVER_MEMORY_MODE", "low_memory"));
    for before in [None, Some("low_memory")] {
        let mut variable = before;
        let apply = |change: ModeChange<&'static str>| match change {
            ModeChange::Assign(value) => Some(value),
            ModeChange::Unset => None,
        };
        let (guard, change) = MemoryModeGuard::set_memory_mode(variable, "fast");
        variable = apply(change);
        assert_eq!(variable, Some("fast"));
        variable = apply(guard.restore());
        assert_eq!(variable, before);
    }
}

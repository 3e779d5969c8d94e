use betternex::course::{Course, TrainexFile};
use betternex::guard::ProcessGuard;
use betternex::state::{SharedState, PROGRESS_DONE};
use betternex::sync::{apply_step, progress_fraction_bp, sync_archive, SyncStep};

fn file(id: u64, name: &str) -> TrainexFile {
    TrainexFile { id, name: name.to_string() }
}

fn leaf(id: u64, name: &str, files: Vec<TrainexFile>) -> Course {
    Course { id, name: name.to_string(), files, children: Vec::new() }
}

fn published(steps: &[SyncStep]) -> Vec<u32> {
    let mut values = Vec::new();
    for step in steps {
        if let SyncStep::Publish(v) = step {
            values.push(*v);
        }
    }
    values
}

fn saved_ids(steps: &[SyncStep]) -> Vec<Vec<u64>> {
    let mut batches = Vec::new();
    for step in steps {
        if let SyncStep::Save(files) = step {
            batches.push(files.iter().map(|f| f.id).collect());
        }
    }
    batches
}

#[test]
fn traversal_children_before_own_files() {
    // [A(children=[A1, A2], files=[Af1])] must download in the order
    // A1.files, A2.files, Af1.
    let a1 = leaf(11, "A1", vec![file(111, "a1-f1"), file(112, "a1-f2")]);
    let a2 = leaf(12, "A2", vec![file(121, "a2-f1")]);
    let a = Course {
        id: 1,
        name: "A".to_string(),
        files: vec![file(101, "Af1")],
        children: vec![a1, a2],
    };
    let (steps, _) = sync_archive(&vec![a], "/dest".to_string());
    assert_eq!(
        saved_ids(&steps),
        vec![vec![111, 112], vec![121], vec![101]]
    );
}

#[test]
fn traversal_courses_in_listed_order() {
    let c1 = leaf(1, "first", vec![file(10, "f10")]);
    let c2 = leaf(2, "second", vec![file(20, "f20")]);
    let (steps, _) = sync_archive(&vec![c1, c2], "/dest".to_string());
    assert_eq!(saved_ids(&steps), vec![vec![10], vec![20]]);
}

#[test]
fn destination_path_is_echoed() {
    let (_, path) = sync_archive(&Vec::new(), "/my/archive".to_string());
    assert_eq!(path, "/my/archive");
}

#[test]
fn four_courses_progress_sequence() {
    // With n = 4 the per-course values are {0, 25, 50, 75} percent, and
    // completion additionally publishes exactly 100 percent.
    let archive: Vec<Course> = (0u64..4).map(|i| leaf(i, "c", Vec::new())).collect();
    let (steps, _) = sync_archive(&archive, "/dest".to_string());
    assert_eq!(published(&steps), vec![0, 2500, 5000, 7500, PROGRESS_DONE]);
}

#[test]
fn empty_archive_still_completes_at_100_percent() {
    let (steps, _) = sync_archive(&Vec::new(), "/dest".to_string());
    assert_eq!(published(&steps), vec![PROGRESS_DONE]);
}

#[test]
fn three_courses_progress_is_exact_thirds() {
    let archive: Vec<Course> = (0u64..3).map(|i| leaf(i, "c", Vec::new())).collect();
    let (steps, _) = sync_archive(&archive, "/dest".to_string());
    assert_eq!(published(&steps), vec![0, 3333, 6666, PROGRESS_DONE]);
}

#[test]
fn progress_fraction_exact_values() {
    assert_eq!(progress_fraction_bp(0, 4), 0);
    assert_eq!(progress_fraction_bp(1, 4), 2500);
    assert_eq!(progress_fraction_bp(1, 3), 3333);
    assert_eq!(progress_fraction_bp(99, 100), 9900);
}

#[test]
fn polled_progress_never_decreases_during_a_run() {
    // Drive a full run step by step and poll the shared counter after each
    // step, exactly as a UI poller would between schedule steps.
    let child = leaf(21, "child", vec![file(211, "cf")]);
    let parent = Course {
        id: 2,
        name: "parent".to_string(),
        files: vec![file(201, "pf")],
        children: vec![child],
    };
    let archive = vec![
        leaf(1, "plain", vec![file(11, "f")]),
        parent,
        leaf(3, "tail", Vec::new()),
    ];
    let (steps, _) = sync_archive(&archive, "/dest".to_string());
    let mut state = SharedState::new(ProcessGuard::acquire());
    let mut last = state.get_sync_process();
    for step in &steps {
        apply_step(&mut state, step);
        let now = state.get_sync_process();
        assert!(now >= last, "progress moved backwards: {} then {}", last, now);
        last = now;
    }
    assert_eq!(state.get_sync_process(), PROGRESS_DONE);
}

#[test]
fn apply_step_hands_save_batches_back() {
    let batch = vec![file(1, "a"), file(2, "b")];
    let step = SyncStep::Save(batch.clone());
    let mut state = SharedState::new(ProcessGuard::acquire());
    state.set_progress(1234);
    let out = apply_step(&mut state, &step);
    assert_eq!(out, Some(&batch));
    assert_eq!(state.get_sync_process(), 1234);
}

#[test]
fn second_sync_in_flight_is_rejected() {
    let mut state = SharedState::new(ProcessGuard::acquire());
    assert!(state.begin_sync());
    assert!(!state.begin_sync());
    state.end_sync();
    assert!(state.begin_sync());
}

#[test]
fn sync_slot_leaves_progress_alone() {
    let mut state = SharedState::new(ProcessGuard::acquire());
    state.set_progress(5000);
    state.begin_sync();
    assert_eq!(state.get_sync_process(), 5000);
    state.end_sync();
    assert_eq!(state.get_sync_process(), 5000);
}

#[test]
fn apply_publish_updates_counter_and_saves_nothing() {
    let step = SyncStep::Publish(7500);
    let mut state = SharedState::new(ProcessGuard::acquire());
    let out = apply_step(&mut state, &step);
    assert_eq!(out, None);
    assert_eq!(state.get_sync_process(), 7500);
}

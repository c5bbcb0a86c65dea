use task_tracker::task::TaskStatus;

#[test]
fn edges_of_the_machine() {
    assert!(TaskStatus::Pending.is_edge(TaskStatus::Running));
    assert!(TaskStatus::Running.is_edge(TaskStatus::Completed));
    assert!(TaskStatus::Running.is_edge(TaskStatus::Failed));
    assert!(TaskStatus::Pending.is_edge(TaskStatus::Stopped));
    assert!(TaskStatus::Running.is_edge(TaskStatus::Stopped));
}

#[test]
fn no_edge_leaves_a_terminal_status() {
    let terminal = [
        TaskStatus::Stopped,
        TaskStatus::Cancelled,
        TaskStatus::Completed,
        TaskStatus::Failed,
    ];
    let all = [
        TaskStatus::Pending,
        TaskStatus::Running,
        TaskStatus::Stopped,
        TaskStatus::Cancelled,
        TaskStatus::Completed,
        TaskStatus::Failed,
    ];
    for from in terminal {
        for to in all {
            assert!(!from.is_edge(to));
        }
    }
}

#[test]
fn non_edges_between_live_statuses() {
    assert!(!TaskStatus::Pending.is_edge(TaskStatus::Completed));
    assert!(!TaskStatus::Pending.is_edge(TaskStatus::Failed));
    assert!(!TaskStatus::Pending.is_edge(TaskStatus::Cancelled));
    assert!(!TaskStatus::Running.is_edge(TaskStatus::Pending));
    assert!(!TaskStatus::Running.is_edge(TaskStatus::Cancelled));
    assert!(!TaskStatus::Pending.is_edge(TaskStatus::Pending));
    assert!(!TaskStatus::Running.is_edge(TaskStatus::Running));
}

#[test]
fn status_names_round_trip() {
    let all = [
        TaskStatus::Pending,
        TaskStatus::Running,
        TaskStatus::Stopped,
        TaskStatus::Cancelled,
        TaskStatus::Completed,
        TaskStatus::Failed,
    ];
    for st in all {
        let text = st.name().to_string();
        assert_eq!(TaskStatus::from_name(&text), Some(st));
    }
    assert_eq!(TaskStatus::Pending.name(), "Pending");
    assert_eq!(TaskStatus::Running.name(), "Running");
    assert_eq!(TaskStatus::Stopped.name(), "Stopped");
    assert_eq!(TaskStatus::Cancelled.name(), "Cancelled");
    assert_eq!(TaskStatus::Completed.name(), "Completed");
    assert_eq!(TaskStatus::Failed.name(), "Failed");
}

#[test]
fn unknown_status_name_is_rejected() {
    assert_eq!(TaskStatus::from_name(&String::from("pending")), None);
    assert_eq!(TaskStatus::from_name(&String::from("")), None);
    assert_eq!(TaskStatus::from_name(&String::from("Done")), None);
}

use lab_task::monitor::{unit_object_path, UnitInterfaceInfoVec};

#[test]
fn object_path_of_unit() {
    assert_eq!(unit_object_path("sshd_2eservice"), "/org/freedesktop/systemd1/unit/sshd_2eservice");
}

fn sample() -> UnitInterfaceInfoVec {
    let mut tasks = UnitInterfaceInfoVec::new();
    assert!(tasks.add_unit("chen-lab-task.a@1.service".to_string(), "active".to_string()));
    assert!(!tasks.add_unit("sshd.service".to_string(), "failed".to_string()));
    assert!(tasks.add_unit("chen-lab-task.b@2.service".to_string(), "failed".to_string()));
    assert!(tasks.add_unit("chen-lab-task.c@3.service".to_string(), "inactive".to_string()));
    assert!(tasks.add_unit("chen-lab-task.d@4.service".to_string(), "failed".to_string()));
    tasks
}

#[test]
fn empty_list() {
    let tasks = UnitInterfaceInfoVec::new();
    assert!(tasks.is_empty());
    assert_eq!(tasks.len(), 0);
    assert!(tasks.ids().is_empty());
    assert!(UnitInterfaceInfoVec::default().is_empty());
}

#[test]
fn keeps_only_task_units_in_order() {
    let tasks = sample();
    assert!(!tasks.is_empty());
    assert_eq!(tasks.len(), 4);
    assert_eq!(
        tasks.ids(),
        vec![
            "chen-lab-task.a@1.service",
            "chen-lab-task.b@2.service",
            "chen-lab-task.c@3.service",
            "chen-lab-task.d@4.service"
        ]
    );
    let second = tasks.index(1);
    assert_eq!(second.info.task, "b");
    assert_eq!(second.info.time, "2");
    assert_eq!(second.active_state, "failed");
    let tasks_in_order: Vec<&str> = tasks.iter().iter().map(|t| t.info.task.as_str()).collect();
    assert_eq!(tasks_in_order, vec!["a", "b", "c", "d"]);
}

#[test]
fn failed_tasks_are_found() {
    let tasks = sample();
    assert!(!tasks.index(0).is_failed());
    assert!(tasks.index(1).is_failed());
    assert_eq!(tasks.failed_tasks(), vec![1, 3]);
}

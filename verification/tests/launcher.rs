use std::sync::atomic::AtomicU64;

use lab_task::common::get_task_information;
use lab_task::task::{
    experiment_description, join_words, launch_request, shell_command, ExecCommand, Id, Mode,
    Properties, PropertyValue,
};

fn words(ws: &[&str]) -> Vec<String> {
    ws.iter().map(|w| w.to_string()).collect()
}

#[test]
fn joins_words_with_spaces() {
    assert_eq!(join_words(&words(&[])), "");
    assert_eq!(join_words(&words(&["echo"])), "echo");
    assert_eq!(join_words(&words(&["echo", "a", "b"])), "echo a b");
}

#[test]
fn shell_command_without_log() {
    let args = shell_command(words(&["/usr/bin/python3", "train.py", "--lr", "0.1"]), None);
    assert_eq!(args, words(&["/bin/sh", "-c", "/usr/bin/python3 train.py --lr 0.1"]));
}

#[test]
fn shell_command_redirects_into_log() {
    let args = shell_command(words(&["/bin/echo", "hi"]), Some("out.log".to_string()));
    assert_eq!(args, words(&["/bin/sh", "-c", "/bin/echo hi > out.log"]));
}

#[test]
fn description_names_the_task() {
    assert_eq!(experiment_description("sleep"), "lab experiment, task: sleep");
}

#[test]
fn launch_request_fields() {
    let req = launch_request(
        "sleep",
        words(&["/bin/sleep", "10"]),
        "lab experiment, task: sleep",
        Some("log.txt".to_string()),
        "/home/lab".to_string(),
    );
    assert!(matches!(req.mode, Mode::Replace));
    assert_eq!(get_task_information(&req.service).unwrap().task, "sleep");
    let p = &req.properties;
    assert_eq!(p.description, "lab experiment, task: sleep");
    assert_eq!(p.exec_start.len(), 1);
    assert_eq!(p.exec_start[0].path, "/bin/sh");
    assert_eq!(p.exec_start[0].args, words(&["/bin/sh", "-c", "/bin/sleep 10 > log.txt"]));
    assert!(!p.exec_start[0].unclean);
    assert!(p.environment.is_empty());
    assert_eq!(p.working_directory.as_deref(), Some("/home/lab"));
}

fn names(props: &[(String, PropertyValue)]) -> Vec<&str> {
    props.iter().map(|(n, _)| n.as_str()).collect()
}

#[test]
fn all_unit_properties_in_order() {
    let props = Properties {
        description: "d".to_string(),
        exec_start: vec![ExecCommand { path: "/bin/sh".to_string(), args: words(&["/bin/sh"]), unclean: false }],
        environment: words(&["A=1"]),
        working_directory: Some("/w".to_string()),
    }
    .unit_properties();
    assert_eq!(names(&props), vec!["Description", "ExecStart", "Environment", "WorkingDirectory"]);
    assert!(matches!(&props[0].1, PropertyValue::Text(d) if d == "d"));
    assert!(matches!(&props[1].1, PropertyValue::Commands(c) if c.len() == 1 && c[0].path == "/bin/sh"));
    assert!(matches!(&props[2].1, PropertyValue::TextList(e) if e == &words(&["A=1"])));
    assert!(matches!(&props[3].1, PropertyValue::Text(w) if w == "/w"));
}

#[test]
fn unit_properties_skip_empty_command_and_directory() {
    let props = Properties {
        description: "d".to_string(),
        exec_start: vec![],
        environment: vec![],
        working_directory: None,
    }
    .unit_properties();
    assert_eq!(names(&props), vec!["Description", "Environment"]);
}

#[test]
fn unique_ids_differ() {
    let count = AtomicU64::new(0);
    let a = Id::unique(&count);
    let b = Id::unique(&count);
    assert_ne!(a, b);
    assert!(a < b);
}

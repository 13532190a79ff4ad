use lab_task::common::{gen_task, get_task_information, task_service_name, TASK_PREFIX};

#[test]
fn it_works() {
    let time = chrono::Local::now().format("%Y-%m-%d_%H:%M:%S").to_string();
    let task = format!("{TASK_PREFIX}.sleep@{time}.service");
    let info = get_task_information(&task).unwrap();
    assert_eq!("sleep", &info.task);
}

#[test]
fn reads_task_and_time() {
    let info = get_task_information("chen-lab-task.sleep@2024-05-01_10:20:30.service").unwrap();
    assert_eq!(info.task, "sleep");
    assert_eq!(info.time, "2024-05-01_10:20:30");
}

#[test]
fn reads_name_anywhere_in_the_id() {
    let info = get_task_information("unit chen-lab-task.train_v2@+12024-01-01_00:00:00.service tail").unwrap();
    assert_eq!(info.task, "train_v2");
    assert_eq!(info.time, "+12024-01-01_00:00:00");
}

#[test]
fn dots_match_any_character_but_line_feed() {
    let info = get_task_information("chen-lab-taskXa-b@t1Yservice").unwrap();
    assert_eq!(info.task, "a-b");
    assert_eq!(info.time, "t1");
    assert!(get_task_information("chen-lab-task\na@t.service").is_none());
    assert!(get_task_information("chen-lab-task.a@t\nservice").is_none());
}

#[test]
fn start_time_is_greedy() {
    let info = get_task_information("chen-lab-task.a@t1xservice.service").unwrap();
    assert_eq!(info.time, "t1xservice");
    let info = get_task_information("chen-lab-task.a@txservicey").unwrap();
    assert_eq!(info.time, "t");
}

#[test]
fn first_of_two_names_is_read() {
    let info = get_task_information("chen-lab-task.one@1.service chen-lab-task.two@2.service").unwrap();
    assert_eq!(info.task, "one");
    assert_eq!(info.time, "1");
}

#[test]
fn later_name_read_when_first_is_broken() {
    let info = get_task_information("chen-lab-task.b@d@x chen-lab-task.ok@9.service").unwrap();
    assert_eq!(info.task, "ok");
    assert_eq!(info.time, "9");
}

#[test]
fn rejects_ids_without_a_task_name() {
    assert!(get_task_information("").is_none());
    assert!(get_task_information("sshd.service").is_none());
    assert!(get_task_information("chen-lab-task.@2024.service").is_none());
    assert!(get_task_information("chen-lab-task.a@.service").is_none());
    assert!(get_task_information("chen-lab-task.a.b@2024.service").is_none());
    assert!(get_task_information("chen-lab-task.a@2024.servic").is_none());
    assert!(get_task_information("chen-lab-task.a@2024").is_none());
}

#[test]
fn unicode_decimal_digits_belong_to_names() {
    let info = get_task_information("chen-lab-task.run\u{0663}@\u{0665}.service").unwrap();
    assert_eq!(info.task, "run\u{0663}");
    assert_eq!(info.time, "\u{0665}");
    // A vulgar fraction is numeric but not a decimal digit.
    assert!(get_task_information("chen-lab-task.run\u{00BD}@1.service").is_none());
}

#[test]
fn service_name_is_formatted() {
    assert_eq!(
        task_service_name("sleep", "2024-05-01_10:20:30"),
        "chen-lab-task.sleep@2024-05-01_10:20:30.service"
    );
}

#[test]
fn generated_name_reads_back() {
    let name = gen_task("sleep");
    assert!(name.starts_with("chen-lab-task.sleep@"));
    assert!(name.ends_with(".service"));
    let info = get_task_information(&name).unwrap();
    assert_eq!(info.task, "sleep");
    assert_eq!(name, task_service_name("sleep", &info.time));
    assert_eq!(info.time.len(), 19);
}

#[test]
fn generated_name_with_foreign_characters_does_not_read_back() {
    let name = gen_task("a.b");
    assert!(get_task_information(&name).is_none());
}

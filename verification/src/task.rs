use std::sync::atomic::AtomicU64;
use vstd::prelude::*;

use crate::common::{gen_task, service_name, timestamp_text, task_information, valid_task_name};

verus! {

/// The launcher's command line: the task's name, an optional log file that
/// takes the command's output, and the command with its arguments.
pub struct Cli {
    pub task: String,
    pub log_file: Option<String>,
    pub commands: Vec<String>,
}

/// A number that tells apart the things a process numbers, drawn from a
/// counter that the process shares.
#[derive(Debug, Clone, Copy, PartialEq, Eq, Structural, Hash, PartialOrd, Ord)]
pub struct Id(u64);

impl Id {
    /// Creates a new [`Id`], numbered by the shared `count`.
    /// What number comes out depends on every other thread that counts, so
    /// nothing is promised of it here.
    pub fn unique(count: &AtomicU64) -> Id {
        Id(count.fetch_add(1, std::sync::atomic::Ordering::Relaxed))
    }
}

/// How systemd queues the start of a unit when other jobs conflict with it.
#[derive(Debug, Clone, Copy)]
pub enum Mode {
    Replace,
    Fail,
    Isolate,
    IgnoreDependencies,
    IgnoreRequirements,
}

/// One `ExecStart` entry of a unit: the program, its whole argument vector
/// (the program's own name first), and whether a failure of it is ignored.
#[derive(Debug, Clone)]
pub struct ExecCommand {
    pub path: String,
    pub args: Vec<String>,
    pub unclean: bool,
}

/// The properties that a transient service is started with.
#[derive(Debug, Clone)]
pub struct Properties {
    pub description: String,
    pub exec_start: Vec<ExecCommand>,
    pub environment: Vec<String>,
    pub working_directory: Option<String>,
}

/// The value of one unit property.
#[derive(Debug, Clone)]
pub enum PropertyValue {
    Text(String),
    Commands(Vec<ExecCommand>),
    TextList(Vec<String>),
}

/// The properties, by name and in order, that systemd is sent for `p`:
/// `Description`; `ExecStart` when there is a command to run;
/// `Environment`; and `WorkingDirectory` when one is set.
pub open spec fn unit_property_list(p: Properties) -> Seq<(Seq<char>, PropertyValue)> {
    seq![("Description"@, PropertyValue::Text(p.description))] + (if p.exec_start.len() > 0 {
        seq![("ExecStart"@, PropertyValue::Commands(p.exec_start))]
    } else {
        seq![]
    }) + seq![("Environment"@, PropertyValue::TextList(p.environment))]
        + match p.working_directory {
        Some(w) => seq![("WorkingDirectory"@, PropertyValue::Text(w))],
        None => seq![],
    }
}

/// A property list by the views of its names.
pub open spec fn property_list_view(props: Seq<(String, PropertyValue)>) -> Seq<(Seq<char>, PropertyValue)> {
    props.map_values(|p: (String, PropertyValue)| (p.0@, p.1))
}

impl Properties {
    /// The named property values that stand for these properties on the bus.
    pub fn unit_properties(self) -> (props: Vec<(String, PropertyValue)>)
        ensures
            property_list_view(props@) == unit_property_list(self),
    {
        let ghost old_self = self;
        let Properties { description, exec_start, environment, working_directory } = self;
        let mut props: Vec<(String, PropertyValue)> = Vec::new();
        props.push(("Description".to_string(), PropertyValue::Text(description)));
        if exec_start.len() > 0 {
            props.push(("ExecStart".to_string(), PropertyValue::Commands(exec_start)));
        }
        props.push(("Environment".to_string(), PropertyValue::TextList(environment)));
        if let Some(w) = working_directory {
            props.push(("WorkingDirectory".to_string(), PropertyValue::Text(w)));
        }
        assert(property_list_view(props@) =~= unit_property_list(old_self));
        props
    }
}


/// The words joined into one line, one space between each two.
pub open spec fn joined(words: Seq<Seq<char>>) -> Seq<char>
    decreases words.len(),
{
    if words.len() == 0 {
        seq![]
    } else if words.len() == 1 {
        words[0]
    } else {
        joined(words.drop_last()) + seq![' '] + words.last()
    }
}

/// Joins `words` into one line, one space between each two.
pub fn join_words(words: &Vec<String>) -> (line: String)
    ensures
        line@ == joined(words.deep_view()),
{
    let ghost all = words.deep_view();
    let mut line = String::new();
    let mut i: usize = 0;
    while i < words.len()
        invariant
            i <= words.len(),
            all == words.deep_view(),
            all.len() == words.len(),
            line@ == joined(all.take(i as int)),
        decreases words.len() - i,
    {
        proof {
            assert(all.take(i + 1).drop_last() =~= all.take(i as int));
            assert(all[i as int] == words@[i as int]@);
        }
        if i > 0 {
            line.append(" ");
            proof {
                reveal_strlit(" ");
            }
        } else {
            assert(all.take(0) =~= Seq::<Seq<char>>::empty());
        }
        line.append(words[i].as_str());
        i = i + 1;
    }
    assert(all.take(words.len() as int) =~= all);
    line
}

/// The words of the command that the shell runs: the command's own words,
/// then `>` and the log file when there is one.
pub open spec fn command_words(cmd: Seq<Seq<char>>, log_file: Option<Seq<char>>) -> Seq<Seq<char>> {
    match log_file {
        Some(log) => cmd + seq![">"@, log],
        None => cmd,
    }
}

/// A text by its view, if there is one.
pub open spec fn text_view(t: Option<String>) -> Option<Seq<char>> {
    match t {
        Some(s) => Some(s@),
        None => None,
    }
}

/// The argument vector that runs `cmd` under `/bin/sh -c`, its output
/// redirected into `log_file` when one is given.
pub fn shell_command(cmd: Vec<String>, log_file: Option<String>) -> (args: Vec<String>)
    ensures
        args.deep_view() == seq![
            "/bin/sh"@,
            "-c"@,
            joined(command_words(cmd.deep_view(), text_view(log_file))),
        ],
{
    let ghost words0 = cmd.deep_view();
    let mut words = cmd;
    if let Some(log) = log_file {
        let redirect = ">".to_string();
        words.push(redirect);
        words.push(log);
        assert(words.deep_view() =~= command_words(words0, text_view(log_file)));
    } else {
        assert(words.deep_view() =~= command_words(words0, text_view(log_file)));
    }
    let line = join_words(&words);
    let mut args: Vec<String> = Vec::new();
    args.push("/bin/sh".to_string());
    args.push("-c".to_string());
    args.push(line);
    assert(args.deep_view() =~= seq![
        "/bin/sh"@,
        "-c"@,
        joined(command_words(words0, text_view(log_file))),
    ]);
    args
}


/// The description of the unit of the task `task`: `lab experiment, task: {task}`.
pub fn experiment_description(task: &str) -> (description: String)
    ensures
        description@ == "lab experiment, task: "@ + task@,
{
    let mut description = "lab experiment, task: ".to_string();
    description.append(task);
    description
}

/// What starting a task asks of systemd: a transient service by this name,
/// started in this mode, with these properties.
#[derive(Debug)]
pub struct LaunchRequest {
    pub service: String,
    pub mode: Mode,
    pub properties: Properties,
}

/// The request that starts the task `id` now: it runs `cmd` (output into
/// `log_file` when given) under `/bin/sh -c` in `working_directory`, as a
/// transient service named after the task and the time, replacing any
/// conflicting job.
pub fn launch_request(
    id: &str,
    cmd: Vec<String>,
    description: &str,
    log_file: Option<String>,
    working_directory: String,
) -> (req: LaunchRequest)
    ensures
        exists|time: Seq<char>|
            {
                &&& timestamp_text(time)
                &&& #[trigger] service_name(id@, time) == req.service@
                &&& valid_task_name(id@) ==> task_information(req.service@) == Some((id@, time))
            },
        req.mode == Mode::Replace,
        req.properties.description@ == description@,
        req.properties.exec_start.len() == 1,
        req.properties.exec_start[0].path@ == "/bin/sh"@,
        req.properties.exec_start[0].args.deep_view() == seq![
            "/bin/sh"@,
            "-c"@,
            joined(command_words(cmd.deep_view(), text_view(log_file))),
        ],
        !req.properties.exec_start[0].unclean,
        req.properties.environment.len() == 0,
        text_view(req.properties.working_directory) == Some(working_directory@),
{
    let args = shell_command(cmd, log_file);
    let service = gen_task(id);
    let start = ExecCommand { path: "/bin/sh".to_string(), args, unclean: false };
    let mut exec_start: Vec<ExecCommand> = Vec::new();
    exec_start.push(start);
    let properties = Properties {
        description: description.to_string(),
        exec_start,
        environment: Vec::new(),
        working_directory: Some(working_directory),
    };
    LaunchRequest { service, mode: Mode::Replace, properties }
}

} // verus!

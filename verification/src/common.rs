use vstd::prelude::*;

verus! {

/// The first component of every unit name that belongs to a lab task.
pub const TASK_PREFIX: &'static str = "chen-lab-task";

/// The characters of [`TASK_PREFIX`].
pub open spec fn prefix_chars() -> Seq<char> {
    seq!['c', 'h', 'e', 'n', '-', 'l', 'a', 'b', '-', 't', 'a', 's', 'k']
}

/// The characters of the unit type that ends every task unit name.
pub open spec fn suffix_chars() -> Seq<char> {
    seq!['s', 'e', 'r', 'v', 'i', 'c', 'e']
}

/// What the `regex` crate answers when asked whether `c` belongs to its `\d`
/// class (the Unicode general category Nd).
pub uninterp spec fn regex_decimal_digit(c: char) -> bool;

/// A decimal digit: `0` to `9` among ASCII characters, and whatever the
/// `regex` crate counts as a digit beyond ASCII.
pub open spec fn digit_char(c: char) -> bool {
    if (c as u32) < 128 {
        '0' <= c && c <= '9'
    } else {
        regex_decimal_digit(c)
    }
}

/// A character allowed in the task part of a unit name: `[a-zA-Z_\d\-]`.
pub open spec fn task_char(c: char) -> bool {
    ||| 'a' <= c && c <= 'z'
    ||| 'A' <= c && c <= 'Z'
    ||| c == '_'
    ||| c == '-'
    ||| digit_char(c)
}

/// A character allowed in the start-time part of a unit name: `[a-zA-Z_\d\-:+]`.
pub open spec fn time_char(c: char) -> bool {
    task_char(c) || c == ':' || c == '+'
}

/// Asks the `regex` crate whether the one-character text `c` matches `^\d$`.
/// The contract claims only that the answer is the one the crate gives,
/// named [`regex_decimal_digit`].
#[verifier::external_body]
fn regex_is_decimal_digit(c: char) -> (b: bool)
    ensures
        b == regex_decimal_digit(c),
{
    regex::Regex::new(r"^\d$").unwrap().is_match(&c.to_string())
}

/// Decides [`digit_char`].
pub fn is_digit_char(c: char) -> (b: bool)
    ensures
        b == digit_char(c),
{
    if (c as u32) < 128 {
        '0' <= c && c <= '9'
    } else {
        regex_is_decimal_digit(c)
    }
}

/// Decides [`task_char`].
pub fn is_task_char(c: char) -> (b: bool)
    ensures
        b == task_char(c),
{
    ('a' <= c && c <= 'z') || ('A' <= c && c <= 'Z') || c == '_' || c == '-' || is_digit_char(c)
}

/// Decides [`time_char`].
pub fn is_time_char(c: char) -> (b: bool)
    ensures
        b == time_char(c),
{
    is_task_char(c) || c == ':' || c == '+'
}


/// The characters of `s`, one by one.
fn chars_of(s: &str) -> (v: Vec<char>)
    ensures
        v@ == s@,
{
    let mut v: Vec<char> = Vec::new();
    for c in it: s.chars()
        invariant
            it.seq() == s@,
            v@ == it.seq().take(it.index() as int),
    {
        v.push(c);
    }
    v
}


/// `s` holds, from position `st` on, a unit name of a task whose name lies
/// in `[st + 14, r)` and whose start time lies in `[r + 1, e)`.  This is
/// the pattern `chen-lab-task.(?<TaskId>[a-zA-Z_\d\-]+)@(?<StartTime>[a-zA-Z_\d\-:+]+).service`,
/// where each unescaped `.` stands for any character but a line feed.
pub open spec fn is_match(s: Seq<char>, st: int, r: int, e: int) -> bool {
    &&& 0 <= st
    &&& st + 14 < r
    &&& r + 1 < e
    &&& e + 8 <= s.len()
    &&& s.subrange(st, st + 13) == prefix_chars()
    &&& s[st + 13] != '\n'
    &&& forall|k: int| st + 14 <= k < r ==> task_char(#[trigger] s[k])
    &&& s[r] == '@'
    &&& forall|k: int| r + 1 <= k < e ==> time_char(#[trigger] s[k])
    &&& s[e] != '\n'
    &&& s.subrange(e + 1, e + 8) == suffix_chars()
}

/// The match that a leftmost-first regex engine reports: it starts as early
/// as any match does, and among the matches that start there, its greedy
/// start time reaches furthest.
pub open spec fn is_first_match(s: Seq<char>, st: int, r: int, e: int) -> bool {
    &&& is_match(s, st, r, e)
    &&& forall|st2: int, r2: int, e2: int| #[trigger] is_match(s, st2, r2, e2) ==> st <= st2
    &&& forall|r2: int, e2: int| #[trigger] is_match(s, st, r2, e2) ==> e2 <= e
}

/// The task name and start time that a unit name `s` holds, if it holds one.
pub open spec fn task_information(s: Seq<char>) -> Option<(Seq<char>, Seq<char>)> {
    if exists|st: int, r: int, e: int| is_first_match(s, st, r, e) {
        let (st, r, e) = choose|st: int, r: int, e: int| is_first_match(s, st, r, e);
        Some((s.subrange(st + 14, r), s.subrange(r + 1, e)))
    } else {
        None
    }
}

/// Two matches that start at one place end their task name at one place:
/// the name cannot run over the `@`.
proof fn lemma_task_end_unique(s: Seq<char>, st: int, r1: int, e1: int, r2: int, e2: int)
    requires
        is_match(s, st, r1, e1),
        is_match(s, st, r2, e2),
    ensures
        r1 == r2,
{
    if r1 < r2 {
        assert(task_char(s[r1]));
    } else if r2 < r1 {
        assert(task_char(s[r2]));
    }
}

/// A task name that an `@` ends is the task name of every match that starts
/// where it does.
proof fn lemma_task_end_forced(s: Seq<char>, st: int, r: int, r2: int, e2: int)
    requires
        st + 14 <= r < s.len(),
        s[r] == '@',
        forall|k: int| st + 14 <= k < r ==> task_char(#[trigger] s[k]),
        is_match(s, st, r2, e2),
    ensures
        r2 == r,
{
    if r2 < r {
        assert(task_char(s[r2]));
    } else if r2 > r {
        assert(task_char(s[r]));
    }
}

/// A match that starts where a task name ends at an `@` at `r`, with the
/// run of time characters after the `@` ending at `q`, ends its start time
/// within that run, at a place where the start time may end.
proof fn lemma_match_within_time_run(s: Seq<char>, st: int, r: int, q: int, r2: int, e2: int)
    requires
        st + 14 <= r < s.len(),
        s[r] == '@',
        forall|k: int| st + 14 <= k < r ==> task_char(#[trigger] s[k]),
        r + 1 <= q <= s.len(),
        forall|k: int| r + 1 <= k < q ==> time_char(#[trigger] s[k]),
        q == s.len() || !time_char(s[q]),
        is_match(s, st, r2, e2),
    ensures
        r2 == r,
        e2 <= q,
        time_end_at(s, e2),
{
    lemma_task_end_forced(s, st, r, r2, e2);
    if e2 > q {
        assert(time_char(s[q]));
    }
}

/// There is at most one first match.
proof fn lemma_first_match_unique(s: Seq<char>, st1: int, r1: int, e1: int, st2: int, r2: int, e2: int)
    requires
        is_first_match(s, st1, r1, e1),
        is_first_match(s, st2, r2, e2),
    ensures
        st1 == st2 && r1 == r2 && e1 == e2,
{
    assert(st1 <= st2 && st2 <= st1);
    lemma_task_end_unique(s, st1, r1, e1, r2, e2);
    assert(e1 <= e2 && e2 <= e1);
}

/// A first match determines [`task_information`].
proof fn lemma_task_information_of_first_match(s: Seq<char>, st: int, r: int, e: int)
    requires
        is_first_match(s, st, r, e),
    ensures
        task_information(s) == Some((s.subrange(st + 14, r), s.subrange(r + 1, e))),
{
    let (st2, r2, e2) = choose|st2: int, r2: int, e2: int| is_first_match(s, st2, r2, e2);
    lemma_first_match_unique(s, st, r, e, st2, r2, e2);
}


/// Whether [`TASK_PREFIX`] stands in `s` at `pos`.
fn prefix_at(s: &Vec<char>, pos: usize) -> (b: bool)
    requires
        pos + 13 <= s.len(),
    ensures
        b == (s@.subrange(pos as int, pos + 13) == prefix_chars()),
{
    let b = s[pos] == 'c' && s[pos + 1] == 'h' && s[pos + 2] == 'e' && s[pos + 3] == 'n'
        && s[pos + 4] == '-' && s[pos + 5] == 'l' && s[pos + 6] == 'a' && s[pos + 7] == 'b'
        && s[pos + 8] == '-' && s[pos + 9] == 't' && s[pos + 10] == 'a' && s[pos + 11] == 's'
        && s[pos + 12] == 'k';
    assert(b ==> s@.subrange(pos as int, pos + 13) =~= prefix_chars());
    assert(s@.subrange(pos as int, pos + 13) == prefix_chars() ==> b) by {
        if s@.subrange(pos as int, pos + 13) == prefix_chars() {
            assert forall|k: int| 0 <= k < 13 implies s@[pos + k] == prefix_chars()[k] by {
                assert(s@[pos + k] == s@.subrange(pos as int, pos + 13)[k]);
            }
        }
    }
    b
}

/// Whether the start time may end at `e`: a character other than a line
/// feed stands at `e`, followed by `service`.
pub open spec fn time_end_at(s: Seq<char>, e: int) -> bool {
    &&& 0 <= e
    &&& e + 8 <= s.len()
    &&& s[e] != '\n'
    &&& s.subrange(e + 1, e + 8) == suffix_chars()
}

/// Decides [`time_end_at`].
fn is_time_end_at(s: &Vec<char>, e: usize) -> (b: bool)
    ensures
        b == time_end_at(s@, e as int),
{
    if e >= s.len() || s.len() - e < 8 {
        return false;
    }
    let b = s[e] != '\n' && s[e + 1] == 's' && s[e + 2] == 'e' && s[e + 3] == 'r'
        && s[e + 4] == 'v' && s[e + 5] == 'i' && s[e + 6] == 'c' && s[e + 7] == 'e';
    assert(b ==> s@.subrange(e + 1, e + 8) =~= suffix_chars());
    assert(s@.subrange(e + 1, e + 8) == suffix_chars() && s@[e as int] != '\n' ==> b) by {
        if s@.subrange(e + 1, e + 8) == suffix_chars() {
            assert forall|k: int| 0 <= k < 7 implies s@[e + 1 + k] == suffix_chars()[k] by {
                assert(s@[e + 1 + k] == s@.subrange(e + 1, e + 8)[k]);
            }
        }
    }
    b
}

/// The match that starts at `st`, if there is one; among several, the one
/// whose start time reaches furthest.
#[verifier::loop_isolation(false)]
fn match_at(s: &Vec<char>, st: usize) -> (res: Option<(usize, usize)>)
    ensures
        match res {
            Some((r, e)) => {
                &&& is_match(s@, st as int, r as int, e as int)
                &&& forall|r2: int, e2: int| #[trigger] is_match(s@, st as int, r2, e2) ==> e2 <= e
            },
            None => forall|r2: int, e2: int| !#[trigger] is_match(s@, st as int, r2, e2),
        },
{
    let n = s.len();
    if n < 25 || st > n - 25 {
        return None;
    }
    if !prefix_at(s, st) || s[st + 13] == '\n' {
        return None;
    }
    // The task name: the longest run of task characters, which an `@` must end.
    let a = st + 14;
    let mut r = a;
    while r < n && is_task_char(s[r])
        invariant
            a <= r <= n,
            n == s.len(),
            forall|k: int| a <= k < r ==> task_char(#[trigger] s@[k]),
        decreases n - r,
    {
        r = r + 1;
    }
    if r == a || r >= n || s[r] != '@' {
        assert forall|r2: int, e2: int| !#[trigger] is_match(s@, st as int, r2, e2) by {
            if is_match(s@, st as int, r2, e2) {
                if r2 < r {
                    assert(task_char(s@[r2]));
                } else if r2 > r {
                    assert(task_char(s@[r as int]));
                }
            }
        }
        return None;
    }
    // The start time: a run of time characters, as long as `service` can follow it.
    let b = r + 1;
    let mut q = b;
    while q < n && is_time_char(s[q])
        invariant
            b <= q <= n,
            n == s.len(),
            forall|k: int| b <= k < q ==> time_char(#[trigger] s@[k]),
        decreases n - q,
    {
        q = q + 1;
    }
    let mut e = q;
    while e > b
        invariant
            b <= e <= q,
            q <= n,
            n == s.len(),
            forall|k: int| b <= k < q ==> time_char(#[trigger] s@[k]),
            forall|e2: int| e < e2 <= q ==> !#[trigger] time_end_at(s@, e2),
        decreases e,
    {
        if is_time_end_at(s, e) {
            assert(is_match(s@, st as int, r as int, e as int));
            assert forall|r2: int, e2: int| #[trigger] is_match(s@, st as int, r2, e2) implies e2 <= e by {
                lemma_match_within_time_run(s@, st as int, r as int, q as int, r2, e2);
            }
            return Some((r, e));
        }
        e = e - 1;
    }
    assert forall|r2: int, e2: int| !#[trigger] is_match(s@, st as int, r2, e2) by {
        if is_match(s@, st as int, r2, e2) {
            lemma_match_within_time_run(s@, st as int, r as int, q as int, r2, e2);
        }
    }
    None
}


/// What a unit name says about the task that runs in it.
#[derive(Debug, Clone)]
pub struct TaskInfo {
    pub task: String,
    pub time: String,
}

/// Reads the task name and start time out of a unit id.  The first place in
/// `id` where a task unit name stands is read, as a leftmost-first regex
/// engine reads `chen-lab-task.(?<TaskId>[a-zA-Z_\d\-]+)@(?<StartTime>[a-zA-Z_\d\-:+]+).service`;
/// `None` when no such name stands anywhere in `id`.
pub fn get_task_information(id: &str) -> (res: Option<TaskInfo>)
    ensures
        match res {
            Some(info) => task_information(id@) == Some((info.task@, info.time@)),
            None => task_information(id@) is None,
        },
        res is None <==> forall|st: int, r: int, e: int| !#[trigger] is_match(id@, st, r, e),
{
    let s = chars_of(id);
    let n = s.len();
    let mut st: usize = 0;
    while st < n
        invariant
            s@ == id@,
            n == s.len(),
            st <= n,
            forall|st2: int, r2: int, e2: int|
                #[trigger] is_match(id@, st2, r2, e2) ==> st <= st2,
        decreases n - st,
    {
        if let Some((r, e)) = match_at(&s, st) {
            proof {
                lemma_task_information_of_first_match(id@, st as int, r as int, e as int);
            }
            let task = id.substring_char(st + 14, r).to_string();
            let time = id.substring_char(r + 1, e).to_string();
            return Some(TaskInfo { task, time });
        }
        st = st + 1;
    }
    assert forall|st2: int, r2: int, e2: int| !#[trigger] is_match(id@, st2, r2, e2) by {}
    None
}


/// The unit name under which the task `task` started at `time` runs:
/// `chen-lab-task.{task}@{time}.service`.
pub open spec fn service_name(task: Seq<char>, time: Seq<char>) -> Seq<char> {
    prefix_chars() + seq!['.'] + task + seq!['@'] + time + seq!['.'] + suffix_chars()
}

/// The layout in which a task's start time is written:
/// year-month-day, an underscore, hour:minute:second.
pub const START_TIME_FORMAT: &'static str = "%Y-%m-%d_%H:%M:%S";

/// An ASCII decimal digit.
pub open spec fn ascii_digit(c: char) -> bool {
    '0' <= c && c <= '9'
}

/// A year as `chrono` writes `%Y`: four digits for a year in 0..=9999, `+`
/// and at least five digits for a later year, `-` and at least four digits
/// for an earlier one.
pub open spec fn year_text(y: Seq<char>) -> bool {
    ||| y.len() == 4 && forall|k: int| 0 <= k < 4 ==> ascii_digit(#[trigger] y[k])
    ||| y.len() >= 6 && y[0] == '+' && forall|k: int|
        1 <= k < y.len() ==> ascii_digit(#[trigger] y[k])
    ||| y.len() >= 5 && y[0] == '-' && forall|k: int|
        1 <= k < y.len() ==> ascii_digit(#[trigger] y[k])
}

/// Two ASCII digits stand in `t` at `i` and `i + 1`.
pub open spec fn two_digits(t: Seq<char>, i: int) -> bool {
    ascii_digit(t[i]) && ascii_digit(t[i + 1])
}

/// A text that the local clock formatted in [`START_TIME_FORMAT`] can be:
/// a year, then `-MM-DD_hh:mm:ss` with each field two digits.  It is
/// `YYYY-MM-DD_hh:mm:ss`, nineteen characters, for a year in 0..=9999.
pub open spec fn timestamp_text(t: Seq<char>) -> bool {
    let y = t.len() - 15;
    &&& t.len() >= 19
    &&& year_text(t.take(y))
    &&& t[y] == '-'
    &&& two_digits(t, y + 1)
    &&& t[y + 3] == '-'
    &&& two_digits(t, y + 4)
    &&& t[y + 6] == '_'
    &&& two_digits(t, y + 7)
    &&& t[y + 9] == ':'
    &&& two_digits(t, y + 10)
    &&& t[y + 12] == ':'
    &&& two_digits(t, y + 13)
}

/// A task name that a unit name carries and that reads back as itself:
/// not empty, and made of characters of `[a-zA-Z_\d\-]` alone.
pub open spec fn valid_task_name(task: Seq<char>) -> bool {
    task.len() > 0 && forall|k: int| 0 <= k < task.len() ==> task_char(#[trigger] task[k])
}

/// A start time that a unit name carries and that reads back as itself.
pub open spec fn valid_start_time(time: Seq<char>) -> bool {
    time.len() > 0 && forall|k: int| 0 <= k < time.len() ==> time_char(#[trigger] time[k])
}

/// Formats the present local time with `chrono` (`Local::now().format`) in
/// the layout `format`, which must be [`START_TIME_FORMAT`]: `chrono` panics
/// on a layout it cannot write.  The contract claims the shape of every text
/// that this layout gives: the year as `%Y` writes it (four digits in
/// 0..=9999, otherwise a sign and more digits) and each other field in two
/// digits, with the separators of the layout.  `chrono` also panics, and no
/// `requires` can rule it out since it rests on the machine's state, when the
/// system clock reads earlier than 1970 or the time-zone data gives no local
/// time for the present instant.
#[verifier::external_body]
fn local_time_text(format: &str) -> (t: String)
    requires
        format@ == "%Y-%m-%d_%H:%M:%S"@,
    ensures
        timestamp_text(t@),
{
    chrono::Local::now().format(format).to_string()
}

/// Every text the clock gives is a start time that reads back as itself.
pub proof fn lemma_timestamp_is_start_time(t: Seq<char>)
    requires
        timestamp_text(t),
    ensures
        valid_start_time(t),
{
    let y = t.len() - 15;
    let year = t.take(y);
    assert forall|k: int| 0 <= k < t.len() implies time_char(#[trigger] t[k]) by {
        if k < y {
            assert(t[k] == year[k]);
            if year.len() == 4 {
                assert(ascii_digit(year[k]));
            } else if k > 0 {
                assert(ascii_digit(year[k]));
            }
        } else if k == y + 1 || k == y + 2 || k == y + 4 || k == y + 5 || k == y + 7 || k == y + 8
            || k == y + 10 || k == y + 11 || k == y + 13 || k == y + 14 {
            assert(ascii_digit(t[k]));
        }
    }
}

/// Reading a unit name back gives the task name and start time it was made
/// of, whenever both are made of the characters that the pattern allows.
pub proof fn lemma_service_name_round_trip(task: Seq<char>, time: Seq<char>)
    requires
        valid_task_name(task),
        valid_start_time(time),
    ensures
        task_information(service_name(task, time)) == Some((task, time)),
{
    let s = service_name(task, time);
    let r: int = 14 + task.len() as int;
    let e: int = r + 1 + time.len();
    lemma_service_name_layout(task, time);
    assert(is_match(s, 0, r, e));
    assert forall|r2: int, e2: int| #[trigger] is_match(s, 0, r2, e2) implies e2 <= e by {
        lemma_task_end_unique(s, 0, r, e, r2, e2);
        if e2 > e {
            assert(time_char(s[e]));
        }
    }
    assert(is_first_match(s, 0, r, e));
    lemma_task_information_of_first_match(s, 0, r, e);
}

/// Where the parts of a unit name stand in it.
proof fn lemma_service_name_layout(task: Seq<char>, time: Seq<char>)
    requires
        valid_task_name(task),
        valid_start_time(time),
    ensures
        ({
            let s = service_name(task, time);
            let r: int = 14 + task.len() as int;
            let e: int = r + 1 + time.len();
            &&& s.len() == e + 8
            &&& s.subrange(0, 13) == prefix_chars()
            &&& s[13] == '.'
            &&& s.subrange(14, r) == task
            &&& forall|k: int| 14 <= k < r ==> task_char(#[trigger] s[k])
            &&& s[r] == '@'
            &&& s.subrange(r + 1, e) == time
            &&& forall|k: int| r + 1 <= k < e ==> time_char(#[trigger] s[k])
            &&& s[e] == '.'
            &&& s.subrange(e + 1, e + 8) == suffix_chars()
        }),
{
    let p1 = prefix_chars() + seq!['.'];
    let p2 = p1 + task;
    let p3 = p2 + seq!['@'];
    let p4 = p3 + time;
    let p5 = p4 + seq!['.'];
    let s = p5 + suffix_chars();
    assert(s == service_name(task, time));
    let r: int = 14 + task.len() as int;
    let e: int = r + 1 + time.len();
    assert(p1.len() == 14);
    assert(p2.len() == r);
    assert(p4.len() == e);
    assert(s.subrange(0, 13) =~= prefix_chars());
    assert(s[13] == p1[13]);
    assert(s.subrange(14, r) =~= task);
    assert forall|k: int| 14 <= k < r implies task_char(#[trigger] s[k]) by {
        assert(s[k] == p2[k]);
        assert(p2[k] == task[k - 14]);
    }
    assert(s[r] == p3[r]);
    assert(s.subrange(r + 1, e) =~= time);
    assert forall|k: int| r + 1 <= k < e implies time_char(#[trigger] s[k]) by {
        assert(s[k] == p4[k]);
        assert(p4[k] == time[k - r - 1]);
    }
    assert(s[e] == p5[e]);
    assert(s.subrange(e + 1, e + 8) =~= suffix_chars());
}

/// What a unit name holds is a task name and a start time that the unit
/// name pattern allows.
pub proof fn lemma_task_information_valid(s: Seq<char>)
    requires
        task_information(s) is Some,
    ensures
        valid_task_name(task_information(s).unwrap().0),
        valid_start_time(task_information(s).unwrap().1),
{
    let (st, r, e) = choose|st: int, r: int, e: int| is_first_match(s, st, r, e);
    let task = s.subrange(st + 14, r);
    let time = s.subrange(r + 1, e);
    assert forall|k: int| 0 <= k < task.len() implies task_char(#[trigger] task[k]) by {
        assert(task[k] == s[st + 14 + k]);
    }
    assert forall|k: int| 0 <= k < time.len() implies time_char(#[trigger] time[k]) by {
        assert(time[k] == s[r + 1 + k]);
    }
}

/// A task name and start time read from a unit id, written into a unit name
/// of their own, read back the same.
pub proof fn lemma_rewritten_name_reads_same(s: Seq<char>)
    requires
        task_information(s) is Some,
    ensures
        task_information(
            service_name(task_information(s).unwrap().0, task_information(s).unwrap().1),
        ) == task_information(s),
{
    lemma_task_information_valid(s);
    lemma_service_name_round_trip(task_information(s).unwrap().0, task_information(s).unwrap().1);
}

/// Among ASCII characters, the task part of a unit name takes exactly the
/// letters of either case, the digits, `_` and `-`; the start-time part takes
/// these and `:` and `+`.
pub proof fn lemma_ascii_name_characters(c: char)
    requires
        (c as u32) < 128,
    ensures
        task_char(c) <==> (('a' <= c && c <= 'z') || ('A' <= c && c <= 'Z') || ('0' <= c && c <= '9')
            || c == '_' || c == '-'),
        time_char(c) <==> (('a' <= c && c <= 'z') || ('A' <= c && c <= 'Z') || ('0' <= c && c
            <= '9') || c == '_' || c == '-' || c == ':' || c == '+'),
{
}

/// Every task name made of ASCII letters of either case, digits, `_` and
/// `-`, written into a unit name with a start time in the clock's layout,
/// reads back as that task name and that start time.
pub proof fn lemma_ascii_name_round_trip(task: Seq<char>, time: Seq<char>)
    requires
        task.len() > 0,
        forall|k: int|
            0 <= k < task.len() ==> {
                let c = #[trigger] task[k];
                ('a' <= c && c <= 'z') || ('A' <= c && c <= 'Z') || ('0' <= c && c <= '9') || c
                    == '_' || c == '-'
            },
        timestamp_text(time),
    ensures
        task_information(service_name(task, time)) == Some((task, time)),
{
    assert forall|k: int| 0 <= k < task.len() implies task_char(#[trigger] task[k]) by {
        lemma_ascii_name_characters(task[k]);
    }
    lemma_timestamp_is_start_time(time);
    lemma_service_name_round_trip(task, time);
}

/// The unit name for the task `task_name` started at `time`.
pub fn task_service_name(task_name: &str, time: &str) -> (name: String)
    ensures
        name@ == service_name(task_name@, time@),
{
    let mut name = TASK_PREFIX.to_string();
    name.append(".");
    name.append(task_name);
    name.append("@");
    name.append(time);
    name.append(".service");
    proof {
        reveal_strlit("chen-lab-task");
        reveal_strlit(".");
        reveal_strlit("@");
        reveal_strlit(".service");
        assert(name@ =~= service_name(task_name@, time@));
    }
    name
}

/// The unit name for the task `task_name`, started at the present local time.
/// When `task_name` consists of characters that a unit name allows in its
/// task part, [`get_task_information`] recovers both `task_name` and the time.
pub fn gen_task(task_name: &str) -> (name: String)
    ensures
        exists|time: Seq<char>|
            {
                &&& timestamp_text(time)
                &&& #[trigger] service_name(task_name@, time) == name@
                &&& valid_task_name(task_name@) ==> task_information(name@) == Some(
                    (task_name@, time),
                )
            },
{
    let time = local_time_text(START_TIME_FORMAT);
    let name = task_service_name(task_name, time.as_str());
    proof {
        lemma_timestamp_is_start_time(time@);
        if valid_task_name(task_name@) {
            lemma_service_name_round_trip(task_name@, time@);
        }
    }
    name
}

} // verus!

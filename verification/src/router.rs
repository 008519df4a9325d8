//! The session router's decisions on an inbound message: which session it
//! belongs to, which slash command it is, what `/learn` asks for, how the
//! model is switched, and how a large study file is cut into parts.

use vstd::prelude::*;
use crate::config::ProviderConfig;
use crate::cost::{repeated_prefix_end, strip_prefix_repeated};
use crate::text::{
    eq_str, extend_chars, from_chars, has_prefix, is_alnum, is_alphanumeric, is_whitespace, is_ws, join, join_spec, lines,
    lines_spec, parse_i64, parse_i64_spec, push_str, slice_to_vec, starts_with, to_chars, trim, trim_spec, views, words,
    words_spec,
};

verus! {

/// The key of the session of a message: channel, `:`, chat id, then the
/// course suffix.
pub open spec fn session_key_spec(channel: Seq<char>, chat_id: Seq<char>, suffix: Seq<char>) -> Seq<char> {
    channel + ":"@ + chat_id + suffix
}

/// The key of the session of a message from `chat_id` on `channel`.
pub fn session_key(channel: &str, chat_id: &str, suffix: &str) -> (r: String)
    ensures
        r@ == session_key_spec(channel@, chat_id@, suffix@),
{
    let mut v = to_chars(channel);
    push_str(&mut v, ":");
    push_str(&mut v, chat_id);
    push_str(&mut v, suffix);
    from_chars(v.as_slice())
}

/// A command of the knowledge-base learning mode.
#[derive(Debug, Clone, Copy, PartialEq, Eq, Structural)]
pub enum KbCommand {
    /// `/learn`: enter or continue learning.
    Learn,
    /// `/summary` or `/总结`: an interim summary.
    Summary,
    /// `/stop`: leave learning mode with a summary.
    Stop,
}

/// `s` is the command `cmd` alone or followed by a space and more.
pub open spec fn is_cmd(s: Seq<char>, cmd: Seq<char>) -> bool {
    s == cmd || has_prefix(s, cmd + " "@)
}

/// The learning-mode command a message is, judged on its trimmed text.
pub open spec fn kb_command_spec(content: Seq<char>) -> Option<KbCommand> {
    let c = trim_spec(content);
    if is_cmd(c, "/learn"@) {
        Some(KbCommand::Learn)
    } else if is_cmd(c, "/summary"@) || is_cmd(c, "/总结"@) {
        Some(KbCommand::Summary)
    } else if is_cmd(c, "/stop"@) {
        Some(KbCommand::Stop)
    } else {
        None
    }
}

/// Whether `s` is the command `cmd`, alone or with arguments.
fn is_command(s: &[char], cmd: &str) -> (r: bool)
    ensures
        r == is_cmd(s@, cmd@),
{
    let mut p = to_chars(cmd);
    let ghost c = p@;
    push_str(&mut p, " ");
    assert(p@ == c + " "@);
    eq_str(s, cmd) || starts_with(s, p.as_slice())
}

/// The learning-mode command that `content` is, if any.
pub fn kb_command_of(content: &str) -> (r: Option<KbCommand>)
    ensures
        r == kb_command_spec(content@),
{
    let c = to_chars(content);
    let t = trim(c.as_slice());
    if is_command(t.as_slice(), "/learn") {
        Some(KbCommand::Learn)
    } else if is_command(t.as_slice(), "/summary") || is_command(t.as_slice(), "/总结") {
        Some(KbCommand::Summary)
    } else if is_command(t.as_slice(), "/stop") {
        Some(KbCommand::Stop)
    } else {
        None
    }
}

/// A handler of an inbound message.
#[derive(Debug, Clone, Copy, PartialEq, Eq, Structural)]
pub enum Route {
    /// The course switch `/sw`; its reply, when not empty, ends the message.
    CourseSwitch,
    /// The model command `/model`; its reply, when not empty, ends the message.
    ModelCommand,
    /// A learning-mode command, which always ends the message.
    Kb(KbCommand),
    /// The education slash commands; a reply that is not empty ends the message.
    Edu,
    /// The chat session of the message.
    Chat,
}

/// The handlers an inbound message with text `content` is offered to, in
/// order: `/sw` and `/model` when it starts with them, then its
/// learning-mode command if it is one, else the education commands and the
/// chat session.
pub open spec fn routes_spec(content: Seq<char>) -> Seq<Route> {
    (if has_prefix(content, "/sw"@) { seq![Route::CourseSwitch] } else { Seq::empty() })
        + (if has_prefix(content, "/model"@) { seq![Route::ModelCommand] } else { Seq::empty() })
        + match kb_command_spec(content) {
            Some(k) => seq![Route::Kb(k)],
            None => seq![Route::Edu, Route::Chat],
        }
}

/// The handlers the message `content` is offered to, in order (see
/// `routes_spec`); the first whose reply ends the message takes it.
pub fn routes_of(content: &str) -> (r: Vec<Route>)
    ensures
        r@ == routes_spec(content@),
{
    let c = to_chars(content);
    let sw = to_chars("/sw");
    let model = to_chars("/model");
    let mut r: Vec<Route> = Vec::new();
    if starts_with(c.as_slice(), sw.as_slice()) {
        r.push(Route::CourseSwitch);
    }
    if starts_with(c.as_slice(), model.as_slice()) {
        r.push(Route::ModelCommand);
    }
    let ghost head = r@;
    match kb_command_of(content) {
        Some(k) => {
            r.push(Route::Kb(k));
            assert(r@ =~= head + seq![Route::Kb(k)]);
        },
        None => {
            r.push(Route::Edu);
            r.push(Route::Chat);
            assert(r@ =~= head + seq![Route::Edu, Route::Chat]);
        },
    }
    assert(head =~= (if has_prefix(content@, "/sw"@) { seq![Route::CourseSwitch] } else { Seq::empty() })
        + (if has_prefix(content@, "/model"@) { seq![Route::ModelCommand] } else { Seq::empty() }));
    r
}

/// Where a new session sends its events.
#[derive(Debug, Clone, Copy, PartialEq, Eq, Structural)]
pub enum SinkKind {
    /// The terminal's render loop.
    Tui,
    /// Telegram, with its own formatting.
    Telegram,
    /// The channel the message came from.
    Channel,
}

/// The sink of a new session on `channel`: the terminal for `tui` when a
/// terminal is attached, Telegram's own for `telegram`, else the channel.
pub open spec fn sink_kind_spec(channel: Seq<char>, has_tui: bool) -> SinkKind {
    if channel == "tui"@ && has_tui {
        SinkKind::Tui
    } else if channel == "telegram"@ {
        SinkKind::Telegram
    } else {
        SinkKind::Channel
    }
}

/// The sink of a new session on `channel`; `has_tui` when a terminal is
/// attached.
pub fn sink_kind(channel: &str, has_tui: bool) -> (r: SinkKind)
    ensures
        r == sink_kind_spec(channel@, has_tui),
{
    let c = to_chars(channel);
    if has_tui && eq_str(c.as_slice(), "tui") {
        SinkKind::Tui
    } else if eq_str(c.as_slice(), "telegram") {
        SinkKind::Telegram
    } else {
        SinkKind::Channel
    }
}

/// A teacher's slash command.
#[derive(Debug, Clone, Copy, PartialEq, Eq, Structural)]
pub enum TeacherOp {
    /// `/course create <code> <name>`.
    CreateCourse,
    /// `/course list`.
    ListCourses,
    /// `/class create <course code> <class name>`.
    CreateClass,
    /// `/lesson create <course code> <class> <number> <topic>`.
    CreateLesson,
    /// `/student add <number> <name> <course code> <class name>`.
    AddStudent,
    /// `/roster <course code>`.
    Roster,
    /// `/import <course code> <class name>`.
    Import,
    /// `/set <course code> <class name> <field> <value>`.
    SetField,
}

/// A teacher command with its arguments, in the order of its usage line
/// (for `/set`, the value is the words after the field joined by spaces);
/// `number` is the lesson number of `CreateLesson`, else 0.
#[derive(Debug, Clone)]
pub struct TeacherCommand {
    /// Which command.
    pub op: TeacherOp,
    /// Its arguments.
    pub args: Vec<String>,
    /// The lesson number.
    pub number: i64,
}

/// The word `i` of `ws`, empty past the end.
pub open spec fn word_at(ws: Seq<Seq<char>>, i: int) -> Seq<char> {
    if 0 <= i < ws.len() { ws[i] } else { Seq::empty() }
}

/// The words after the command word of `input`.
pub open spec fn teacher_args(input: Seq<char>) -> Seq<Seq<char>> {
    let w = words_spec(input);
    if w.len() > 0 { w.drop_first() } else { Seq::empty() }
}

/// The lesson number written `t`, 1 when it does not read as a number.
pub open spec fn lesson_number(t: Seq<char>) -> i64 {
    match parse_i64_spec(t) {
        Some(n) => n,
        None => 1,
    }
}

/// What the teacher command `input` asks: none when its first word is no
/// teacher command, the usage text when arguments are missing, else the
/// command, its arguments and the lesson number.
pub open spec fn teacher_command_spec(input: Seq<char>) -> Option<Result<(TeacherOp, Seq<Seq<char>>, i64), Seq<char>>> {
    let cmd = word_at(words_spec(input), 0);
    let a = teacher_args(input);
    if cmd == "/course"@ {
        if word_at(a, 0) == "create"@ {
            if word_at(a, 1).len() == 0 || word_at(a, 2).len() == 0 {
                Some(Err("用法: /course create <课程码> <课程名>"@))
            } else {
                Some(Ok((TeacherOp::CreateCourse, seq![word_at(a, 1), word_at(a, 2)], 0i64)))
            }
        } else if word_at(a, 0) == "list"@ {
            Some(Ok((TeacherOp::ListCourses, Seq::empty(), 0i64)))
        } else {
            Some(Err("用法: /course <create <码> <名> | list>"@))
        }
    } else if cmd == "/class"@ {
        if word_at(a, 1).len() == 0 || word_at(a, 2).len() == 0 {
            Some(Err("用法: /class create <课程码> <班级名>"@))
        } else {
            Some(Ok((TeacherOp::CreateClass, seq![word_at(a, 1), word_at(a, 2)], 0i64)))
        }
    } else if cmd == "/lesson"@ {
        if word_at(a, 1).len() == 0 || word_at(a, 2).len() == 0 || word_at(a, 3).len() == 0 {
            Some(Err("用法: /lesson create <课程码> <班级> <序号> <主题>"@))
        } else {
            Some(Ok((TeacherOp::CreateLesson, seq![word_at(a, 1), word_at(a, 2), word_at(a, 4)],
                lesson_number(word_at(a, 3)))))
        }
    } else if cmd == "/student"@ {
        if word_at(a, 0) == "add"@ && word_at(a, 1).len() > 0 && word_at(a, 2).len() > 0
            && word_at(a, 3).len() > 0 && word_at(a, 4).len() > 0 {
            Some(Ok((TeacherOp::AddStudent, seq![word_at(a, 1), word_at(a, 2), word_at(a, 3), word_at(a, 4)], 0i64)))
        } else {
            Some(Err("用法: /student add <学号> <姓名> <课程码> <班级名>"@))
        }
    } else if cmd == "/roster"@ {
        if word_at(a, 0).len() == 0 {
            Some(Err("用法: /roster <课程码>"@))
        } else {
            Some(Ok((TeacherOp::Roster, seq![word_at(a, 0)], 0i64)))
        }
    } else if cmd == "/import"@ {
        if word_at(a, 0).len() == 0 || word_at(a, 1).len() == 0 {
            Some(Err("用法: /import <课程码> <班级名>\n  将课程导入到该头，之后该头可独立修改（不影响其他头）"@))
        } else {
            Some(Ok((TeacherOp::Import, seq![word_at(a, 0), word_at(a, 1)], 0i64)))
        }
    } else if cmd == "/set"@ {
        if word_at(a, 0).len() == 0 || word_at(a, 1).len() == 0 || word_at(a, 2).len() == 0 {
            Some(Err("用法: /set <课程码> <班级名> <字段> <值>\n字段:\n  tools  — 工具白名单(JSON数组, 如 [\"read_file\",\"glob\"])\n  desc   — 课程描述\n  modes  — 允许模式(JSON数组, 如 [\"explore\",\"scaffold\"])\n示例: /set CS101 信工一班 tools [\"read_file\",\"glob\"]"@))
        } else {
            Some(Ok((TeacherOp::SetField, seq![word_at(a, 0), word_at(a, 1), word_at(a, 2), join_spec(a.skip(3), " "@)], 0i64)))
        }
    } else {
        None
    }
}

/// The word `i` of `ws`, empty past the end.
fn word(ws: &Vec<String>, i: usize) -> (r: String)
    ensures
        r@ == word_at(views(ws@), i as int),
{
    if i < ws.len() {
        ws[i].clone()
    } else {
        String::new()
    }
}

/// Whether `s` is empty.
fn blank(s: &String) -> (r: bool)
    ensures
        r == (s@.len() == 0),
{
    to_chars(s.as_str()).len() == 0
}

/// What the teacher command `input` asks (see `teacher_command_spec`): the
/// command and its arguments, the usage text when arguments are missing, or
/// none when it is no teacher command.
pub fn teacher_command(input: &str) -> (r: Option<Result<TeacherCommand, String>>)
    ensures
        match r {
            None => teacher_command_spec(input@) is None,
            Some(Err(u)) => teacher_command_spec(input@) == Some(Err::<(TeacherOp, Seq<Seq<char>>, i64), Seq<char>>(u@)),
            Some(Ok(c)) => teacher_command_spec(input@)
                == Some(Ok::<(TeacherOp, Seq<Seq<char>>, i64), Seq<char>>((c.op, views(c.args@), c.number))),
        },
{
    let c = to_chars(input);
    let w = words(c.as_slice());
    let cmd = word(&w, 0);
    let mut a = w.clone();
    assert(a@ == w@);
    if a.len() > 0 {
        a.remove(0);
        assert(views(a@) =~= views(w@).drop_first());
    } else {
        assert(views(a@) =~= Seq::<Seq<char>>::empty());
    }
    assert(views(a@) == teacher_args(input@));
    let cv = to_chars(cmd.as_str());
    let w0 = word(&a, 0);
    let w1 = word(&a, 1);
    let w2 = word(&a, 2);
    let w3 = word(&a, 3);
    let w4 = word(&a, 4);
    if eq_str(cv.as_slice(), "/course") {
        let act = to_chars(w0.as_str());
        if eq_str(act.as_slice(), "create") {
            if blank(&w1) || blank(&w2) {
                Some(Err("用法: /course create <课程码> <课程名>".to_string()))
            } else {
                let args = vec![w1, w2];
                assert(views(args@) =~= seq![word_at(views(a@), 1), word_at(views(a@), 2)]);
                Some(Ok(TeacherCommand { op: TeacherOp::CreateCourse, args, number: 0 }))
            }
        } else if eq_str(act.as_slice(), "list") {
            let args: Vec<String> = Vec::new();
            assert(views(args@) =~= Seq::<Seq<char>>::empty());
            Some(Ok(TeacherCommand { op: TeacherOp::ListCourses, args, number: 0 }))
        } else {
            Some(Err("用法: /course <create <码> <名> | list>".to_string()))
        }
    } else if eq_str(cv.as_slice(), "/class") {
        if blank(&w1) || blank(&w2) {
            Some(Err("用法: /class create <课程码> <班级名>".to_string()))
        } else {
            let args = vec![w1, w2];
            assert(views(args@) =~= seq![word_at(views(a@), 1), word_at(views(a@), 2)]);
            Some(Ok(TeacherCommand { op: TeacherOp::CreateClass, args, number: 0 }))
        }
    } else if eq_str(cv.as_slice(), "/lesson") {
        if blank(&w1) || blank(&w2) || blank(&w3) {
            Some(Err("用法: /lesson create <课程码> <班级> <序号> <主题>".to_string()))
        } else {
            let nc = to_chars(w3.as_str());
            let number = match parse_i64(nc.as_slice()) {
                Some(n) => n,
                None => 1,
            };
            let args = vec![w1, w2, w4];
            assert(views(args@) =~= seq![word_at(views(a@), 1), word_at(views(a@), 2), word_at(views(a@), 4)]);
            Some(Ok(TeacherCommand { op: TeacherOp::CreateLesson, args, number }))
        }
    } else if eq_str(cv.as_slice(), "/student") {
        let act = to_chars(w0.as_str());
        if eq_str(act.as_slice(), "add") && !blank(&w1) && !blank(&w2) && !blank(&w3) && !blank(&w4) {
            let args = vec![w1, w2, w3, w4];
            assert(views(args@) =~= seq![word_at(views(a@), 1), word_at(views(a@), 2), word_at(views(a@), 3), word_at(views(a@), 4)]);
            Some(Ok(TeacherCommand { op: TeacherOp::AddStudent, args, number: 0 }))
        } else {
            Some(Err("用法: /student add <学号> <姓名> <课程码> <班级名>".to_string()))
        }
    } else if eq_str(cv.as_slice(), "/roster") {
        if blank(&w0) {
            Some(Err("用法: /roster <课程码>".to_string()))
        } else {
            let args = vec![w0];
            assert(views(args@) =~= seq![word_at(views(a@), 0)]);
            Some(Ok(TeacherCommand { op: TeacherOp::Roster, args, number: 0 }))
        }
    } else if eq_str(cv.as_slice(), "/import") {
        if blank(&w0) || blank(&w1) {
            Some(Err("用法: /import <课程码> <班级名>\n  将课程导入到该头，之后该头可独立修改（不影响其他头）".to_string()))
        } else {
            let args = vec![w0, w1];
            assert(views(args@) =~= seq![word_at(views(a@), 0), word_at(views(a@), 1)]);
            Some(Ok(TeacherCommand { op: TeacherOp::Import, args, number: 0 }))
        }
    } else if eq_str(cv.as_slice(), "/set") {
        if blank(&w0) || blank(&w1) || blank(&w2) {
            Some(Err("用法: /set <课程码> <班级名> <字段> <值>\n字段:\n  tools  — 工具白名单(JSON数组, 如 [\"read_file\",\"glob\"])\n  desc   — 课程描述\n  modes  — 允许模式(JSON数组, 如 [\"explore\",\"scaffold\"])\n示例: /set CS101 信工一班 tools [\"read_file\",\"glob\"]".to_string()))
        } else {
            let mut rest: Vec<String> = Vec::new();
            let mut k: usize = 3;
            while k < a.len()
                invariant
                    3 <= k <= a@.len(),
                    views(rest@) == views(a@).subrange(3, k as int),
                decreases a@.len() - k,
            {
                let ghost before = rest@;
                let x = a[k].clone();
                rest.push(x);
                assert(rest@ == before.push(x));
                assert(views(rest@) =~= views(before).push(x@));
                assert(views(rest@) =~= views(a@).subrange(3, k + 1));
                k = k + 1;
            }
            assert(views(rest@) =~= views(a@).skip(3));
            let value = join(&rest, " ");
            let args = vec![w0, w1, w2, from_chars(value.as_slice())];
            assert(views(args@) =~= seq![word_at(views(a@), 0), word_at(views(a@), 1), word_at(views(a@), 2),
                join_spec(views(a@).skip(3), " "@)]);
            Some(Ok(TeacherCommand { op: TeacherOp::SetField, args, number: 0 }))
        }
    } else {
        None
    }
}

/// The course list of `/course list`: one `  code name` line per course,
/// or a note that there is none.
pub open spec fn course_list_text(cs: Seq<(Seq<char>, Seq<char>)>) -> Seq<char>
    decreases cs.len(),
{
    if cs.len() == 0 {
        Seq::empty()
    } else {
        course_list_text(cs.drop_last()) + "  "@ + cs.last().0 + " "@ + cs.last().1 + "\n"@
    }
}

/// The reply to the teacher command `c` (operation `op`, arguments `a`)
/// once the store answered `outcome`: the error after `❌`, else what the
/// command reports (nothing for the commands that only create).
pub open spec fn teacher_reply_spec(op: TeacherOp, a: Seq<Seq<char>>, outcome: Result<Seq<(Seq<char>, Seq<char>)>, Seq<char>>) -> Seq<char> {
    match outcome {
        Err(e) => "❌ "@ + e,
        Ok(cs) => match op {
            TeacherOp::ListCourses => if cs.len() == 0 { "（无课程）"@ } else { course_list_text(cs) },
            TeacherOp::Import => "✅ 课程 "@ + word_at(a, 0) + " 已导入到「"@ + word_at(a, 1)
                + "」\n该头现在可以独立修改课程参数，不影响其他头。\n修改: /set "@ + word_at(a, 0) + " "@ + word_at(a, 1)
                + " <tools|desc|modes> <值>"@,
            TeacherOp::SetField => "✅ 「"@ + word_at(a, 1) + "」的课程 "@ + word_at(a, 0) + " 已更新: "@ + word_at(a, 2)
                + "\n（此修改只影响该头，不影响其他头和课程模板）"@,
            _ => Seq::empty(),
        },
    }
}

/// The view of a course list.
pub open spec fn courses_view(cs: Seq<(String, String)>) -> Seq<(Seq<char>, Seq<char>)> {
    cs.map_values(|c: (String, String)| (c.0@, c.1@))
}

/// The reply to the teacher command `cmd` once the store answered
/// `outcome` (the courses for `/course list`, nothing for the others), see
/// `teacher_reply_spec`.
pub fn teacher_reply(cmd: &TeacherCommand, outcome: Result<Vec<(String, String)>, String>) -> (r: String)
    ensures
        r@ == teacher_reply_spec(cmd.op, views(cmd.args@), match outcome {
            Ok(cs) => Ok(courses_view(cs@)),
            Err(e) => Err(e@),
        }),
{
    let cs = match outcome {
        Err(e) => {
            let mut v = to_chars("❌ ");
            push_str(&mut v, e.as_str());
            return from_chars(v.as_slice());
        },
        Ok(cs) => cs,
    };
    let ghost a = views(cmd.args@);
    let w0 = word(&cmd.args, 0);
    let w1 = word(&cmd.args, 1);
    let w2 = word(&cmd.args, 2);
    match cmd.op {
        TeacherOp::ListCourses => {
            if cs.len() == 0 {
                return "（无课程）".to_string();
            }
            let mut v: Vec<char> = Vec::new();
            let mut i: usize = 0;
            while i < cs.len()
                invariant
                    i <= cs@.len(),
                    v@ == course_list_text(courses_view(cs@).take(i as int)),
                decreases cs@.len() - i,
            {
                assert(courses_view(cs@).take(i + 1).drop_last() =~= courses_view(cs@).take(i as int));
                push_str(&mut v, "  ");
                push_str(&mut v, cs[i].0.as_str());
                push_str(&mut v, " ");
                push_str(&mut v, cs[i].1.as_str());
                push_str(&mut v, "\n");
                i = i + 1;
            }
            assert(courses_view(cs@).take(cs@.len() as int) =~= courses_view(cs@));
            from_chars(v.as_slice())
        },
        TeacherOp::Import => {
            let mut v = to_chars("✅ 课程 ");
            push_str(&mut v, w0.as_str());
            push_str(&mut v, " 已导入到「");
            push_str(&mut v, w1.as_str());
            push_str(&mut v, "」\n该头现在可以独立修改课程参数，不影响其他头。\n修改: /set ");
            push_str(&mut v, w0.as_str());
            push_str(&mut v, " ");
            push_str(&mut v, w1.as_str());
            push_str(&mut v, " <tools|desc|modes> <值>");
            from_chars(v.as_slice())
        },
        TeacherOp::SetField => {
            let mut v = to_chars("✅ 「");
            push_str(&mut v, w1.as_str());
            push_str(&mut v, "」的课程 ");
            push_str(&mut v, w0.as_str());
            push_str(&mut v, " 已更新: ");
            push_str(&mut v, w2.as_str());
            push_str(&mut v, "\n（此修改只影响该头，不影响其他头和课程模板）");
            from_chars(v.as_slice())
        },
        _ => String::new(),
    }
}

/// The argument of a `/learn` message: the trimmed text after `/learn`.
pub open spec fn learn_arg_spec(content: Seq<char>) -> Seq<char> {
    let c = trim_spec(content);
    if has_prefix(c, "/learn"@) { trim_spec(c.skip(6)) } else { Seq::empty() }
}

/// The argument of the `/learn` message `content`.
pub fn learn_arg(content: &str) -> (r: String)
    ensures
        r@ == learn_arg_spec(content@),
{
    let c = to_chars(content);
    let t = trim(c.as_slice());
    let p = to_chars("/learn");
    proof {
        reveal_strlit("/learn");
    }
    if starts_with(t.as_slice(), p.as_slice()) {
        let rest = slice_to_vec(t.as_slice(), 6, t.len());
        assert(rest@ =~= t@.skip(6));
        let r = trim(rest.as_slice());
        from_chars(r.as_slice())
    } else {
        String::new()
    }
}

/// Length of the first token of `s`: the characters before the first
/// whitespace.
pub open spec fn token_len(s: Seq<char>) -> nat
    decreases s.len(),
{
    if s.len() == 0 || is_ws(s[0]) { 0 } else { 1 + token_len(s.drop_first()) }
}

/// `token_len` stays within `s`.
proof fn lemma_token_len_bound(s: Seq<char>)
    ensures
        token_len(s) <= s.len(),
    decreases s.len(),
{
    if s.len() > 0 && !is_ws(s[0]) {
        lemma_token_len_bound(s.drop_first());
    }
}

/// The first token of `arg` (empty when it starts with whitespace or is
/// empty).
pub fn first_token(arg: &str) -> (r: String)
    ensures
        r@ == arg@.take(token_len(arg@) as int),
{
    let c = to_chars(arg);
    let mut k: usize = 0;
    proof {
        lemma_token_len_bound(c@);
        assert(c@.skip(0) =~= c@);
    }
    while k < c.len() && !is_whitespace(c[k])
        invariant
            k <= c@.len(),
            token_len(c@) == k + token_len(c@.skip(k as int)),
        decreases c@.len() - k,
    {
        assert(c@.skip(k as int)[0] == c@[k as int]);
        assert(c@.skip(k as int).drop_first() =~= c@.skip(k + 1));
        k = k + 1;
    }
    proof {
        if k < c@.len() {
            assert(c@.skip(k as int)[0] == c@[k as int]);
        }
    }
    let t = slice_to_vec(c.as_slice(), 0, k);
    assert(t@ =~= c@.take(k as int));
    from_chars(t.as_slice())
}

/// What a `/learn` argument asks for.
#[derive(Debug, Clone, Copy, PartialEq, Eq, Structural)]
pub enum LearnKind {
    /// List the knowledge bases.
    List,
    /// Export a knowledge base.
    Export,
    /// Import an export file.
    Import,
    /// Reset learning progress.
    Reset,
    /// No argument: show the usage.
    Usage,
    /// Build from, or continue, the file or directory named by the first token.
    File,
    /// Continue or create the knowledge base named by the first token.
    Name,
}

/// A `/learn` argument read: what it asks for, its first token, and the
/// rest after that token, trimmed.
#[derive(Debug, Clone)]
pub struct LearnRequest {
    /// What it asks for.
    pub kind: LearnKind,
    /// The first token (path or name).
    pub token: String,
    /// The rest (a hint).
    pub rest: String,
}

/// The first token names a path: it holds `.` or `\`, starts with `/`,
/// `~/` or `./`, or names something that exists.
pub open spec fn looks_like_file(tok: Seq<char>, exists: bool) -> bool {
    tok.contains('.') || tok.contains('\\') || has_prefix(tok, "/"@) || has_prefix(tok, "~/"@)
        || has_prefix(tok, "./"@) || exists
}

/// What the `/learn` argument `arg` asks for; `token_exists` tells whether
/// its first token names an existing file or directory.
pub open spec fn learn_kind_spec(arg: Seq<char>, token_exists: bool) -> LearnKind {
    if arg == "list"@ || arg == "列表"@ {
        LearnKind::List
    } else if is_cmd(arg, "export"@) || is_cmd(arg, "导出"@) {
        LearnKind::Export
    } else if is_cmd(arg, "import"@) || is_cmd(arg, "导入"@) {
        LearnKind::Import
    } else if is_cmd(arg, "reset"@) || is_cmd(arg, "复位"@) {
        LearnKind::Reset
    } else if arg.len() == 0 {
        LearnKind::Usage
    } else if looks_like_file(arg.take(token_len(arg) as int), token_exists) {
        LearnKind::File
    } else {
        LearnKind::Name
    }
}

/// Whether `s` holds the character `c`.
fn has_char(s: &[char], c: char) -> (r: bool)
    ensures
        r == s@.contains(c),
{
    let mut i: usize = 0;
    while i < s.len()
        invariant
            i <= s@.len(),
            forall|j: int| 0 <= j < i ==> s@[j] != c,
        decreases s@.len() - i,
    {
        if s[i] == c {
            assert(s@[i as int] == c);
            return true;
        }
        i = i + 1;
    }
    false
}

/// The parts of a `/learn` argument after its first token: the token, and
/// the rest trimmed.
pub open spec fn token_and_rest(arg: Seq<char>) -> (Seq<char>, Seq<char>) {
    (arg.take(token_len(arg) as int), trim_spec(arg.skip(token_len(arg) as int)))
}

/// What the `/learn` argument `arg` asks for; `token_exists` tells whether
/// its first token names an existing file or directory.
pub fn learn_request(arg: &str, token_exists: bool) -> (r: LearnRequest)
    ensures
        r.kind == learn_kind_spec(arg@, token_exists),
        (r.token@, r.rest@) == token_and_rest(arg@),
{
    let a = to_chars(arg);
    let tok = first_token(arg);
    let t = to_chars(tok.as_str());
    proof {
        lemma_token_len_bound(a@);
    }
    let n = t.len();
    let rest0 = slice_to_vec(a.as_slice(), n, a.len());
    assert(rest0@ =~= a@.skip(token_len(a@) as int));
    let rest1 = trim(rest0.as_slice());
    let rest = from_chars(rest1.as_slice());
    let kind = if eq_str(a.as_slice(), "list") || eq_str(a.as_slice(), "列表") {
        LearnKind::List
    } else if is_command(a.as_slice(), "export") || is_command(a.as_slice(), "导出") {
        LearnKind::Export
    } else if is_command(a.as_slice(), "import") || is_command(a.as_slice(), "导入") {
        LearnKind::Import
    } else if is_command(a.as_slice(), "reset") || is_command(a.as_slice(), "复位") {
        LearnKind::Reset
    } else if a.len() == 0 {
        LearnKind::Usage
    } else {
        let p1 = to_chars("/");
        let p2 = to_chars("~/");
        let p3 = to_chars("./");
        if has_char(t.as_slice(), '.') || has_char(t.as_slice(), '\\') || starts_with(t.as_slice(), p1.as_slice())
            || starts_with(t.as_slice(), p2.as_slice()) || starts_with(t.as_slice(), p3.as_slice()) || token_exists {
            LearnKind::File
        } else {
            LearnKind::Name
        }
    };
    LearnRequest { kind, token: tok, rest }
}

/// Extensions of documents that are parsed rather than read as text.
pub open spec fn binary_doc_spec(ext: Seq<char>) -> bool {
    ext == "pdf"@ || ext == "docx"@ || ext == "pptx"@ || ext == "xlsx"@ || ext == "xls"@ || ext == "png"@
        || ext == "jpg"@ || ext == "jpeg"@ || ext == "bmp"@ || ext == "gif"@ || ext == "webp"@ || ext == "tif"@
        || ext == "tiff"@
}

/// Whether a file with extension `ext` (lower case) is a document to parse.
pub fn is_binary_doc(ext: &str) -> (r: bool)
    ensures
        r == binary_doc_spec(ext@),
{
    let e = to_chars(ext);
    let s = e.as_slice();
    eq_str(s, "pdf") || eq_str(s, "docx") || eq_str(s, "pptx") || eq_str(s, "xlsx") || eq_str(s, "xls")
        || eq_str(s, "png") || eq_str(s, "jpg") || eq_str(s, "jpeg") || eq_str(s, "bmp") || eq_str(s, "gif")
        || eq_str(s, "webp") || eq_str(s, "tif") || eq_str(s, "tiff")
}

/// A character kept in a file name: alphanumeric, `-` or `_`.
pub open spec fn name_char_kept(c: char) -> bool {
    is_alnum(c) || c == '-' || c == '_'
}

/// A file name with every other character replaced by `_`.
pub fn sanitize_filename(name: &str) -> (r: String)
    ensures
        r@.len() == name@.len(),
        forall|i: int| 0 <= i < name@.len() ==> #[trigger] r@[i] == if name_char_kept(name@[i]) { name@[i] } else { '_' },
{
    let c = to_chars(name);
    let mut out: Vec<char> = Vec::new();
    let mut i: usize = 0;
    while i < c.len()
        invariant
            i <= c@.len(),
            c@ == name@,
            out@.len() == i,
            forall|j: int| 0 <= j < i ==> #[trigger] out@[j] == if name_char_kept(c@[j]) { c@[j] } else { '_' },
        decreases c@.len() - i,
    {
        let ch = c[i];
        if is_alphanumeric(ch) || ch == '-' || ch == '_' {
            out.push(ch);
        } else {
            out.push('_');
        }
        i = i + 1;
    }
    from_chars(out.as_slice())
}

// ---------------------------------------------------------------------------
// `/model`
// ---------------------------------------------------------------------------

/// What a `/model` message asks for.
#[derive(Debug, Clone)]
pub enum ModelCommand {
    /// Show the current model.
    Show,
    /// Switch to the named model.
    Switch(String),
    /// `set` without a model name.
    SwitchUsage,
    /// List the configured providers and their models.
    List,
    /// Anything else: show the usage.
    Usage,
}

/// The argument of a `/model` message: the text after its leading
/// `/model`s, trimmed.
pub open spec fn model_rest(input: Seq<char>) -> Seq<char> {
    trim_spec(strip_prefix_repeated(input, "/model"@))
}

/// What the `/model` message `input` asks for.
pub open spec fn model_command_spec(input: Seq<char>) -> ModelCommand {
    let rest = model_rest(input);
    if rest.len() == 0 {
        ModelCommand::Show
    } else if has_prefix(rest, "set "@) {
        if trim_spec(rest.skip(4)).len() == 0 { ModelCommand::SwitchUsage } else { ModelCommand::Switch(arbitrary()) }
    } else if rest == "list"@ {
        ModelCommand::List
    } else {
        ModelCommand::Usage
    }
}

/// What the `/model` message `input` asks for.
pub fn model_command_of(input: &str) -> (r: ModelCommand)
    ensures
        match (r, model_command_spec(input@)) {
            (ModelCommand::Show, ModelCommand::Show) => true,
            (ModelCommand::Switch(m), ModelCommand::Switch(_)) => m@ == trim_spec(model_rest(input@).skip(4)),
            (ModelCommand::SwitchUsage, ModelCommand::SwitchUsage) => true,
            (ModelCommand::List, ModelCommand::List) => true,
            (ModelCommand::Usage, ModelCommand::Usage) => true,
            _ => false,
        },
{
    let c = to_chars(input);
    let p = to_chars("/model");
    proof {
        reveal_strlit("/model");
    }
    let k = repeated_prefix_end(c.as_slice(), p.as_slice(), 0);
    assert(c@.skip(0) =~= c@);
    let r0 = slice_to_vec(c.as_slice(), k, c.len());
    assert(r0@ =~= c@.skip(k as int));
    let rest = trim(r0.as_slice());
    let set = to_chars("set ");
    proof {
        reveal_strlit("set ");
    }
    if rest.len() == 0 {
        ModelCommand::Show
    } else if starts_with(rest.as_slice(), set.as_slice()) {
        let m0 = slice_to_vec(rest.as_slice(), 4, rest.len());
        assert(m0@ =~= rest@.skip(4));
        let m = trim(m0.as_slice());
        if m.len() == 0 {
            ModelCommand::SwitchUsage
        } else {
            ModelCommand::Switch(from_chars(m.as_slice()))
        }
    } else if eq_str(rest.as_slice(), "list") {
        ModelCommand::List
    } else {
        ModelCommand::Usage
    }
}

/// The model list line of provider `e`, if it is listed: providers with a
/// key, and the local `ollama` and `lmstudio` ones.
pub open spec fn model_line(e: (String, ProviderConfig)) -> Seq<Seq<char>> {
    if e.1.api_key@.len() == 0 && e.0@ != "ollama"@ && e.0@ != "lmstudio"@ {
        Seq::empty()
    } else {
        let model = match e.1.model { Some(m) => m@, None => Seq::empty() };
        if model.len() == 0 {
            seq!["  · "@ + e.0@ + ": (使用默认模型)"@]
        } else {
            seq!["  · "@ + e.0@ + ": "@ + model]
        }
    }
}

/// The model list lines of the providers `ps`, in order.
pub open spec fn model_lines(ps: Seq<(String, ProviderConfig)>) -> Seq<Seq<char>>
    decreases ps.len(),
{
    if ps.len() == 0 { Seq::empty() } else { model_lines(ps.drop_last()) + model_line(ps.last()) }
}

/// The reply to `/model list` over the providers `ps`.
pub open spec fn model_list_spec(ps: Seq<(String, ProviderConfig)>) -> Seq<char> {
    let ls = model_lines(ps);
    "可用模型列表:\n"@ + (if ls.len() == 0 { "(无已配置的 provider)"@ } else { crate::text::join_spec(ls, "\n"@) })
        + "\n切换: /model set <模型名称>"@
}

/// The reply to `/model list`.
pub fn model_list_text(providers: &Vec<(String, ProviderConfig)>) -> (r: String)
    ensures
        r@ == model_list_spec(providers@),
{
    let mut ls: Vec<String> = Vec::new();
    let mut i: usize = 0;
    while i < providers.len()
        invariant
            i <= providers@.len(),
            crate::text::views(ls@) == model_lines(providers@.take(i as int)),
        decreases providers@.len() - i,
    {
        let ghost before = crate::text::views(ls@);
        assert(providers@.take(i + 1).drop_last() =~= providers@.take(i as int));
        assert(providers@.take(i + 1).last() == providers@[i as int]);
        let e = &providers[i];
        let n = to_chars(e.0.as_str());
        if e.1.api_key.as_str().unicode_len() == 0 && !eq_str(n.as_slice(), "ollama") && !eq_str(n.as_slice(), "lmstudio") {
            assert(crate::text::views(ls@) =~= before + model_line(providers@[i as int]));
        } else {
            let mut v = to_chars("  · ");
            push_str(&mut v, e.0.as_str());
            let has_model = match &e.1.model {
                Some(m) => m.as_str().unicode_len() > 0,
                None => false,
            };
            if has_model {
                push_str(&mut v, ": ");
                match &e.1.model {
                    Some(m) => push_str(&mut v, m.as_str()),
                    None => {},
                }
            } else {
                push_str(&mut v, ": (使用默认模型)");
            }
            ls.push(from_chars(v.as_slice()));
            assert(crate::text::views(ls@) =~= before + model_line(providers@[i as int]));
        }
        i = i + 1;
    }
    assert(providers@.take(providers@.len() as int) =~= providers@);
    let mut out = to_chars("可用模型列表:\n");
    if ls.len() == 0 {
        push_str(&mut out, "(无已配置的 provider)");
    } else {
        let j = crate::text::join(&ls, "\n");
        extend_chars(&mut out, j.as_slice());
    }
    push_str(&mut out, "\n切换: /model set <模型名称>");
    from_chars(out.as_slice())
}

/// The reply to a `/model` command: the current model `current`, the
/// confirmation of a switch, the list over `providers`, or the usage.
pub open spec fn model_reply_spec(cmd: ModelCommand, current: Seq<char>, ps: Seq<(String, ProviderConfig)>) -> Seq<char> {
    match cmd {
        ModelCommand::Show => "当前模型: "@ + current + "\n切换: /model set <模型名称>\n列表: /model list"@,
        ModelCommand::Switch(m) => "✅ 模型已切换为: "@ + m@ + "（已立即生效）"@,
        ModelCommand::SwitchUsage => "用法: /model set <模型名称>"@,
        ModelCommand::List => model_list_spec(ps),
        ModelCommand::Usage =>
            "用法:\n  /model            — 查看当前模型\n  /model set <名称> — 切换模型（立即生效）\n  /model list       — 列出可用模型"@,
    }
}

/// The reply to the `/model` command `cmd`.
pub fn model_reply(cmd: &ModelCommand, current: &str, providers: &Vec<(String, ProviderConfig)>) -> (r: String)
    ensures
        r@ == model_reply_spec(*cmd, current@, providers@),
{
    match cmd {
        ModelCommand::Show => {
            let mut v = to_chars("当前模型: ");
            push_str(&mut v, current);
            push_str(&mut v, "\n切换: /model set <模型名称>\n列表: /model list");
            from_chars(v.as_slice())
        },
        ModelCommand::Switch(m) => {
            let mut v = to_chars("✅ 模型已切换为: ");
            push_str(&mut v, m.as_str());
            push_str(&mut v, "（已立即生效）");
            from_chars(v.as_slice())
        },
        ModelCommand::SwitchUsage => "用法: /model set <模型名称>".to_string(),
        ModelCommand::List => model_list_text(providers),
        ModelCommand::Usage =>
            "用法:\n  /model            — 查看当前模型\n  /model set <名称> — 切换模型（立即生效）\n  /model list       — 列出可用模型".to_string(),
    }
}

/// The provider whose model a switch also sets: the default provider, or
/// `deepseek` when none is set.
pub open spec fn switch_target(default_provider: Seq<char>) -> Seq<char> {
    if default_provider.len() == 0 { "deepseek"@ } else { default_provider }
}

/// Records a switch to `model` in the settings: the `[api]` model, and the
/// model of the target provider when it is configured.
pub fn apply_model_switch(
    api: &mut crate::config::ApiConfig,
    providers: &mut Vec<(String, ProviderConfig)>,
    default_provider: &str,
    model: &str,
)
    ensures
        final(api).model@ == model@,
        final(api).base_url == old(api).base_url,
        match crate::config::provider_index(crate::config::providers_text(old(providers)@), switch_target(default_provider@)) {
            Some(i) => final(providers)@.len() == old(providers)@.len()
                && (forall|j: int| 0 <= j < old(providers)@.len() && j != i ==> #[trigger] final(providers)@[j] == old(providers)@[j])
                && final(providers)@[i].0 == old(providers)@[i].0
                && final(providers)@[i].1.api_key == old(providers)@[i].1.api_key
                && final(providers)@[i].1.base_url == old(providers)@[i].1.base_url
                && final(providers)@[i].1.api_type == old(providers)@[i].1.api_type
                && (final(providers)@[i].1.model matches Some(m) && m@ == model@),
            None => final(providers)@ == old(providers)@,
        },
{
    api.model = model.to_string();
    let dp = to_chars(default_provider);
    let target = if dp.len() == 0 { to_chars("deepseek") } else { dp };
    match crate::config::find_provider(providers, target.as_slice()) {
        Some(i) => {
            let old_p = &providers[i];
            let np = ProviderConfig {
                api_key: old_p.1.api_key.clone(),
                base_url: match &old_p.1.base_url { Some(b) => Some(b.clone()), None => None },
                model: Some(model.to_string()),
                api_type: old_p.1.api_type.clone(),
            };
            let name = old_p.0.clone();
            providers.set(i, (name, np));
        },
        None => {},
    }
}

// ---------------------------------------------------------------------------
// Study material
// ---------------------------------------------------------------------------

/// Largest number of characters of study material put into the prompt
/// whole.
pub const INLINE_STUDY_CHARS: usize = 24000;

/// Characters per part of study material that is too long.
pub const CHUNK_CHARS: usize = 20000;

/// The parts so far and the part being filled, after one more line: the
/// line with its newline goes into the current part, which is first closed
/// when it is not empty and the line would take it over the part size.
pub open spec fn chunk_step(st: (Seq<Seq<char>>, Seq<char>), line: Seq<char>) -> (Seq<Seq<char>>, Seq<char>) {
    if st.1.len() + line.len() + 1 > 20000 && st.1.len() > 0 {
        (st.0.push(st.1), line + "\n"@)
    } else {
        (st.0, st.1 + line + "\n"@)
    }
}

/// The parts and the current part after the lines `ls`.
pub open spec fn chunk_fold(ls: Seq<Seq<char>>) -> (Seq<Seq<char>>, Seq<char>)
    decreases ls.len(),
{
    if ls.len() == 0 { (Seq::empty(), Seq::empty()) } else { chunk_step(chunk_fold(ls.drop_last()), ls.last()) }
}

/// The parts of study material `content`: its lines, each with a newline,
/// gathered into parts of at most 20000 characters where the lines allow.
pub open spec fn study_chunks(content: Seq<char>) -> Seq<Seq<char>> {
    let st = chunk_fold(lines_spec(content));
    if st.1.len() > 0 { st.0.push(st.1) } else { st.0 }
}

/// The texts `ps` one after the other.
pub open spec fn flat(ps: Seq<Seq<char>>) -> Seq<char>
    decreases ps.len(),
{
    if ps.len() == 0 { Seq::empty() } else { flat(ps.drop_last()) + ps.last() }
}

/// The lines `ls`, each followed by a newline.
pub open spec fn with_newlines(ls: Seq<Seq<char>>) -> Seq<char>
    decreases ls.len(),
{
    if ls.len() == 0 { Seq::empty() } else { with_newlines(ls.drop_last()) + ls.last() + "\n"@ }
}

/// The parts and the current part together hold every line with its
/// newline, in order.
pub proof fn lemma_chunk_fold_cover(ls: Seq<Seq<char>>)
    ensures
        flat(chunk_fold(ls).0) + chunk_fold(ls).1 == with_newlines(ls),
    decreases ls.len(),
{
    if ls.len() > 0 {
        lemma_chunk_fold_cover(ls.drop_last());
        let st = chunk_fold(ls.drop_last());
        let l = ls.last();
        if st.1.len() + l.len() + 1 > 20000 && st.1.len() > 0 {
            assert(st.0.push(st.1).drop_last() =~= st.0);
            assert(flat(st.0.push(st.1)) + (l + "\n"@) =~= flat(st.0) + st.1 + l + "\n"@);
        } else {
            assert(flat(st.0) + (st.1 + l + "\n"@) =~= flat(st.0) + st.1 + l + "\n"@);
        }
    }
}

/// Cutting study material into parts loses and reorders nothing: the
/// parts, one after the other, are its lines each followed by a newline.
pub proof fn lemma_study_chunks_cover(content: Seq<char>)
    ensures
        flat(study_chunks(content)) == with_newlines(lines_spec(content)),
{
    let st = chunk_fold(lines_spec(content));
    lemma_chunk_fold_cover(lines_spec(content));
    if st.1.len() > 0 {
        assert(st.0.push(st.1).drop_last() =~= st.0);
    } else {
        assert(flat(st.0) + st.1 =~= flat(st.0));
    }
}

/// Study material as it goes to the model: none when `content` is short
/// enough to put into the prompt whole, else its parts.
pub fn study_parts(content: &str) -> (r: Option<Vec<String>>)
    ensures
        match r {
            None => content@.len() <= 24000,
            Some(ps) => content@.len() > 24000 && crate::text::views(ps@) == study_chunks(content@),
        },
{
    let c = to_chars(content);
    if c.len() <= INLINE_STUDY_CHARS {
        return None;
    }
    let ls = lines(c.as_slice());
    let ghost lv = ls@.map_values(|v: Vec<char>| v@);
    assert(lv =~= lines_spec(content@));
    let mut parts: Vec<String> = Vec::new();
    let mut buf: Vec<char> = Vec::new();
    let mut i: usize = 0;
    assert(lv.take(0) =~= Seq::<Seq<char>>::empty());
    while i < ls.len()
        invariant
            i <= ls@.len(),
            lv == ls@.map_values(|v: Vec<char>| v@),
            (crate::text::views(parts@), buf@) == chunk_fold(lv.take(i as int)),
        decreases ls@.len() - i,
    {
        assert(lv.take(i + 1).drop_last() =~= lv.take(i as int));
        assert(lv.take(i + 1).last() == ls@[i as int]@);
        let l = &ls[i];
        let ghost before = crate::text::views(parts@);
        let ghost b0 = buf@;
        proof {
            reveal_strlit("\n");
        }
        if (buf.len() as u128) + (l.len() as u128) + 1 > 20000 && buf.len() > 0 {
            parts.push(from_chars(buf.as_slice()));
            assert(crate::text::views(parts@) =~= before.push(buf@));
            buf = Vec::new();
            extend_chars(&mut buf, l.as_slice());
            buf.push('\n');
            assert(buf@ =~= l@ + "\n"@);
        } else {
            extend_chars(&mut buf, l.as_slice());
            buf.push('\n');
            assert(buf@ =~= b0 + l@ + "\n"@);
        }
        i = i + 1;
    }
    assert(lv.take(ls@.len() as int) =~= lv);
    if buf.len() > 0 {
        let ghost before = crate::text::views(parts@);
        parts.push(from_chars(buf.as_slice()));
        assert(crate::text::views(parts@) =~= before.push(buf@));
    }
    Some(parts)
}

/// The instruction that closes learning mode on `topic` with a summary.
pub fn stop_kickoff(topic: &str) -> (r: String)
    ensures
        r@ == "[系统] 用户结束了「"@ + topic@ + "」的学习。请调用 kb_stats(topic=\""@ + topic@
            + "\", html=true) 生成 Bento 战绩，把 HTML 文件路径（浏览器打开）连同简短学习小结一起给用户，然后停止教学行为。注意：不要向用户展示你的思考过程、计划步骤或任何内部推理，直接给出最终结果。回复必须全部使用中文。"@,
{
    let mut v = to_chars("[系统] 用户结束了「");
    push_str(&mut v, topic);
    push_str(&mut v, "」的学习。请调用 kb_stats(topic=\"");
    push_str(&mut v, topic);
    push_str(&mut v, "\", html=true) 生成 Bento 战绩，把 HTML 文件路径（浏览器打开）连同简短学习小结一起给用户，然后停止教学行为。注意：不要向用户展示你的思考过程、计划步骤或任何内部推理，直接给出最终结果。回复必须全部使用中文。");
    from_chars(v.as_slice())
}

/// The instruction for an interim summary of learning `topic`.
pub fn summary_kickoff(topic: &str) -> (r: String)
    ensures
        r@ == "[系统] 用户想看「"@ + topic@ + "」的阶段总结（不退出学习模式）。请调用 kb_stats(topic=\""@ + topic@
            + "\", html=true) 生成 Bento 战绩，把 HTML 文件路径连同阶段性小结（已点亮节点、平均掌握度、薄弱点、下一步建议）一起给用户，然后询问是继续下一个知识点还是休息。注意：不要向用户展示你的思考过程、计划步骤或任何内部推理，直接给出最终结果。回复必须全部使用中文。"@,
{
    let mut v = to_chars("[系统] 用户想看「");
    push_str(&mut v, topic);
    push_str(&mut v, "」的阶段总结（不退出学习模式）。请调用 kb_stats(topic=\"");
    push_str(&mut v, topic);
    push_str(&mut v, "\", html=true) 生成 Bento 战绩，把 HTML 文件路径连同阶段性小结（已点亮节点、平均掌握度、薄弱点、下一步建议）一起给用户，然后询问是继续下一个知识点还是休息。注意：不要向用户展示你的思考过程、计划步骤或任何内部推理，直接给出最终结果。回复必须全部使用中文。");
    from_chars(v.as_slice())
}

} // verus!

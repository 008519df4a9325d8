//! Sub-agents: the prompts they are given, what their replies make of a
//! result, and how skill refinement applies a `skill_manage` call to the
//! skill engine.

use vstd::prelude::*;
use vstd::string::{StringExecFns, StrSliceExecFns};
use crate::skill::{RunAs, SkillEngine, create_allowed, first_index_of, fresh_skill, opt_str_view, patched};
use crate::text::{contains_seq, decimal, from_chars, push_str, str_contains, to_chars};

verus! {

/// The result of a sub-agent run.
#[derive(Debug, Clone)]
pub struct SubAgentResult {
    /// Its output text.
    pub output: String,
    /// Its run time in milliseconds.
    pub duration_ms: u64,
    /// Whether it succeeded.
    pub success: bool,
}

/// The system prompt of a sub-agent given `task` in `context`.
pub open spec fn sub_agent_prompt_spec(task: Seq<char>, context: Seq<char>) -> Seq<char> {
    "你是一个专注的助手。请完成以下任务，直接给出结果，不要多余的解释。\n\n## 任务\n"@ + task
        + "\n\n## 上下文\n"@ + context + "\n\n请基于以上信息完成任务并返回结果。"@
}

/// The system prompt of a sub-agent given `task` in `context`.
pub fn sub_agent_prompt(task: &str, context: &str) -> (r: String)
    ensures
        r@ == sub_agent_prompt_spec(task@, context@),
{
    let mut v = to_chars("你是一个专注的助手。请完成以下任务，直接给出结果，不要多余的解释。\n\n## 任务\n");
    push_str(&mut v, task);
    push_str(&mut v, "\n\n## 上下文\n");
    push_str(&mut v, context);
    push_str(&mut v, "\n\n请基于以上信息完成任务并返回结果。");
    from_chars(v.as_slice())
}

/// The result of a sub-agent whose request gave `reply`: the text of the
/// first choice (none when it has no text), a note when there was no
/// choice, or the error.
pub open spec fn sub_agent_result_spec(reply: Result<Option<Option<Seq<char>>>, Seq<char>>) -> (Seq<char>, bool) {
    match reply {
        Ok(Some(t)) => (match t { Some(x) => x, None => Seq::empty() }, true),
        Ok(None) => ("子 Agent 未返回结果"@, false),
        Err(e) => ("子 Agent 执行失败: "@ + e, false),
    }
}

/// The text of an optional first-choice text.
pub open spec fn reply_view(reply: Result<Option<Option<String>>, String>) -> Result<Option<Option<Seq<char>>>, Seq<char>> {
    match reply {
        Ok(Some(Some(t))) => Ok(Some(Some(t@))),
        Ok(Some(None)) => Ok(Some(None)),
        Ok(None) => Ok(None),
        Err(e) => Err(e@),
    }
}

/// The result of a sub-agent run that took `elapsed_ms` and whose request
/// gave `reply`: `Ok` with the first choice's text (if it had a choice), or
/// the error's text.
pub fn sub_agent_result(reply: Result<Option<Option<String>>, String>, elapsed_ms: u64) -> (r: SubAgentResult)
    ensures
        (r.output@, r.success) == sub_agent_result_spec(reply_view(reply)),
        r.duration_ms == elapsed_ms,
{
    match reply {
        Ok(Some(t)) => {
            let output = match t {
                Some(x) => x,
                None => String::new(),
            };
            SubAgentResult { output, duration_ms: elapsed_ms, success: true }
        },
        Ok(None) => SubAgentResult { output: "子 Agent 未返回结果".to_string(), duration_ms: elapsed_ms, success: false },
        Err(e) => {
            let mut v = to_chars("子 Agent 执行失败: ");
            push_str(&mut v, e.as_str());
            SubAgentResult { output: from_chars(v.as_slice()), duration_ms: elapsed_ms, success: false }
        },
    }
}

/// The system prompt of skill refinement over one exchange, allowing
/// `max_iterations` tool rounds.
pub open spec fn skill_refine_prompt_spec(user: Seq<char>, assistant: Seq<char>, max_iterations: u32) -> Seq<char> {
    "你是一个技能提炼助手。审查以下对话，判断是否有可固化的经验。\n规则：\n1. 如果对话中有经过试错、调整方向或用户期望不同做法的经验，用 skill_manage 创建或更新技能\n2. 如果没什么值得保存的，回复 'Nothing to save.'\n3. 最多执行 "@
        + decimal(max_iterations as nat)
        + " 轮工具调用\n4. 技能名称用小写英文+短横线\n\n当前对话：\n用户: "@ + user + "\nAI: "@ + assistant
}

/// The system prompt of skill refinement over one exchange.
pub fn skill_refine_prompt(user_msg: &str, assistant_msg: &str, max_iterations: u32) -> (r: String)
    ensures
        r@ == skill_refine_prompt_spec(user_msg@, assistant_msg@, max_iterations),
{
    let mut v = to_chars("你是一个技能提炼助手。审查以下对话，判断是否有可固化的经验。\n规则：\n1. 如果对话中有经过试错、调整方向或用户期望不同做法的经验，用 skill_manage 创建或更新技能\n2. 如果没什么值得保存的，回复 'Nothing to save.'\n3. 最多执行 ");
    let d = crate::text::decimal_chars(max_iterations as u64);
    crate::text::extend_chars(&mut v, d.as_slice());
    push_str(&mut v, " 轮工具调用\n4. 技能名称用小写英文+短横线\n\n当前对话：\n用户: ");
    push_str(&mut v, user_msg);
    push_str(&mut v, "\nAI: ");
    push_str(&mut v, assistant_msg);
    from_chars(v.as_slice())
}

/// The system prompt of memory refinement over one exchange.
pub open spec fn memory_refine_prompt_spec(user: Seq<char>, assistant: Seq<char>) -> Seq<char> {
    "你是用户画像助手。审查以下对话中是否有值得跨会话记住的用户偏好、纠正或个人信息。\n规则：\n1. 如果发现值得记住的用户事实，用 memory(action='add', target='user', content='...') 记录下来\n2. 如果没有值得记录的内容，回复 'Nothing to save.'\n3. 只记录明确表达的用户事实，不要猜测或推断\n4. 内容要简洁完整，如'用户偏好 Python 而非 JavaScript'\n\n当前对话：\n用户: "@
        + user + "\nAI: "@ + assistant
}

/// The system prompt of memory refinement over one exchange.
pub fn memory_refine_prompt(user_msg: &str, assistant_msg: &str) -> (r: String)
    ensures
        r@ == memory_refine_prompt_spec(user_msg@, assistant_msg@),
{
    let mut v = to_chars("你是用户画像助手。审查以下对话中是否有值得跨会话记住的用户偏好、纠正或个人信息。\n规则：\n1. 如果发现值得记住的用户事实，用 memory(action='add', target='user', content='...') 记录下来\n2. 如果没有值得记录的内容，回复 'Nothing to save.'\n3. 只记录明确表达的用户事实，不要猜测或推断\n4. 内容要简洁完整，如'用户偏好 Python 而非 JavaScript'\n\n当前对话：\n用户: ");
    push_str(&mut v, user_msg);
    push_str(&mut v, "\nAI: ");
    push_str(&mut v, assistant_msg);
    from_chars(v.as_slice())
}

/// The result of memory refinement whose request gave `reply`: the first
/// choice's text, successful unless it says there is nothing to save.
pub open spec fn memory_refine_result_spec(reply: Result<Option<Option<Seq<char>>>, Seq<char>>) -> (Seq<char>, bool) {
    match reply {
        Ok(Some(t)) => {
            let x = match t { Some(x) => x, None => Seq::empty() };
            ("记忆审查: "@ + x, !contains_seq(x, "Nothing to save"@))
        },
        Ok(None) => ("记忆审查无结果"@, false),
        Err(e) => ("记忆审查失败: "@ + e, false),
    }
}

/// The result of memory refinement that took `elapsed_ms`.
pub fn memory_refine_result(reply: Result<Option<Option<String>>, String>, elapsed_ms: u64) -> (r: SubAgentResult)
    ensures
        (r.output@, r.success) == memory_refine_result_spec(reply_view(reply)),
        r.duration_ms == elapsed_ms,
{
    match reply {
        Ok(Some(t)) => {
            let x = match t {
                Some(x) => x,
                None => String::new(),
            };
            let xc = to_chars(x.as_str());
            let ok = !str_contains(xc.as_slice(), "Nothing to save");
            let mut v = to_chars("记忆审查: ");
            push_str(&mut v, x.as_str());
            SubAgentResult { output: from_chars(v.as_slice()), duration_ms: elapsed_ms, success: ok }
        },
        Ok(None) => SubAgentResult { output: "记忆审查无结果".to_string(), duration_ms: elapsed_ms, success: false },
        Err(e) => {
            let mut v = to_chars("记忆审查失败: ");
            push_str(&mut v, e.as_str());
            SubAgentResult { output: from_chars(v.as_slice()), duration_ms: elapsed_ms, success: false }
        },
    }
}

/// The final result of skill refinement from the model's closing text:
/// successful unless it reports a failure or that there is nothing to save.
pub fn refine_final_result(text: String, elapsed_ms: u64) -> (r: SubAgentResult)
    ensures
        r.output@ == text@,
        r.success == (!contains_seq(text@, "失败"@) && !contains_seq(text@, "Nothing to save"@)),
        r.duration_ms == elapsed_ms,
{
    let c = to_chars(text.as_str());
    let ok = !str_contains(c.as_slice(), "失败") && !str_contains(c.as_slice(), "Nothing to save");
    SubAgentResult { output: text, duration_ms: elapsed_ms, success: ok }
}

/// The body of a skill that refinement creates.
pub open spec fn refined_body_spec(name: Seq<char>, description: Seq<char>, body: Seq<char>) -> Seq<char> {
    "---\nname: "@ + name + "\ndescription: "@ + description + "\nrun_as: subagent\n---\n\n# "@ + name + "\n\n"@ + body
}

/// The body of a skill that refinement creates.
pub fn refined_body(name: &str, description: &str, body: &str) -> (r: String)
    ensures
        r@ == refined_body_spec(name@, description@, body@),
{
    let mut v = to_chars("---\nname: ");
    push_str(&mut v, name);
    push_str(&mut v, "\ndescription: ");
    push_str(&mut v, description);
    push_str(&mut v, "\nrun_as: subagent\n---\n\n# ");
    push_str(&mut v, name);
    push_str(&mut v, "\n\n");
    push_str(&mut v, body);
    from_chars(v.as_slice())
}

/// Applies a `skill_manage` call of refinement to the engine: an existing
/// skill gets the new description and body, else a sub-agent skill is
/// created; the note for the model.
pub fn apply_skill_manage(engine: &mut SkillEngine, name: &str, description: &str, body: &str, category: Option<&str>) -> (r: String)
    requires
        old(engine).wf(),
    ensures
        final(engine).wf(),
        final(engine).dir() == old(engine).dir(),
        match first_index_of(old(engine).skills(), name@) {
            Some(i) => r@ == "已更新技能「"@ + name@ + "」"@
                && final(engine).skills().len() == old(engine).skills().len()
                && patched(old(engine).skills()[i], final(engine).skills()[i], Some(description@), Some(body@), None, None),
            None => r@ == "已创建技能「"@ + name@ + "」"@
                && if create_allowed(old(engine).skills(), name@, opt_str_view(category)) {
                    &&& final(engine).skills().len() == old(engine).skills().len() + 1
                    &&& final(engine).skills().drop_last() == old(engine).skills()
                    &&& fresh_skill(final(engine).skills().last(), name@, opt_str_view(category), description@,
                        refined_body_spec(name@, description@, body@), RunAs::Subagent)
                } else {
                    final(engine).skills() == old(engine).skills()
                },
        },
{
    match engine.get(name) {
        Some(_) => {
            let _ = engine.update_skill(name, Some(description), Some(body), None, None);
            let mut v = to_chars("已更新技能「");
            push_str(&mut v, name);
            push_str(&mut v, "」");
            from_chars(v.as_slice())
        },
        None => {
            let b = refined_body(name, description, body);
            let res = engine.create_with_category(name, category, description, b.as_str(), RunAs::Subagent);
            let mut v = to_chars("已创建技能「");
            push_str(&mut v, name);
            push_str(&mut v, "」");
            from_chars(v.as_slice())
        },
    }
}

/// The note for a tool call that refinement cannot run.
pub fn unsupported_tool_note(tool_name: &str) -> (r: String)
    ensures
        r@ == "工具「"@ + tool_name@ + "」执行失败（自动提炼仅支持 skill_manage）"@,
{
    let mut v = to_chars("工具「");
    push_str(&mut v, tool_name);
    push_str(&mut v, "」执行失败（自动提炼仅支持 skill_manage）");
    from_chars(v.as_slice())
}

} // verus!

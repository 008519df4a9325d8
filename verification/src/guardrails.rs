//! Guardrails after the repair pipeline: tool calls must name a registered
//! tool and carry its required arguments; failures become a correction
//! message for the model.

use vstd::prelude::*;
use crate::json::{json_member, json_member_spec};
use crate::repair::RepairedToolCall;
use crate::text::{eq_str, extend_chars, from_chars, join, join_spec, push_str, to_chars, views};

verus! {

/// Why a tool call failed validation.
#[derive(Debug, Clone)]
pub enum ValidationError {
    /// No tool of that name.
    UnknownTool(String),
    /// A required argument is missing.
    MissingRequiredParam {
        /// The tool.
        tool: String,
        /// The argument.
        param: String,
    },
}

/// The outcome of validating tool calls.
#[derive(Debug, Clone)]
pub struct ValidationResult {
    /// The calls that passed.
    pub valid_calls: Vec<RepairedToolCall>,
    /// What failed.
    pub errors: Vec<ValidationError>,
}

impl ValidationResult {
    /// Nothing failed.
    pub fn is_ok(&self) -> (r: bool)
        ensures
            r == (self.errors@.len() == 0),
    {
        self.errors.len() == 0
    }
}

/// A parameter of a registered tool.
#[derive(Debug, Clone)]
pub struct ParamDef {
    /// Argument name.
    pub name: String,
    /// Whether a call must give it.
    pub required: bool,
}

/// A registered tool as the validator sees it.
#[derive(Debug, Clone)]
pub struct ToolSpec {
    /// Tool name.
    pub name: String,
    /// Its parameters.
    pub parameters: Vec<ParamDef>,
}

/// An error as text: whether it is an unknown tool, the tool, and the
/// missing parameter (empty for an unknown tool).
pub open spec fn error_view(e: ValidationError) -> (bool, Seq<char>, Seq<char>) {
    match e {
        ValidationError::UnknownTool(n) => (true, n@, Seq::empty()),
        ValidationError::MissingRequiredParam { tool, param } => (false, tool@, param@),
    }
}

/// A call as the validator passes it on: its id, name and arguments.
pub open spec fn call_view(c: RepairedToolCall) -> (Seq<char>, Seq<char>, Seq<char>) {
    (c.id@, c.name@, c.arguments@)
}

/// Whether the JSON arguments `args` lack the member `param`.
pub open spec fn lacks_param(args: Seq<char>, param: Seq<char>) -> bool {
    json_member_spec(args, param) is None
}

/// Index of the first tool of `ts` named `name`.
pub open spec fn first_tool(ts: Seq<ToolSpec>, name: Seq<char>) -> Option<int> {
    if exists|i: int| 0 <= i < ts.len() && (#[trigger] ts[i]).name@ == name
        && forall|j: int| 0 <= j < i ==> (#[trigger] ts[j]).name@ != name {
        Some(choose|i: int| 0 <= i < ts.len() && (#[trigger] ts[i]).name@ == name
            && forall|j: int| 0 <= j < i ==> (#[trigger] ts[j]).name@ != name)
    } else {
        None
    }
}

/// The missing-parameter errors of a call of tool `tool` with the JSON
/// arguments `args`, whose parameters are `ps`: one per required parameter
/// that the arguments lack, in order.
pub open spec fn missing_views(tool: Seq<char>, ps: Seq<ParamDef>, args: Seq<char>) -> Seq<(bool, Seq<char>, Seq<char>)>
    decreases ps.len(),
{
    if ps.len() == 0 {
        Seq::empty()
    } else {
        let n = ps.len() - 1;
        missing_views(tool, ps.take(n), args) + if ps[n].required && lacks_param(args, ps[n].name@) {
            seq![(false, tool, ps[n].name@)]
        } else {
            Seq::empty()
        }
    }
}

/// What validating the calls `cs` against the tools `ts` gives: the calls
/// that pass (known tool, no required parameter lacking), unchanged, and the
/// errors, both in call order.
pub open spec fn outcome_spec(ts: Seq<ToolSpec>, cs: Seq<RepairedToolCall>)
    -> (Seq<(Seq<char>, Seq<char>, Seq<char>)>, Seq<(bool, Seq<char>, Seq<char>)>)
    decreases cs.len(),
{
    if cs.len() == 0 {
        (Seq::empty(), Seq::empty())
    } else {
        let n = cs.len() - 1;
        let prev = outcome_spec(ts, cs.take(n));
        let c = cs[n];
        match first_tool(ts, c.name@) {
            None => (prev.0, prev.1.push((true, c.name@, Seq::empty()))),
            Some(t) => {
                let m = missing_views(c.name@, ts[t].parameters@, c.arguments@);
                (if m.len() == 0 { prev.0.push(call_view(c)) } else { prev.0 }, prev.1 + m)
            },
        }
    }
}

/// A copy of the call `c`.
fn copy_call(c: &RepairedToolCall) -> (r: RepairedToolCall)
    ensures
        r.id@ == c.id@,
        r.name@ == c.name@,
        r.arguments@ == c.arguments@,
{
    RepairedToolCall { id: c.id.clone(), name: c.name.clone(), arguments: c.arguments.clone() }
}

/// The response validator over a set of registered tools.
pub struct ResponseValidator {
    tools: Vec<ToolSpec>,
}

impl ResponseValidator {
    /// The registered tools.
    pub closed spec fn tools(&self) -> Seq<ToolSpec> {
        self.tools@
    }

    /// A validator over the registered tools `tools`.
    pub fn new(tools: Vec<ToolSpec>) -> (v: ResponseValidator)
        ensures
            v.tools() == tools@,
    {
        ResponseValidator { tools }
    }

    /// The first registered tool named `name`.
    fn lookup(&self, name: &str) -> (r: Option<usize>)
        ensures
            match r {
                Some(i) => i < self.tools@.len() && first_tool(self.tools@, name@) == Some(i as int),
                None => first_tool(self.tools@, name@) is None,
            },
    {
        let mut i: usize = 0;
        while i < self.tools.len()
            invariant
                i <= self.tools@.len(),
                forall|j: int| 0 <= j < i ==> (#[trigger] self.tools@[j]).name@ != name@,
            decreases self.tools@.len() - i,
        {
            let n = to_chars(self.tools[i].name.as_str());
            if eq_str(n.as_slice(), name) {
                proof {
                    let t = self.tools@;
                    assert(t[i as int].name@ == name@);
                    let k = choose|k: int| 0 <= k < t.len() && (#[trigger] t[k]).name@ == name@
                        && forall|j: int| 0 <= j < k ==> (#[trigger] t[j]).name@ != name@;
                    if k < i {
                        assert(t[k].name@ != name@);
                    } else if k > i {
                        assert(t[i as int].name@ != name@);
                    }
                }
                return Some(i);
            }
            i = i + 1;
        }
        None
    }

    /// Checks tool calls: a call naming no registered tool gives
    /// `UnknownTool`; a call missing a required argument of its tool gives
    /// one `MissingRequiredParam` per such argument, in order; the other
    /// calls pass unchanged.
    pub fn validate(&self, calls: &[RepairedToolCall]) -> (r: ValidationResult)
        ensures
            outcome_spec(self.tools(), calls@)
                == (r.valid_calls@.map_values(|c: RepairedToolCall| call_view(c)),
                    r.errors@.map_values(|e: ValidationError| error_view(e))),
    {
        let mut valid: Vec<RepairedToolCall> = Vec::new();
        let mut errors: Vec<ValidationError> = Vec::new();
        let mut i: usize = 0;
        while i < calls.len()
            invariant
                i <= calls@.len(),
                outcome_spec(self.tools@, calls@.take(i as int))
                    == (valid@.map_values(|c: RepairedToolCall| call_view(c)),
                        errors@.map_values(|e: ValidationError| error_view(e))),
            decreases calls@.len() - i,
        {
            let call = &calls[i];
            let ghost vb = valid@.map_values(|c: RepairedToolCall| call_view(c));
            let ghost eb = errors@.map_values(|e: ValidationError| error_view(e));
            assert(calls@.take(i + 1).take(i as int) =~= calls@.take(i as int));
            assert(calls@.take(i + 1)[i as int] == *call);
            match self.lookup(call.name.as_str()) {
                None => {
                    let ghost before = errors@;
                    errors.push(ValidationError::UnknownTool(call.name.clone()));
                    proof {
                        assert(errors@.map_values(|e: ValidationError| error_view(e))
                            =~= eb.push((true, call.name@, Seq::empty())));
                    }
                },
                Some(t) => {
                    let tool = &self.tools[t];
                    let ghost ps = tool.parameters@;
                    let mut missing = false;
                    let mut j: usize = 0;
                    while j < tool.parameters.len()
                        invariant
                            j <= tool.parameters@.len(),
                            ps == tool.parameters@,
                            errors@.map_values(|e: ValidationError| error_view(e))
                                == eb + missing_views(call.name@, ps.take(j as int), call.arguments@),
                            missing == (missing_views(call.name@, ps.take(j as int), call.arguments@).len() > 0),
                        decreases tool.parameters@.len() - j,
                    {
                        let pd = &tool.parameters[j];
                        let ghost e0 = errors@.map_values(|e: ValidationError| error_view(e));
                        assert(ps.take(j + 1).take(j as int) =~= ps.take(j as int));
                        assert(ps.take(j + 1)[j as int] == *pd);
                        if pd.required && json_member(call.arguments.as_str(), pd.name.as_str()).is_none() {
                            errors.push(ValidationError::MissingRequiredParam {
                                tool: call.name.clone(),
                                param: pd.name.clone(),
                            });
                            proof {
                                assert(errors@.map_values(|e: ValidationError| error_view(e))
                                    =~= e0.push((false, call.name@, pd.name@)));
                                assert(e0.push((false, call.name@, pd.name@))
                                    =~= eb + (missing_views(call.name@, ps.take(j as int), call.arguments@)
                                        + seq![(false, call.name@, pd.name@)]));
                            }
                            missing = true;
                        } else {
                            proof {
                                assert(missing_views(call.name@, ps.take(j as int), call.arguments@)
                                    + Seq::<(bool, Seq<char>, Seq<char>)>::empty()
                                    =~= missing_views(call.name@, ps.take(j as int), call.arguments@));
                            }
                        }
                        j = j + 1;
                    }
                    assert(ps.take(ps.len() as int) =~= ps);
                    if !missing {
                        valid.push(copy_call(call));
                        assert(valid@.map_values(|c: RepairedToolCall| call_view(c)) =~= vb.push(call_view(*call)));
                    }
                },
            }
            i = i + 1;
        }
        assert(calls@.take(calls@.len() as int) =~= calls@);
        assert(outcome_spec(self.tools(), calls@)
            == (valid@.map_values(|c: RepairedToolCall| call_view(c)),
                errors@.map_values(|e: ValidationError| error_view(e))));
        ValidationResult { valid_calls: valid, errors }
    }
}

/// Builder of the correction message for failed tool calls.
pub struct NudgeBuilder;

/// The tool list of a correction line: the first 20 names, with `...` when
/// there are more.
pub open spec fn available_text(names: Seq<Seq<char>>) -> Seq<char> {
    if names.len() > 20 { join_spec(names.take(20), ", "@) + "..."@ } else { join_spec(names, ", "@) }
}

/// The correction line for error `e`, given the registered tool names.
pub open spec fn nudge_line(e: ValidationError, names: Seq<Seq<char>>) -> Seq<char> {
    match e {
        ValidationError::UnknownTool(n) => "  ❌ 工具 '"@ + n@ + "' 不存在。可用工具: "@ + available_text(names),
        ValidationError::MissingRequiredParam { tool, param } =>
            "  ❌ 工具 '"@ + tool@ + "' 缺少必填参数 '"@ + param@ + "'"@,
    }
}

/// The correction message for the errors `es`: nothing without errors,
/// else a heading and one line per error, joined by newlines.
pub open spec fn nudge_spec(es: Seq<ValidationError>, names: Seq<Seq<char>>) -> Seq<char> {
    if es.len() == 0 {
        Seq::empty()
    } else {
        join_spec(seq!["⚠️ 工具调用校验失败，请修正后重试："@] + es.map_values(|e: ValidationError| nudge_line(e, names)), "\n"@)
    }
}

/// A correction message over errors whose lines hold no newline has one
/// line per error after its heading, in order.
pub proof fn lemma_nudge_lines(es: Seq<ValidationError>, names: Seq<Seq<char>>)
    requires
        es.len() > 0,
        forall|i: int| 0 <= i < es.len() ==> crate::text::free_of(#[trigger] nudge_line(es[i], names), '\n'),
    ensures
        crate::text::lines_spec(nudge_spec(es, names)).len() == es.len() + 1,
        crate::text::lines_spec(nudge_spec(es, names))[0] == "⚠️ 工具调用校验失败，请修正后重试："@,
        forall|i: int| 0 <= i < es.len() ==> crate::text::lines_spec(nudge_spec(es, names))[i + 1]
            == crate::text::strip_cr(#[trigger] nudge_line(es[i], names)),
{
    reveal_strlit("\n");
    reveal_strlit("⚠️ 工具调用校验失败，请修正后重试：");
    reveal_strlit("  ❌ 工具 '");
    let head = "⚠️ 工具调用校验失败，请修正后重试："@;
    let ls = es.map_values(|e: ValidationError| nudge_line(e, names));
    let parts = seq![head] + ls;
    assert forall|i: int, j: int| 0 <= i < parts.len() && 0 <= j < parts[i].len() implies #[trigger] parts[i][j] != '\n' by {
        if i > 0 {
            assert(parts[i] == nudge_line(es[i - 1], names));
        }
    }
    assert("\n"@ =~= seq!['\n']);
    crate::text::lemma_split_join(parts, '\n');
    let last = parts[parts.len() - 1];
    assert(last == nudge_line(es[es.len() - 1], names));
    assert(last.len() > 0) by {
        match es[es.len() - 1] {
            ValidationError::UnknownTool(n) => {
                assert(last[0] == "  ❌ 工具 '"@[0]);
            },
            ValidationError::MissingRequiredParam { tool, param } => {
                assert(last[0] == "  ❌ 工具 '"@[0]);
            },
        }
    }
    assert(head.last() != '\r');
}

/// The tool list of a correction line.
fn available(all_names: &Vec<String>) -> (r: Vec<char>)
    ensures
        r@ == available_text(views(all_names@)),
{
    if all_names.len() > 20 {
        let mut first: Vec<String> = Vec::new();
        let mut i: usize = 0;
        while i < 20
            invariant
                i <= 20,
                all_names@.len() > 20,
                first@ == all_names@.take(i as int),
            decreases 20 - i,
        {
            first.push(all_names[i].clone());
            assert(first@ =~= all_names@.take(i + 1));
            i = i + 1;
        }
        let mut j = join(&first, ", ");
        push_str(&mut j, "...");
        assert(views(first@) =~= views(all_names@).take(20));
        j
    } else {
        join(all_names, ", ")
    }
}

impl NudgeBuilder {
    /// The correction message for `errors`; `all_names` are the registered
    /// tool names, in registry order.
    pub fn build(errors: &[ValidationError], all_names: &Vec<String>) -> (r: String)
        ensures
            r@ == nudge_spec(errors@, views(all_names@)),
    {
        if errors.len() == 0 {
            return String::new();
        }
        let avail = available(all_names);
        let mut lines: Vec<String> = Vec::new();
        lines.push("⚠️ 工具调用校验失败，请修正后重试：".to_string());
        let ghost head = seq!["⚠️ 工具调用校验失败，请修正后重试："@];
        let mut i: usize = 0;
        while i < errors.len()
            invariant
                i <= errors@.len(),
                avail@ == available_text(views(all_names@)),
                views(lines@) == head + errors@.take(i as int).map_values(|e: ValidationError| nudge_line(e, views(all_names@))),
            decreases errors@.len() - i,
        {
            let line = match &errors[i] {
                ValidationError::UnknownTool(n) => {
                    let mut v = to_chars("  ❌ 工具 '");
                    push_str(&mut v, n.as_str());
                    push_str(&mut v, "' 不存在。可用工具: ");
                    extend_chars(&mut v, avail.as_slice());
                    v
                },
                ValidationError::MissingRequiredParam { tool, param } => {
                    let mut v = to_chars("  ❌ 工具 '");
                    push_str(&mut v, tool.as_str());
                    push_str(&mut v, "' 缺少必填参数 '");
                    push_str(&mut v, param.as_str());
                    push_str(&mut v, "'");
                    v
                },
            };
            let ghost before = views(lines@);
            lines.push(from_chars(line.as_slice()));
            assert(views(lines@) =~= before.push(nudge_line(errors@[i as int], views(all_names@))));
            assert(errors@.take(i + 1).map_values(|e: ValidationError| nudge_line(e, views(all_names@)))
                =~= errors@.take(i as int).map_values(|e: ValidationError| nudge_line(e, views(all_names@)))
                    .push(nudge_line(errors@[i as int], views(all_names@))));
            i = i + 1;
        }
        assert(errors@.take(errors@.len() as int) =~= errors@);
        let j = join(&lines, "\n");
        from_chars(j.as_slice())
    }
}

} // verus!

//! The built-in tools offered to the model: their names, descriptions and
//! JSON parameter schemas.

use vstd::prelude::*;
use crate::api::{ToolDef, ToolFunction};
use crate::json::{json_compact_spec, json_value};

verus! {

/// Number of built-in tools.
pub const BUILTIN_TOOL_COUNT: usize = 17;

/// Built-in tool `i`: its name, description and JSON parameter schema.
pub open spec fn builtin_tool(i: int) -> (Seq<char>, Seq<char>, Seq<char>) {
    if i == 0 {
        ("read_file"@, "读取文件内容，支持 head/tail/range 参数"@, r#"{"type":"object","properties":{"path":{"type":"string","description":"文件路径"},"head":{"type":"integer","description":"只返回前 N 行"},"tail":{"type":"integer","description":"只返回后 N 行"},"range":{"type":"string","description":"行范围如 50-100"}},"required":["path"]}"#@)
    } else if i == 1 {
        ("write_file"@, "写入文件（创建或覆盖），自动创建父目录"@, r#"{"type":"object","properties":{"path":{"type":"string","description":"文件路径"},"content":{"type":"string","description":"文件内容"}},"required":["path","content"]}"#@)
    } else if i == 2 {
        ("search_content"@, "在文件中搜索文本模式，返回匹配的文件:行号（基于 ripgrep）"@, r#"{"type":"object","properties":{"pattern":{"type":"string","description":"搜索模式（支持正则）"},"path":{"type":"string","description":"搜索目录（默认项目根）"},"glob":{"type":"string","description":"文件名过滤"},"context_lines":{"type":"integer","description":"上下文行数（默认 0，最大 3）"},"max_results":{"type":"integer","description":"最大结果数（默认 200，最大 1000）"}},"required":["pattern"]}"#@)
    } else if i == 3 {
        ("run_command"@, "在 shell 中执行命令"@, r#"{"type":"object","properties":{"command":{"type":"string","description":"要执行的命令（Windows 用 cmd /c）"},"timeout":{"type":"integer","description":"超时秒数"},"cwd":{"type":"string","description":"工作目录（默认当前目录）"}},"required":["command"]}"#@)
    } else if i == 4 {
        ("glob"@, "按 glob 模式列出文件"@, r#"{"type":"object","properties":{"pattern":{"type":"string","description":"glob 模式如 **/*.rs"},"path":{"type":"string","description":"搜索目录"}},"required":["pattern"]}"#@)
    } else if i == 5 {
        ("get_current_time"@, "获取当前日期和时间"@, r#"{"type":"object","properties":{}}"#@)
    } else if i == 6 {
        ("web_search"@, "搜索网络获取最新信息。返回标题、摘要和链接。支持中英文查询。"@, r#"{"type":"object","properties":{"query":{"type":"string","description":"搜索关键词"},"max_results":{"type":"integer","description":"最大结果数（默认 5，最大 10）"}},"required":["query"]}"#@)
    } else if i == 7 {
        ("web_fetch"@, "获取网页内容并提取可读文本"@, r#"{"type":"object","properties":{"url":{"type":"string","description":"要获取的网页 URL"},"max_chars":{"type":"integer","description":"最大字符数（默认 5000）"}},"required":["url"]}"#@)
    } else if i == 8 {
        ("skill_list"@, "列出所有已安装的技能名称和描述"@, r#"{"type":"object","properties":{}}"#@)
    } else if i == 9 {
        ("skill_search"@, "按关键词搜索已安装的技能"@, r#"{"type":"object","properties":{"query":{"type":"string","description":"搜索关键词"}},"required":["query"]}"#@)
    } else if i == 10 {
        ("skill_create"@, "创建新的可复用技能，让 AI 不断积累最佳实践"@, r#"{"type":"object","properties":{"name":{"type":"string","description":"技能名称（小写英文+短横线）"},"description":{"type":"string","description":"一句话描述该技能的用途"},"body":{"type":"string","description":"技能正文 Markdown，描述执行步骤和注意事项"},"category":{"type":"string","description":"技能分类目录（如 analysis/utils/debug）"},"allowed_tools":{"type":"string","description":"允许的工具列表，逗号分隔"}},"required":["name","description","body"]}"#@)
    } else if i == 11 {
        ("skill_patch"@, "更新已有技能的内容（打补丁进化），保留使用统计"@, r#"{"type":"object","properties":{"name":{"type":"string","description":"要更新的技能名称"},"description":{"type":"string","description":"新的描述"},"body":{"type":"string","description":"新的技能正文"},"allowed_tools":{"type":"string","description":"新的工具列表，逗号分隔"}},"required":["name"]}"#@)
    } else if i == 12 {
        ("run_skill"@, "执行一个已安装的技能并返回结果"@, r#"{"type":"object","properties":{"name":{"type":"string","description":"技能名称"},"arguments":{"type":"string","description":"传给技能的任务描述"}},"required":["name","arguments"]}"#@)
    } else if i == 13 {
        ("delegate_task"@, "将子任务委托给独立的子 Agent 执行，返回分析结果"@, r#"{"type":"object","properties":{"task":{"type":"string","description":"要子 Agent 完成的任务描述"},"context":{"type":"string","description":"额外的上下文信息"}},"required":["task"]}"#@)
    } else if i == 14 {
        ("read_pdf"@, "读取 PDF 文件，返回纯文本内容"@, r#"{"type":"object","properties":{"path":{"type":"string","description":"PDF 文件路径"}},"required":["path"]}"#@)
    } else if i == 15 {
        ("skill_manage"@, "创建或更新技能，名称存在则 patch，不存在则 create"@, r#"{"type":"object","properties":{"name":{"type":"string","description":"技能名称"},"description":{"type":"string","description":"技能描述"},"body":{"type":"string","description":"技能正文 Markdown"},"category":{"type":"string","description":"分类目录"}},"required":["name","description","body"]}"#@)
    } else if i == 16 {
        ("memory"@, "读写管理记忆文件 MEMORY.md 和 USER.md。action: add/replace/remove/read。target: user/memory。"@, r#"{"type":"object","properties":{"action":{"type":"string","description":"操作: add(添加)/replace(替换)/remove(删除)/read(读取)"},"target":{"type":"string","description":"目标: user(USER.md)/memory(MEMORY.md)"},"content":{"type":"string","description":"要添加/替换的内容（add/replace 时必填）"},"old_text":{"type":"string","description":"要匹配的旧文本子串（replace/remove 时必填）"}},"required":["action","target"]}"#@)
    } else {
        (Seq::empty(), Seq::empty(), Seq::empty())
    }
}

/// The names of the built-in tools, in order.
pub open spec fn builtin_tool_names() -> Seq<Seq<char>> {
    Seq::new(BUILTIN_TOOL_COUNT as nat, |i: int| builtin_tool(i).0)
}

/// The descriptions of the built-in tools, in order.
pub open spec fn builtin_tool_descriptions() -> Seq<Seq<char>> {
    Seq::new(BUILTIN_TOOL_COUNT as nat, |i: int| builtin_tool(i).1)
}

/// The JSON parameter schemas of the built-in tools, in order.
pub open spec fn builtin_tool_schemas() -> Seq<Seq<char>> {
    Seq::new(BUILTIN_TOOL_COUNT as nat, |i: int| builtin_tool(i).2)
}

/// The indices below `n` of the built-in tools whose schema reads as JSON.
pub open spec fn readable_tools(n: int) -> Seq<int>
    decreases n,
{
    if n <= 0 {
        Seq::empty()
    } else {
        let r = readable_tools(n - 1);
        if json_compact_spec(builtin_tool(n - 1).2) is Some { r.push(n - 1) } else { r }
    }
}

/// With every schema readable, every tool is kept, in order.
pub proof fn lemma_all_tools_readable(n: int)
    requires
        0 <= n <= BUILTIN_TOOL_COUNT,
        forall|i: int| 0 <= i < BUILTIN_TOOL_COUNT ==> json_compact_spec(#[trigger] builtin_tool_schemas()[i]) is Some,
    ensures
        readable_tools(n) == Seq::new(n as nat, |i: int| i),
    decreases n,
{
    if n > 0 {
        lemma_all_tools_readable(n - 1);
        assert(builtin_tool_schemas()[n - 1] == builtin_tool(n - 1).2);
        assert(Seq::new((n - 1) as nat, |i: int| i).push(n - 1) =~= Seq::new(n as nat, |i: int| i));
    } else {
        assert(Seq::<int>::empty() =~= Seq::new(0, |i: int| i));
    }
}

/// Built-in tool `i` as text.
fn tool_entry(i: usize) -> (r: (&'static str, &'static str, &'static str))
    requires
        i < BUILTIN_TOOL_COUNT,
    ensures
        (r.0@, r.1@, r.2@) == builtin_tool(i as int),
{
    match i {
        0 => ("read_file", "读取文件内容，支持 head/tail/range 参数", r#"{"type":"object","properties":{"path":{"type":"string","description":"文件路径"},"head":{"type":"integer","description":"只返回前 N 行"},"tail":{"type":"integer","description":"只返回后 N 行"},"range":{"type":"string","description":"行范围如 50-100"}},"required":["path"]}"#),
        1 => ("write_file", "写入文件（创建或覆盖），自动创建父目录", r#"{"type":"object","properties":{"path":{"type":"string","description":"文件路径"},"content":{"type":"string","description":"文件内容"}},"required":["path","content"]}"#),
        2 => ("search_content", "在文件中搜索文本模式，返回匹配的文件:行号（基于 ripgrep）", r#"{"type":"object","properties":{"pattern":{"type":"string","description":"搜索模式（支持正则）"},"path":{"type":"string","description":"搜索目录（默认项目根）"},"glob":{"type":"string","description":"文件名过滤"},"context_lines":{"type":"integer","description":"上下文行数（默认 0，最大 3）"},"max_results":{"type":"integer","description":"最大结果数（默认 200，最大 1000）"}},"required":["pattern"]}"#),
        3 => ("run_command", "在 shell 中执行命令", r#"{"type":"object","properties":{"command":{"type":"string","description":"要执行的命令（Windows 用 cmd /c）"},"timeout":{"type":"integer","description":"超时秒数"},"cwd":{"type":"string","description":"工作目录（默认当前目录）"}},"required":["command"]}"#),
        4 => ("glob", "按 glob 模式列出文件", r#"{"type":"object","properties":{"pattern":{"type":"string","description":"glob 模式如 **/*.rs"},"path":{"type":"string","description":"搜索目录"}},"required":["pattern"]}"#),
        5 => ("get_current_time", "获取当前日期和时间", r#"{"type":"object","properties":{}}"#),
        6 => ("web_search", "搜索网络获取最新信息。返回标题、摘要和链接。支持中英文查询。", r#"{"type":"object","properties":{"query":{"type":"string","description":"搜索关键词"},"max_results":{"type":"integer","description":"最大结果数（默认 5，最大 10）"}},"required":["query"]}"#),
        7 => ("web_fetch", "获取网页内容并提取可读文本", r#"{"type":"object","properties":{"url":{"type":"string","description":"要获取的网页 URL"},"max_chars":{"type":"integer","description":"最大字符数（默认 5000）"}},"required":["url"]}"#),
        8 => ("skill_list", "列出所有已安装的技能名称和描述", r#"{"type":"object","properties":{}}"#),
        9 => ("skill_search", "按关键词搜索已安装的技能", r#"{"type":"object","properties":{"query":{"type":"string","description":"搜索关键词"}},"required":["query"]}"#),
        10 => ("skill_create", "创建新的可复用技能，让 AI 不断积累最佳实践", r#"{"type":"object","properties":{"name":{"type":"string","description":"技能名称（小写英文+短横线）"},"description":{"type":"string","description":"一句话描述该技能的用途"},"body":{"type":"string","description":"技能正文 Markdown，描述执行步骤和注意事项"},"category":{"type":"string","description":"技能分类目录（如 analysis/utils/debug）"},"allowed_tools":{"type":"string","description":"允许的工具列表，逗号分隔"}},"required":["name","description","body"]}"#),
        11 => ("skill_patch", "更新已有技能的内容（打补丁进化），保留使用统计", r#"{"type":"object","properties":{"name":{"type":"string","description":"要更新的技能名称"},"description":{"type":"string","description":"新的描述"},"body":{"type":"string","description":"新的技能正文"},"allowed_tools":{"type":"string","description":"新的工具列表，逗号分隔"}},"required":["name"]}"#),
        12 => ("run_skill", "执行一个已安装的技能并返回结果", r#"{"type":"object","properties":{"name":{"type":"string","description":"技能名称"},"arguments":{"type":"string","description":"传给技能的任务描述"}},"required":["name","arguments"]}"#),
        13 => ("delegate_task", "将子任务委托给独立的子 Agent 执行，返回分析结果", r#"{"type":"object","properties":{"task":{"type":"string","description":"要子 Agent 完成的任务描述"},"context":{"type":"string","description":"额外的上下文信息"}},"required":["task"]}"#),
        14 => ("read_pdf", "读取 PDF 文件，返回纯文本内容", r#"{"type":"object","properties":{"path":{"type":"string","description":"PDF 文件路径"}},"required":["path"]}"#),
        15 => ("skill_manage", "创建或更新技能，名称存在则 patch，不存在则 create", r#"{"type":"object","properties":{"name":{"type":"string","description":"技能名称"},"description":{"type":"string","description":"技能描述"},"body":{"type":"string","description":"技能正文 Markdown"},"category":{"type":"string","description":"分类目录"}},"required":["name","description","body"]}"#),
        16 => ("memory", "读写管理记忆文件 MEMORY.md 和 USER.md。action: add/replace/remove/read。target: user/memory。", r#"{"type":"object","properties":{"action":{"type":"string","description":"操作: add(添加)/replace(替换)/remove(删除)/read(读取)"},"target":{"type":"string","description":"目标: user(USER.md)/memory(MEMORY.md)"},"content":{"type":"string","description":"要添加/替换的内容（add/replace 时必填）"},"old_text":{"type":"string","description":"要匹配的旧文本子串（replace/remove 时必填）"}},"required":["action","target"]}"#),
        _ => ("", "", ""),
    }
}

/// The built-in tools, in order, each a `function` tool with its name,
/// description and parameter schema; a tool whose schema would not read as
/// JSON is left out (with every schema readable, all of them come, see
/// `lemma_all_tools_readable`).
pub fn default_tools() -> (r: Vec<ToolDef>)
    ensures
        r@.len() == readable_tools(BUILTIN_TOOL_COUNT as int).len(),
        forall|k: int| 0 <= k < r@.len() ==> {
            let i = readable_tools(BUILTIN_TOOL_COUNT as int)[k];
            &&& (#[trigger] r@[k]).tool_type@ == "function"@
            &&& r@[k].function.name@ == builtin_tool_names()[i]
            &&& r@[k].function.description@ == builtin_tool_descriptions()[i]
            &&& json_compact_spec(builtin_tool_schemas()[i]) is Some
        },
{
    let mut r: Vec<ToolDef> = Vec::new();
    let mut i: usize = 0;
    while i < BUILTIN_TOOL_COUNT
        invariant
            i <= BUILTIN_TOOL_COUNT,
            r@.len() == readable_tools(i as int).len(),
            forall|j: int| 0 <= j < readable_tools(i as int).len() ==> 0 <= #[trigger] readable_tools(i as int)[j] < i,
            forall|k: int| 0 <= k < r@.len() ==> {
                let t = readable_tools(i as int)[k];
                &&& (#[trigger] r@[k]).tool_type@ == "function"@
                &&& r@[k].function.name@ == builtin_tool(t).0
                &&& r@[k].function.description@ == builtin_tool(t).1
                &&& json_compact_spec(builtin_tool(t).2) is Some
            },
        decreases BUILTIN_TOOL_COUNT - i,
    {
        let (name, description, schema) = tool_entry(i);
        match json_value(schema) {
            Some(v) => {
                let ghost before = r@;
                r.push(ToolDef {
                    tool_type: "function".to_string(),
                    function: ToolFunction { name: name.to_string(), description: description.to_string(), parameters: v },
                });
                assert(readable_tools(i + 1) == readable_tools(i as int).push(i as int));
                assert forall|k: int| 0 <= k < r@.len() implies {
                    let t = readable_tools(i + 1)[k];
                    &&& (#[trigger] r@[k]).tool_type@ == "function"@
                    &&& r@[k].function.name@ == builtin_tool(t).0
                    &&& r@[k].function.description@ == builtin_tool(t).1
                    &&& json_compact_spec(builtin_tool(t).2) is Some
                } by {
                    if k < before.len() {
                        assert(r@[k] == before[k]);
                    }
                }
            },
            None => {
                assert(readable_tools(i + 1) == readable_tools(i as int));
            },
        }
        i = i + 1;
    }
    r
}

} // verus!

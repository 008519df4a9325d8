//! Long-term memory: the kinds of memory, stored entries and their tag
//! lists, the user profile with its summary, its `USER.md` text and the
//! keyword aggregation over remembered entries, and the `MEMORY.md` export.
//!
//! The SQLite store itself lives with the caller; this module holds what is
//! computed on the values read from it or written to it.

use vstd::prelude::*;
use vstd::string::{StringExecFns, StrSliceExecFns, StringSliceAdditionalSpecFns};
use crate::text::{
    contains_seq, extend_chars, from_chars, join, join_spec, lemma_split_join, push_str, split_char, split_spec, to_chars, trim,
    trim_spec, views,
};

verus! {

// ---------------------------------------------------------------------------
// Memory kinds
// ---------------------------------------------------------------------------

/// Kind of a memory.
#[derive(Debug, Clone, Copy, PartialEq, Eq, Structural)]
pub enum MemoryType {
    /// The current session.
    Session,
    /// Active knowledge across sessions.
    Working,
    /// Persistent knowledge.
    LongTerm,
}

/// Stored name of a memory kind.
pub open spec fn memory_type_name(t: MemoryType) -> Seq<char> {
    match t {
        MemoryType::Session => "session"@,
        MemoryType::Working => "working"@,
        MemoryType::LongTerm => "long_term"@,
    }
}

/// The memory kind stored under the name `s`, if any.
pub open spec fn memory_type_of(s: Seq<char>) -> Option<MemoryType> {
    if s == "session"@ {
        Some(MemoryType::Session)
    } else if s == "working"@ {
        Some(MemoryType::Working)
    } else if s == "long_term"@ {
        Some(MemoryType::LongTerm)
    } else {
        None
    }
}

impl MemoryType {
    /// Stored name of this kind.
    pub fn as_str(&self) -> (r: &'static str)
        ensures
            r@ == memory_type_name(*self),
    {
        match self {
            MemoryType::Session => "session",
            MemoryType::Working => "working",
            MemoryType::LongTerm => "long_term",
        }
    }

    /// The kind stored under the name `s`; none for any other text.
    pub fn from_str(s: &str) -> (r: Option<MemoryType>)
        ensures
            r == memory_type_of(s@),
    {
        let c = to_chars(s);
        if crate::text::eq_str(c.as_slice(), "session") {
            Some(MemoryType::Session)
        } else if crate::text::eq_str(c.as_slice(), "working") {
            Some(MemoryType::Working)
        } else if crate::text::eq_str(c.as_slice(), "long_term") {
            Some(MemoryType::LongTerm)
        } else {
            None
        }
    }
}

/// Each kind is read back from its stored name, and a name reads back only
/// the kind stored under it.
pub proof fn lemma_memory_type_round_trip(t: MemoryType, s: Seq<char>)
    ensures
        memory_type_of(memory_type_name(t)) == Some(t),
        memory_type_of(s) == Some(t) ==> s == memory_type_name(t),
{
    reveal_strlit("session");
    reveal_strlit("working");
    reveal_strlit("long_term");
    assert("working"@[0] != "session"@[0]);
    assert("long_term"@[0] != "session"@[0]);
    assert("long_term"@[0] != "working"@[0]);
    assert("working"@ != "session"@);
    assert("long_term"@ != "session"@);
    assert("long_term"@ != "working"@);
}

// ---------------------------------------------------------------------------
// Entries and tags
// ---------------------------------------------------------------------------

/// A stored memory.
#[derive(Debug, Clone)]
pub struct MemoryEntry {
    /// Row id.
    pub id: i64,
    /// Kind.
    pub memory_type: MemoryType,
    /// Text.
    pub content: String,
    /// Tags.
    pub tags: Vec<String>,
    /// Project it belongs to.
    pub project: String,
    /// Creation time (RFC 3339).
    pub created_at: String,
    /// Last access (RFC 3339).
    pub last_accessed: String,
    /// Number of reads.
    pub access_count: u64,
}

impl MemoryEntry {
    /// The tags separated by `, `.
    pub fn tags_str(&self) -> (r: String)
        ensures
            r@ == join_spec(views(self.tags@), ", "@),
    {
        let v = join(&self.tags, ", ");
        from_chars(v.as_slice())
    }
}

/// Parameters of a memory to store.
pub struct StoreMemory {
    /// Kind.
    pub memory_type: MemoryType,
    /// Text.
    pub content: String,
    /// Tags.
    pub tags: Vec<String>,
    /// Project.
    pub project: String,
}

/// The trimmed non-empty pieces of `ps`, in order.
pub open spec fn trimmed_nonempty(ps: Seq<Seq<char>>) -> Seq<Seq<char>>
    decreases ps.len(),
{
    if ps.len() == 0 {
        Seq::empty()
    } else {
        let r = trimmed_nonempty(ps.drop_last());
        let t = trim_spec(ps.last());
        if t.len() > 0 { r.push(t) } else { r }
    }
}

/// The tags in the stored text `s`: its comma-separated pieces, trimmed,
/// the empty ones left out.
pub open spec fn tags_spec(s: Seq<char>) -> Seq<Seq<char>> {
    trimmed_nonempty(split_spec(s, ','))
}

/// A tag that survives storage: trimmed, not empty, without commas.
pub open spec fn plain_tag(t: Seq<char>) -> bool {
    &&& t.len() > 0
    &&& trim_spec(t) == t
    &&& forall|j: int| 0 <= j < t.len() ==> t[j] != ','
}

/// Trimming and dropping empty pieces keeps plain tags as they are.
proof fn lemma_trimmed_plain(ts: Seq<Seq<char>>)
    requires
        forall|i: int| 0 <= i < ts.len() ==> plain_tag(#[trigger] ts[i]),
    ensures
        trimmed_nonempty(ts) == ts,
    decreases ts.len(),
{
    if ts.len() > 0 {
        lemma_trimmed_plain(ts.drop_last());
        assert(plain_tag(ts[ts.len() - 1]));
        assert(ts.drop_last().push(ts.last()) =~= ts);
    }
}

/// Tags stored with `join_tags` are read back by `parse_tags` as they were,
/// when each is plain.
pub proof fn lemma_tags_round_trip(tags: Seq<Seq<char>>)
    requires
        forall|i: int| 0 <= i < tags.len() ==> plain_tag(#[trigger] tags[i]),
    ensures
        tags_spec(join_spec(tags, ","@)) == tags,
{
    reveal_strlit(",");
    assert(","@ =~= seq![',']);
    if tags.len() == 0 {
        assert(split_spec(Seq::<char>::empty(), ',') =~= seq![Seq::<char>::empty()]);
        assert(trim_spec(Seq::<char>::empty()) =~= Seq::<char>::empty());
        let z = seq![Seq::<char>::empty()];
        assert(z.drop_last() =~= Seq::<Seq<char>>::empty());
        assert(z.last() == Seq::<char>::empty());
        assert(trimmed_nonempty(Seq::<Seq<char>>::empty()) == Seq::<Seq<char>>::empty());
        assert(trimmed_nonempty(z) =~= tags);
    } else {
        assert forall|i: int, j: int| 0 <= i < tags.len() && 0 <= j < tags[i].len() implies #[trigger] tags[i][j] != ',' by {
            assert(plain_tag(tags[i]));
        }
        lemma_split_join(tags, ',');
        lemma_trimmed_plain(tags);
    }
}

/// The tags stored in the text `s`.
pub fn parse_tags(s: &str) -> (r: Vec<String>)
    ensures
        views(r@) == tags_spec(s@),
{
    let c = to_chars(s);
    let parts = split_char(c.as_slice(), ',');
    let ghost ps = parts@.map_values(|x: Vec<char>| x@);
    let mut r: Vec<String> = Vec::new();
    let mut i: usize = 0;
    while i < parts.len()
        invariant
            i <= parts@.len(),
            ps == parts@.map_values(|x: Vec<char>| x@),
            views(r@) == trimmed_nonempty(ps.take(i as int)),
        decreases parts@.len() - i,
    {
        let t = trim(parts[i].as_slice());
        assert(ps.take(i + 1).drop_last() =~= ps.take(i as int));
        assert(ps.take(i + 1).last() == parts@[i as int]@);
        if t.len() > 0 {
            let ghost before = r@;
            r.push(from_chars(t.as_slice()));
            assert(views(r@) =~= views(before).push(t@));
        }
        i = i + 1;
    }
    assert(ps.take(ps.len() as int) =~= ps);
    r
}

/// The text that stores `tags`: separated by commas.
pub fn join_tags(tags: &Vec<String>) -> (r: String)
    ensures
        r@ == join_spec(views(tags@), ","@),
{
    let v = join(tags, ",");
    from_chars(v.as_slice())
}

// ---------------------------------------------------------------------------
// User profile
// ---------------------------------------------------------------------------

/// What the agent has learned about its user.
#[derive(Debug, Clone)]
pub struct UserProfile {
    /// Languages and frameworks in use.
    pub preferred_languages: String,
    /// Frequent tasks.
    pub common_tasks: String,
    /// Level of expertise.
    pub expertise_level: String,
    /// Preferred style of interaction.
    pub interaction_style: String,
    /// Preferred skills.
    pub skill_preferences: String,
    /// Number of sessions.
    pub session_count: u32,
    /// Number of messages.
    pub total_messages: u32,
}

impl Default for UserProfile {
    /// An empty profile of an intermediate user with a mixed style.
    fn default() -> (p: UserProfile)
        ensures
            p.preferred_languages@.len() == 0,
            p.common_tasks@.len() == 0,
            p.expertise_level@ == "中级"@,
            p.interaction_style@ == "混合"@,
            p.skill_preferences@.len() == 0,
            p.session_count == 0,
            p.total_messages == 0,
    {
        UserProfile {
            preferred_languages: String::new(),
            common_tasks: String::new(),
            expertise_level: "中级".to_string(),
            interaction_style: "混合".to_string(),
            skill_preferences: String::new(),
            session_count: 0,
            total_messages: 0,
        }
    }
}

/// The lines of a profile summary: the title, then each non-empty field.
pub open spec fn summary_lines(p: UserProfile) -> Seq<Seq<char>> {
    let a = seq!["📊 用户画像"@];
    let b = if p.preferred_languages@.len() > 0 { a.push("  常用语言/框架: "@ + p.preferred_languages@) } else { a };
    let c = if p.common_tasks@.len() > 0 { b.push("  常见任务: "@ + p.common_tasks@) } else { b };
    let d = c.push("  用户水平: "@ + p.expertise_level@ + " · 交互风格: "@ + p.interaction_style@);
    let e = if p.skill_preferences@.len() > 0 { d.push("  偏好技能: "@ + p.skill_preferences@) } else { d };
    e.push("  会话 "@ + crate::text::decimal(p.session_count as nat) + " 次 · 共 "@
        + crate::text::decimal(p.total_messages as nat) + " 条消息"@)
}

/// `prefix` followed by the text `t`.
fn concat2(prefix: &str, t: &str) -> (r: String)
    ensures
        r@ == prefix@ + t@,
{
    let mut v = to_chars(prefix);
    push_str(&mut v, t);
    from_chars(v.as_slice())
}

impl UserProfile {
    /// A short summary for the prompt: one line per known field.
    pub fn summarize(&self) -> (r: String)
        ensures
            r@ == join_spec(summary_lines(*self), "\n"@),
    {
        let mut parts: Vec<String> = Vec::new();
        parts.push("📊 用户画像".to_string());
        if self.preferred_languages.unicode_len() > 0 {
            parts.push(concat2("  常用语言/框架: ", self.preferred_languages.as_str()));
        }
        if self.common_tasks.unicode_len() > 0 {
            parts.push(concat2("  常见任务: ", self.common_tasks.as_str()));
        }
        let mut v = to_chars("  用户水平: ");
        push_str(&mut v, self.expertise_level.as_str());
        push_str(&mut v, " · 交互风格: ");
        push_str(&mut v, self.interaction_style.as_str());
        parts.push(from_chars(v.as_slice()));
        if self.skill_preferences.unicode_len() > 0 {
            parts.push(concat2("  偏好技能: ", self.skill_preferences.as_str()));
        }
        let mut w = to_chars("  会话 ");
        let sc = crate::text::decimal_chars(self.session_count as u64);
        extend_chars(&mut w, sc.as_slice());
        push_str(&mut w, " 次 · 共 ");
        let tm = crate::text::decimal_chars(self.total_messages as u64);
        extend_chars(&mut w, tm.as_slice());
        push_str(&mut w, " 条消息");
        parts.push(from_chars(w.as_slice()));
        assert(views(parts@) =~= summary_lines(*self));
        let j = join(&parts, "\n");
        from_chars(j.as_slice())
    }
}

/// The text of `USER.md` for profile `p`, last updated at `updated_at`.
pub open spec fn user_md_spec(p: UserProfile, updated_at: Seq<char>) -> Seq<char> {
    "# 用户画像\n\n> ⚠ 此文件可手动编辑，AI 也会自动更新。\n\n## 基础信息\n\n- 常用语言/框架: "@
        + p.preferred_languages@ + "\n- 常见任务: "@ + p.common_tasks@
        + "\n- 用户水平: "@ + p.expertise_level@ + "\n- 交互风格: "@ + p.interaction_style@
        + "\n- 偏好技能: "@ + p.skill_preferences@
        + "\n- 会话次数: "@ + crate::text::decimal(p.session_count as nat)
        + "\n- 消息总数: "@ + crate::text::decimal(p.total_messages as nat)
        + "\n- 最后更新: "@ + updated_at + "\n"@
}

/// The `USER.md` text, cut to its first `max_chars` characters (all of
/// them if it has fewer) when `max_chars` is positive and the text is longer
/// than that in bytes.
pub open spec fn user_md_limited(p: UserProfile, updated_at: Seq<char>, max_chars: nat) -> Seq<char> {
    let c = user_md_spec(p, updated_at);
    if max_chars > 0 && crate::text::ulen(c) > max_chars && max_chars < c.len() { c.take(max_chars as int) } else { c }
}

/// The `USER.md` text of profile `p`, last updated at `updated_at`; when
/// `max_chars` is positive and the text is longer than that many bytes, its
/// first `max_chars` characters.
pub fn render_user_md(p: &UserProfile, updated_at: &str, max_chars: usize) -> (r: String)
    ensures
        r@ == user_md_limited(*p, updated_at@, max_chars as nat),
{
    let mut v = to_chars("# 用户画像\n\n> ⚠ 此文件可手动编辑，AI 也会自动更新。\n\n## 基础信息\n\n- 常用语言/框架: ");
    push_str(&mut v, p.preferred_languages.as_str());
    push_str(&mut v, "\n- 常见任务: ");
    push_str(&mut v, p.common_tasks.as_str());
    push_str(&mut v, "\n- 用户水平: ");
    push_str(&mut v, p.expertise_level.as_str());
    push_str(&mut v, "\n- 交互风格: ");
    push_str(&mut v, p.interaction_style.as_str());
    push_str(&mut v, "\n- 偏好技能: ");
    push_str(&mut v, p.skill_preferences.as_str());
    push_str(&mut v, "\n- 会话次数: ");
    let sc = crate::text::decimal_chars(p.session_count as u64);
    extend_chars(&mut v, sc.as_slice());
    push_str(&mut v, "\n- 消息总数: ");
    let tm = crate::text::decimal_chars(p.total_messages as u64);
    extend_chars(&mut v, tm.as_slice());
    push_str(&mut v, "\n- 最后更新: ");
    push_str(&mut v, updated_at);
    push_str(&mut v, "\n");
    let content = from_chars(v.as_slice());
    let cs = content.as_str();
    assert(cs.spec_bytes() == vstd::utf8::encode_utf8(cs@));
    if max_chars > 0 && cs.as_bytes().len() > max_chars {
        let n = if max_chars < v.len() { max_chars } else { v.len() };
        let t = crate::text::slice_to_vec(v.as_slice(), 0, n);
        if max_chars < v.len() {
            assert(t@ =~= v@.take(max_chars as int));
        } else {
            assert(t@ =~= v@);
        }
        from_chars(t.as_slice())
    } else {
        content
    }
}

// ---------------------------------------------------------------------------
// Aggregation over remembered entries
// ---------------------------------------------------------------------------

/// The language and framework keywords looked for, in order.
pub open spec fn lang_keywords() -> Seq<Seq<char>> {
    seq!["rust"@, "python"@, "javascript"@, "typescript"@, "go"@, "java"@, "c++"@, "c#"@, "sql"@,
        "bash"@, "powershell"@, "react"@, "vue"@, "docker"@, "kubernetes"@, "html"@, "css"@]
}

/// The task words looked for, in order.
pub open spec fn task_words() -> Seq<Seq<char>> {
    seq!["代码审查"@, "调试"@, "重构"@, "测试"@, "部署"@, "文档"@, "性能优化"@, "安全"@,
        "数据库"@, "前端"@, "后端"@, "架构"@]
}

/// The task names recorded for the task words, in the same order.
pub open spec fn task_names() -> Seq<Seq<char>> {
    seq!["code_review"@, "debugging"@, "refactoring"@, "testing"@, "deployment"@, "documentation"@,
        "optimization"@, "security"@, "database"@, "frontend"@, "backend"@, "architecture"@]
}

/// The `i`th language keyword.
fn lang_keyword(i: usize) -> (r: &'static str)
    requires
        i < 17,
    ensures
        r@ == lang_keywords()[i as int],
{
    if i == 0 { "rust" } else if i == 1 { "python" } else if i == 2 { "javascript" }
    else if i == 3 { "typescript" } else if i == 4 { "go" } else if i == 5 { "java" }
    else if i == 6 { "c++" } else if i == 7 { "c#" } else if i == 8 { "sql" }
    else if i == 9 { "bash" } else if i == 10 { "powershell" } else if i == 11 { "react" }
    else if i == 12 { "vue" } else if i == 13 { "docker" } else if i == 14 { "kubernetes" }
    else if i == 15 { "html" } else { "css" }
}

/// The `i`th task word and its task name.
fn task_pair(i: usize) -> (r: (&'static str, &'static str))
    requires
        i < 12,
    ensures
        r.0@ == task_words()[i as int],
        r.1@ == task_names()[i as int],
{
    if i == 0 { ("代码审查", "code_review") } else if i == 1 { ("调试", "debugging") }
    else if i == 2 { ("重构", "refactoring") } else if i == 3 { ("测试", "testing") }
    else if i == 4 { ("部署", "deployment") } else if i == 5 { ("文档", "documentation") }
    else if i == 6 { ("性能优化", "optimization") } else if i == 7 { ("安全", "security") }
    else if i == 8 { ("数据库", "database") } else if i == 9 { ("前端", "frontend") }
    else if i == 10 { ("后端", "backend") } else { ("架构", "architecture") }
}

/// The names `names[i]` whose words `words[i]` occur in `text`, for the
/// first `n` pairs, in order.
pub open spec fn found_names(words: Seq<Seq<char>>, names: Seq<Seq<char>>, text: Seq<char>, n: int) -> Seq<Seq<char>>
    decreases n,
{
    if n <= 0 {
        Seq::empty()
    } else {
        let r = found_names(words, names, text, n - 1);
        if contains_seq(text, words[n - 1]) { r.push(names[n - 1]) } else { r }
    }
}

/// The contents of `es`.
pub open spec fn contents(es: Seq<MemoryEntry>) -> Seq<Seq<char>> {
    es.map_values(|e: MemoryEntry| e.content@)
}

/// `n` is profile `o` after taking in the entries `es`: one more session,
/// their number of messages more, and the languages and tasks their texts
/// mention, where they mention any.
pub open spec fn aggregated(o: UserProfile, n: UserProfile, es: Seq<MemoryEntry>) -> bool {
    let text = join_spec(contents(es), " "@);
    let langs = found_names(lang_keywords(), lang_keywords(), crate::text::lowercase(text), 17);
    let tasks = found_names(task_words(), task_names(), text, 12);
    &&& n.total_messages == o.total_messages + es.len()
    &&& n.session_count == o.session_count + 1
    &&& n.preferred_languages@ == (if langs.len() > 0 { join_spec(langs, ", "@) } else { o.preferred_languages@ })
    &&& n.common_tasks@ == (if tasks.len() > 0 { join_spec(tasks, ", "@) } else { o.common_tasks@ })
    &&& n.expertise_level == o.expertise_level
    &&& n.interaction_style == o.interaction_style
    &&& n.skill_preferences == o.skill_preferences
}

/// Takes the remembered entries `entries` into profile `p`: counts the
/// session and its messages, and records the languages (case ignored) and
/// tasks that their texts mention.
pub fn aggregate_profile(p: &mut UserProfile, entries: &[MemoryEntry])
    requires
        old(p).total_messages + entries@.len() <= u32::MAX,
        old(p).session_count < u32::MAX,
    ensures
        aggregated(*old(p), *final(p), entries@),
{
    p.total_messages = p.total_messages + entries.len() as u32;
    p.session_count = p.session_count + 1;
    let mut texts: Vec<String> = Vec::new();
    let mut i: usize = 0;
    while i < entries.len()
        invariant
            i <= entries@.len(),
            views(texts@) == contents(entries@.take(i as int)),
        decreases entries@.len() - i,
    {
        let ghost before = texts@;
        texts.push(entries[i].content.clone());
        assert(views(texts@) =~= views(before).push(entries@[i as int].content@));
        assert(contents(entries@.take(i + 1)) =~= contents(entries@.take(i as int)).push(entries@[i as int].content@));
        i = i + 1;
    }
    assert(entries@.take(entries@.len() as int) =~= entries@);
    let all = join(&texts, " ");
    let all_s = from_chars(all.as_slice());
    let lower = crate::text::to_lowercase(all_s.as_str());
    let lower_c = to_chars(lower.as_str());
    let mut langs: Vec<String> = Vec::new();
    let mut k: usize = 0;
    while k < 17
        invariant
            k <= 17,
            views(langs@) == found_names(lang_keywords(), lang_keywords(), lower_c@, k as int),
        decreases 17 - k,
    {
        let kw = lang_keyword(k);
        if crate::text::str_contains(lower_c.as_slice(), kw) {
            let ghost before = langs@;
            langs.push(kw.to_string());
            assert(views(langs@) =~= views(before).push(kw@));
        }
        k = k + 1;
    }
    if langs.len() > 0 {
        let j = join(&langs, ", ");
        p.preferred_languages = from_chars(j.as_slice());
    }
    let mut tasks: Vec<String> = Vec::new();
    let mut t: usize = 0;
    while t < 12
        invariant
            t <= 12,
            views(tasks@) == found_names(task_words(), task_names(), all@, t as int),
        decreases 12 - t,
    {
        let (w, n) = task_pair(t);
        if crate::text::str_contains(all.as_slice(), w) {
            let ghost before = tasks@;
            tasks.push(n.to_string());
            assert(views(tasks@) =~= views(before).push(n@));
        }
        t = t + 1;
    }
    if tasks.len() > 0 {
        let j = join(&tasks, ", ");
        p.common_tasks = from_chars(j.as_slice());
    }
}

// ---------------------------------------------------------------------------
// MEMORY.md
// ---------------------------------------------------------------------------

/// The line of `MEMORY.md` for entry `e`: its first 200 characters and its
/// tags, with a truncation note below when it is longer.
pub open spec fn memory_line(e: MemoryEntry) -> Seq<char> {
    let c = e.content@;
    let preview = if c.len() > 200 { c.take(200) } else { c };
    let tags = if e.tags@.len() == 0 { Seq::empty() } else { " `["@ + join_spec(views(e.tags@), ", "@) + "]`"@ };
    "- "@ + preview + tags + "\n"@ + (if c.len() > 200 { "  *(截断)*\n"@ } else { Seq::empty() })
}

/// The lines of `MEMORY.md` for the entries `es`.
pub open spec fn memory_lines(es: Seq<MemoryEntry>) -> Seq<char>
    decreases es.len(),
{
    if es.len() == 0 {
        Seq::empty()
    } else {
        memory_lines(es.drop_last()) + memory_line(es.last())
    }
}

/// The text of `MEMORY.md` for the entries `es`.
pub open spec fn memory_md_spec(es: Seq<MemoryEntry>) -> Seq<char> {
    "# 系统记忆\n\n> ⚠ 此文件由 AI 自动维护，你也可以手动编辑。\n\n"@ + memory_lines(es)
        + (if es.len() == 0 { "*(暂无记忆)*\n"@ } else { Seq::empty() })
}

/// Appends the `MEMORY.md` line of entry `e`.
fn push_memory_line(v: &mut Vec<char>, e: &MemoryEntry)
    ensures
        final(v)@ == old(v)@ + memory_line(*e),
{
    let c = to_chars(e.content.as_str());
    let n = if c.len() > 200 { 200 } else { c.len() };
    let preview = crate::text::slice_to_vec(c.as_slice(), 0, n);
    let mut line = to_chars("- ");
    extend_chars(&mut line, preview.as_slice());
    if e.tags.len() > 0 {
        push_str(&mut line, " `[");
        let j = join(&e.tags, ", ");
        extend_chars(&mut line, j.as_slice());
        push_str(&mut line, "]`");
    }
    push_str(&mut line, "\n");
    if c.len() > 200 {
        push_str(&mut line, "  *(截断)*\n");
    }
    assert(line@ =~= memory_line(*e));
    extend_chars(v, line.as_slice());
}

/// The text of `MEMORY.md` listing the entries `entries`.
pub fn render_memory_md(entries: &[MemoryEntry]) -> (r: String)
    ensures
        r@ == memory_md_spec(entries@),
{
    let mut v = to_chars("# 系统记忆\n\n> ⚠ 此文件由 AI 自动维护，你也可以手动编辑。\n\n");
    let ghost head = v@;
    let mut i: usize = 0;
    while i < entries.len()
        invariant
            i <= entries@.len(),
            v@ == head + memory_lines(entries@.take(i as int)),
        decreases entries@.len() - i,
    {
        assert(entries@.take(i + 1).drop_last() =~= entries@.take(i as int));
        push_memory_line(&mut v, &entries[i]);
        assert(v@ =~= head + memory_lines(entries@.take(i + 1)));
        i = i + 1;
    }
    assert(entries@.take(entries@.len() as int) =~= entries@);
    if entries.len() == 0 {
        push_str(&mut v, "*(暂无记忆)*\n");
    } else {
        assert(v@ =~= v@ + Seq::<char>::empty());
    }
    from_chars(v.as_slice())
}

} // verus!

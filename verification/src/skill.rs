//! Skills: Markdown playbooks with a small frontmatter, usage statistics and
//! the in-memory engine that creates, finds, lists and updates them.
//!
//! The engine keeps its skills in a vector whose names are unique; reading
//! and writing the `.md` files is done by the caller with the texts that
//! `render_skill_markdown` and `parse_skill_markdown` produce and read.

use vstd::prelude::*;
use vstd::string::{StringExecFns, StrSliceExecFns};
use crate::text::{
    join_into, join_path,
    parse_u64, parse_u64_spec, find, find_from_spec, first_occurrence_from, has_prefix, index_of_char, lemma_first_occurrence_unique,
    lines, lines_spec, occurs_at, starts_with, position_of, slice_to_vec, split_char, split_spec, trim_matches,
    trim_matches_spec, contains_seq, decimal, decimal_chars, join, join_spec, views, decimal_chars_wide, eq_str, extend_chars, push_str, str_contains, from_chars, is_alnum, is_alphanumeric, lowercase, to_chars, to_lowercase, trim, trim_spec,
};

verus! {

// ---------------------------------------------------------------------------
// Run mode
// ---------------------------------------------------------------------------

/// How a skill runs.
#[derive(Debug, Clone, Copy, PartialEq, Eq, Structural)]
pub enum RunAs {
    /// The body is appended to the parent's log.
    Inline,
    /// The body runs in an isolated sub-agent.
    Subagent,
}

/// Name of a run mode.
pub open spec fn run_as_name(r: RunAs) -> Seq<char> {
    match r {
        RunAs::Inline => "inline"@,
        RunAs::Subagent => "subagent"@,
    }
}

/// `s` in small letters as `str::to_lowercase` writes it; for ASCII text
/// only `A`..`Z` change.
#[verifier::opaque]
pub open spec fn small(s: Seq<char>) -> Seq<char> {
    if crate::text::all_ascii(s) { crate::text::ascii_lower(s) } else { lowercase(s) }
}

/// Run mode named by `s`: `subagent` (trimmed, any case), else inline.
pub open spec fn run_as_of(s: Seq<char>) -> RunAs {
    if small(trim_spec(s)) == "subagent"@ {
        RunAs::Subagent
    } else {
        RunAs::Inline
    }
}

/// A run mode read back from its name is the same run mode.
pub proof fn lemma_run_as_round_trip(r: RunAs)
    ensures
        run_as_of(run_as_name(r)) == r,
{
    reveal(small);
    reveal_strlit("subagent");
    reveal_strlit("inline");
    let n = run_as_name(r);
    assert(crate::text::leading_count(n, crate::text::ws()) == 0);
    assert(crate::text::trim_start_spec(n) =~= n);
    assert(crate::text::trailing_count(n, crate::text::ws()) == 0);
    assert(trim_spec(n) =~= n);
    assert(crate::text::all_ascii(n));
    assert(crate::text::ascii_lower(n) =~= n);
}

impl RunAs {
    /// Name of this run mode.
    pub fn as_str(&self) -> (r: &'static str)
        ensures
            r@ == run_as_name(*self),
    {
        match self {
            RunAs::Inline => "inline",
            RunAs::Subagent => "subagent",
        }
    }

    /// Run mode named by `s`; anything but `subagent` is inline.
    pub fn from_str(s: &str) -> (r: RunAs)
        ensures
            r == run_as_of(s@),
    {
        let cs = to_chars(s);
        let t = trim(cs.as_slice());
        let ts = from_chars(t.as_slice());
        let low = to_lowercase(ts.as_str());
        let lc = to_chars(low.as_str());
        assert(low@ == small(trim_spec(s@))) by {
            reveal(small);
        }
        if eq_str(lc.as_slice(), "subagent") {
            RunAs::Subagent
        } else {
            RunAs::Inline
        }
    }
}

// ---------------------------------------------------------------------------
// Usage telemetry
// ---------------------------------------------------------------------------

/// Usage counters kept beside a skill file.
#[derive(Debug, Clone)]
pub struct UsageTelemetry {
    /// Times the skill was run.
    pub use_count: u64,
    /// Times the skill was viewed or listed.
    pub view_count: u64,
    /// Times the skill was patched.
    pub patch_count: u64,
    /// Last use (RFC 3339).
    pub last_used_at: Option<String>,
    /// Creation time (RFC 3339).
    pub created_at: Option<String>,
    /// Archiving time (RFC 3339).
    pub archived_at: Option<String>,
    /// Kept active by the curator whatever its age.
    pub pinned: bool,
}

/// The current UTC time in RFC 3339 form (`chrono::Utc::now().to_rfc3339()`).
/// Nothing is stated of the text: it depends on the clock.
#[verifier::external_body]
pub(crate) fn now_rfc3339() -> String {
    chrono::Utc::now().to_rfc3339()
}

impl UsageTelemetry {
    /// Fresh counters for a newly created skill, stamped with the current time.
    pub fn new() -> (t: UsageTelemetry)
        ensures
            t.use_count == 0,
            t.view_count == 0,
            t.patch_count == 0,
            t.last_used_at is None,
            t.created_at is Some,
            t.archived_at is None,
            !t.pinned,
    {
        UsageTelemetry {
            use_count: 0,
            view_count: 0,
            patch_count: 0,
            last_used_at: None,
            created_at: Some(now_rfc3339()),
            archived_at: None,
            pinned: false,
        }
    }
}

/// The trimmed text after `prefix` on the last line of `ls` that starts
/// with it once trimmed.
pub open spec fn legacy_value(ls: Seq<Seq<char>>, prefix: Seq<char>) -> Option<Seq<char>>
    decreases ls.len(),
{
    if ls.len() == 0 {
        None
    } else {
        let l = trim_spec(ls.last());
        if has_prefix(l, prefix) {
            Some(trim_spec(l.skip(prefix.len() as int)))
        } else {
            legacy_value(ls.drop_last(), prefix)
        }
    }
}

/// The use count that the annotation lines of an older skill file give:
/// the last `# use_count: ` line's number, 0 when it has none or no number.
pub open spec fn legacy_use_count(c: Seq<char>) -> u64 {
    match legacy_value(lines_spec(c), "# use_count: "@) {
        Some(v) => match parse_u64_spec(v) {
            Some(n) => n,
            None => 0,
        },
        None => 0,
    }
}

/// The text after `prefix` on `line` (trimmed) when it starts with it.
fn after_prefix(line: &[char], prefix: &str) -> (r: Option<Vec<char>>)
    ensures
        opt_chars(r) == (if has_prefix(trim_spec(line@), prefix@) {
            Some(trim_spec(trim_spec(line@).skip(prefix@.len() as int)))
        } else {
            None
        }),
{
    let t = trim(line);
    let p = to_chars(prefix);
    if starts_with(t.as_slice(), p.as_slice()) {
        let rest = slice_to_vec(t.as_slice(), p.len(), t.len());
        assert(rest@ =~= t@.skip(p@.len() as int));
        Some(trim(rest.as_slice()))
    } else {
        None
    }
}

impl UsageTelemetry {
    /// Counters recovered from the annotation lines of an older skill file
    /// (`# use_count: ` and `# last_used: `), stamped with the current time.
    pub fn from_legacy_markdown(content: &str) -> (t: UsageTelemetry)
        ensures
            t.use_count == legacy_use_count(content@),
            opt_view(t.last_used_at) == legacy_value(lines_spec(content@), "# last_used: "@),
            t.view_count == 0,
            t.patch_count == 0,
            t.created_at is Some,
            t.archived_at is None,
            !t.pinned,
    {
        let mut t = UsageTelemetry::new();
        let c = to_chars(content);
        let ls = lines(c.as_slice());
        let ghost lsv = ls@.map_values(|v: Vec<char>| v@);
        assert(lsv =~= lines_spec(content@));
        let mut count: Option<Vec<char>> = None;
        let mut last: Option<Vec<char>> = None;
        let mut i: usize = 0;
        while i < ls.len()
            invariant
                i <= ls@.len(),
                lsv == ls@.map_values(|v: Vec<char>| v@),
                opt_chars(count) == legacy_value(lsv.take(i as int), "# use_count: "@),
                opt_chars(last) == legacy_value(lsv.take(i as int), "# last_used: "@),
            decreases ls@.len() - i,
        {
            assert(lsv.take(i + 1).drop_last() =~= lsv.take(i as int));
            assert(lsv.take(i + 1).last() == ls@[i as int]@);
            match after_prefix(ls[i].as_slice(), "# use_count: ") {
                Some(v) => {
                    count = Some(v);
                },
                None => {},
            }
            match after_prefix(ls[i].as_slice(), "# last_used: ") {
                Some(v) => {
                    last = Some(v);
                },
                None => {},
            }
            i = i + 1;
        }
        assert(lsv.take(ls@.len() as int) =~= lsv);
        t.use_count = match count {
            Some(v) => match parse_u64(v.as_slice()) {
                Some(n) => n,
                None => 0,
            },
            None => 0,
        };
        t.last_used_at = match last {
            Some(v) => Some(from_chars(v.as_slice())),
            None => None,
        };
        t
    }

    /// Whole days since the last use; none without a last use or when its
    /// time does not parse.
    pub fn days_since_last_used(&self) -> (r: Option<i64>)
        ensures
            r is Some == (self.last_used_at matches Some(s) && rfc3339_valid(s@)),
    {
        match &self.last_used_at {
            Some(s) => days_since(s.as_str()),
            None => None,
        }
    }
}

/// Whether `chrono::DateTime::parse_from_rfc3339` reads the text `s`.
pub uninterp spec fn rfc3339_valid(s: Seq<char>) -> bool;

/// Whole days from the RFC 3339 time `s` to now (`chrono`'s
/// `DateTime::parse_from_rfc3339`, then `Utc::now() - t` in whole days);
/// none exactly when `s` does not parse, which is named `rfc3339_valid`.
/// The number of days is not stated: it depends on the clock.
#[verifier::external_body]
fn days_since(s: &str) -> (r: Option<i64>)
    ensures
        r is Some == rfc3339_valid(s@),
{
    match chrono::DateTime::parse_from_rfc3339(s) {
        Ok(dt) => Some((chrono::Utc::now() - dt.with_timezone(&chrono::Utc)).num_days()),
        Err(_) => None,
    }
}

// ---------------------------------------------------------------------------
// Skills
// ---------------------------------------------------------------------------

/// A skill.
#[derive(Debug, Clone)]
pub struct Skill {
    /// Identifier.
    pub name: String,
    /// Category directory (none: the root of the skills directory).
    pub category: Option<String>,
    /// One-line description.
    pub description: String,
    /// Markdown body.
    pub body: String,
    /// Run mode.
    pub run_as: RunAs,
    /// Tools the skill may use (empty: all).
    pub allowed_tools: Vec<String>,
    /// Model override for sub-agent runs.
    pub model: Option<String>,
    /// Runs.
    pub use_count: u64,
    /// Successful runs.
    pub success_count: u64,
    /// Failed runs.
    pub fail_count: u64,
    /// Last use.
    pub last_used: Option<String>,
    /// Total run time in milliseconds.
    pub total_duration_ms: u64,
}

/// A skill is healthy when it was used and more than half of its runs
/// succeeded.
pub open spec fn skill_healthy(s: Skill) -> bool {
    s.use_count > 0 && 2 * s.success_count > s.use_count
}

/// A skill needs attention when it was used and fewer than 30% of its runs
/// succeeded.
pub open spec fn skill_needs_attention(s: Skill) -> bool {
    s.use_count > 0 && 10 * s.success_count < 3 * s.use_count
}

impl Skill {
    /// Mean run time in milliseconds (0 before the first run).
    pub fn avg_duration_ms(&self) -> (r: u64)
        ensures
            self.use_count == 0 ==> r == 0,
            self.use_count > 0 ==> r == self.total_duration_ms / self.use_count,
    {
        if self.use_count == 0 {
            return 0;
        }
        self.total_duration_ms / self.use_count
    }

    /// Used, with a success rate above one half.
    pub fn is_healthy(&self) -> (r: bool)
        ensures
            r == skill_healthy(*self),
    {
        self.use_count > 0 && 2 * (self.success_count as u128) > self.use_count as u128
    }

    /// Used, with a success rate below 30%.
    pub fn needs_attention(&self) -> (r: bool)
        ensures
            r == skill_needs_attention(*self),
    {
        self.use_count > 0 && 10 * (self.success_count as u128) < 3 * (self.use_count as u128)
    }
}

/// Errors of the skill engine.
#[derive(Debug)]
pub enum SkillError {
    /// Reading or writing a skill file failed.
    Io(String),
    /// The name or category is not allowed.
    InvalidName(String),
    /// A skill of that name exists.
    AlreadyExists(String),
    /// No skill of that name.
    NotFound(String),
    /// A skill file could not be read.
    Parse(String),
}

// ---------------------------------------------------------------------------
// Paths
// ---------------------------------------------------------------------------

/// The file of the skill `name` in `category` under `dir`, with the file
/// name `name` followed by `ext`.
pub open spec fn skill_file_with(dir: Seq<char>, name: Seq<char>, category: Option<Seq<char>>, ext: Seq<char>) -> Seq<char> {
    match category {
        Some(c) => join_path(join_path(dir, c), name + ext),
        None => join_path(dir, name + ext),
    }
}

/// The Markdown file of a skill.
pub open spec fn skill_file_spec(dir: Seq<char>, name: Seq<char>, category: Option<Seq<char>>) -> Seq<char> {
    skill_file_with(dir, name, category, ".md"@)
}

/// The usage file kept beside a skill's Markdown file.
pub open spec fn usage_file_spec(dir: Seq<char>, name: Seq<char>, category: Option<Seq<char>>) -> Seq<char> {
    skill_file_with(dir, name, category, ".usage.json"@)
}

/// The text of an optional string.
pub open spec fn opt_view(o: Option<String>) -> Option<Seq<char>> {
    match o {
        Some(s) => Some(s@),
        None => None,
    }
}

/// The text of an optional string slice.
pub open spec fn opt_str_view(o: Option<&str>) -> Option<Seq<char>> {
    match o {
        Some(s) => Some(s@),
        None => None,
    }
}

/// The file of skill `name` in `category` under `dir`, ending in `ext`.
fn skill_file_path(dir: &str, name: &str, category: &Option<String>, ext: &str) -> (r: String)
    ensures
        r@ == skill_file_with(dir@, name@, opt_view(*category), ext@),
{
    let mut p = to_chars(dir);
    match category {
        Some(c) => {
            let cc = to_chars(c.as_str());
            join_into(&mut p, cc.as_slice());
        },
        None => {},
    }
    let mut f = to_chars(name);
    push_str(&mut f, ext);
    join_into(&mut p, f.as_slice());
    from_chars(p.as_slice())
}

/// `c` may stand in a name: alphanumeric (for ASCII, a letter or digit),
/// `_` or `-`.
pub open spec fn ident_char(c: char) -> bool {
    (if (c as u32) < 0x80 { crate::text::ascii_alnum(c) } else { is_alnum(c) }) || c == '_' || c == '-'
}

/// Every character of `s` is alphanumeric, `_` or `-`.
pub open spec fn valid_ident(s: Seq<char>) -> bool {
    forall|i: int| 0 <= i < s.len() ==> ident_char(#[trigger] s[i])
}

/// Whether every character of `s` is alphanumeric, `_` or `-`.
fn is_valid_ident(s: &str) -> (r: bool)
    ensures
        r == valid_ident(s@),
{
    let cs = to_chars(s);
    let mut i: usize = 0;
    while i < cs.len()
        invariant
            i <= cs@.len(),
            cs@ == s@,
            forall|j: int| 0 <= j < i ==> ident_char(#[trigger] cs@[j]),
        decreases cs@.len() - i,
    {
        let c = cs[i];
        if !(is_alphanumeric(c) || c == '_' || c == '-') {
            return false;
        }
        i = i + 1;
    }
    true
}

/// `k` is a skill as `create_with_category` makes it.
pub open spec fn fresh_skill(k: Skill, name: Seq<char>, category: Option<Seq<char>>, description: Seq<char>, body: Seq<char>, run_as: RunAs) -> bool {
    &&& k.name@ == name
    &&& opt_view(k.category) == category
    &&& k.description@ == description
    &&& k.body@ == body
    &&& k.run_as == run_as
    &&& k.allowed_tools@.len() == 0
    &&& k.model is None
    &&& k.use_count == 0
    &&& k.success_count == 0
    &&& k.fail_count == 0
    &&& k.last_used is None
    &&& k.total_duration_ms == 0
}

/// `e` is `InvalidName` with the text `m`.
pub open spec fn invalid_name_with(e: SkillError, m: Seq<char>) -> bool {
    e matches SkillError::InvalidName(t) && t@ == m
}

// ---------------------------------------------------------------------------
// Skill files
// ---------------------------------------------------------------------------

/// `prefix`, the text of `o` and a newline; nothing when `o` is none.
pub open spec fn opt_line(prefix: Seq<char>, o: Option<String>) -> Seq<char> {
    match o {
        Some(v) => prefix + v@ + "\n"@,
        None => Seq::empty(),
    }
}

/// The frontmatter lines of a skill file.
pub open spec fn frontmatter_spec(k: Skill) -> Seq<char> {
    "description: \""@ + k.description@ + "\"\n"@
        + opt_line("category: "@, k.category)
        + "run_as: "@ + run_as_name(k.run_as) + "\n"@
        + (if k.allowed_tools@.len() > 0 {
            "allowed_tools: ["@ + join_spec(views(k.allowed_tools@), ", "@) + "]\n"@
        } else {
            Seq::empty()
        })
        + opt_line("model: "@, k.model)
        + "# use_count: "@ + decimal(k.use_count as nat) + "\n"@
        + "# success_count: "@ + decimal(k.success_count as nat) + "\n"@
        + "# fail_count: "@ + decimal(k.fail_count as nat) + "\n"@
        + opt_line("# last_used: "@, k.last_used)
        + "# total_duration_ms: "@ + decimal(k.total_duration_ms as nat) + "\n"@
}

/// The text of a skill file: the frontmatter between `---` lines, a blank
/// line, the body and a newline.
pub open spec fn render_spec(k: Skill) -> Seq<char> {
    "---\n"@ + frontmatter_spec(k) + "---\n\n"@ + k.body@ + "\n"@
}

/// Appends `prefix`, the text of `o` and a newline when `o` is some.
fn push_opt_line(v: &mut Vec<char>, prefix: &str, o: &Option<String>)
    ensures
        final(v)@ == old(v)@ + opt_line(prefix@, *o),
{
    match o {
        Some(t) => {
            push_str(v, prefix);
            push_str(v, t.as_str());
            push_str(v, "\n");
        },
        None => {
            assert(old(v)@ + Seq::<char>::empty() =~= old(v)@);
        },
    }
}

/// Appends `prefix`, the decimal digits of `n` and a newline.
fn push_count_line(v: &mut Vec<char>, prefix: &str, n: u64)
    ensures
        final(v)@ == old(v)@ + prefix@ + decimal(n as nat) + "\n"@,
{
    push_str(v, prefix);
    let d = decimal_chars(n);
    extend_chars(v, d.as_slice());
    push_str(v, "\n");
}

/// The frontmatter lines of skill `k`.
fn render_frontmatter(k: &Skill) -> (r: Vec<char>)
    ensures
        r@ == frontmatter_spec(*k),
{
    let mut v = to_chars("description: \"");
    push_str(&mut v, k.description.as_str());
    push_str(&mut v, "\"\n");
    push_opt_line(&mut v, "category: ", &k.category);
    push_str(&mut v, "run_as: ");
    push_str(&mut v, k.run_as.as_str());
    push_str(&mut v, "\n");
    let ghost mid = v@;
    let ghost tools_part: Seq<char> = if k.allowed_tools@.len() > 0 {
        "allowed_tools: ["@ + join_spec(views(k.allowed_tools@), ", "@) + "]\n"@
    } else {
        Seq::empty()
    };
    if k.allowed_tools.len() > 0 {
        push_str(&mut v, "allowed_tools: [");
        let j = join(&k.allowed_tools, ", ");
        extend_chars(&mut v, j.as_slice());
        push_str(&mut v, "]\n");
        assert(v@ =~= mid + tools_part);
    } else {
        assert(v@ =~= mid + tools_part);
    }
    push_opt_line(&mut v, "model: ", &k.model);
    push_count_line(&mut v, "# use_count: ", k.use_count);
    push_count_line(&mut v, "# success_count: ", k.success_count);
    push_count_line(&mut v, "# fail_count: ", k.fail_count);
    push_opt_line(&mut v, "# last_used: ", &k.last_used);
    push_count_line(&mut v, "# total_duration_ms: ", k.total_duration_ms);
    v
}

/// The text of the file that stores skill `k`.
pub fn render_skill_markdown(k: &Skill) -> (r: String)
    ensures
        r@ == render_spec(*k),
{
    let mut v = to_chars("---\n");
    let fm = render_frontmatter(k);
    extend_chars(&mut v, fm.as_slice());
    push_str(&mut v, "---\n\n");
    push_str(&mut v, k.body.as_str());
    push_str(&mut v, "\n");
    from_chars(v.as_slice())
}

/// The key and value of a frontmatter line `key: value`: both trimmed, the
/// value also without surrounding double quotes.
pub open spec fn fm_entry_spec(line: Seq<char>) -> Option<(Seq<char>, Seq<char>)> {
    let l = trim_spec(line);
    match index_of_char(l, ':') {
        Some(p) => Some((trim_spec(l.take(p)), trim_matches_spec(trim_spec(l.skip(p + 1)), '"'))),
        None => None,
    }
}

/// Accepts every value.
pub open spec fn any_value() -> spec_fn(Seq<char>) -> bool {
    |v: Seq<char>| true
}

/// Accepts a category value: not empty and not `null`.
pub open spec fn real_category() -> spec_fn(Seq<char>) -> bool {
    |v: Seq<char>| v.len() > 0 && v != "null"@
}

/// The value of the last line of `lines` with key `key` whose value `ok`
/// accepts.
pub open spec fn last_value(lines: Seq<Seq<char>>, key: Seq<char>, ok: spec_fn(Seq<char>) -> bool) -> Option<Seq<char>>
    decreases lines.len(),
{
    if lines.len() == 0 {
        None
    } else {
        let e = fm_entry_spec(lines.last());
        if e is Some && e->Some_0.0 == key && ok(e->Some_0.1) {
            Some(e->Some_0.1)
        } else {
            last_value(lines.drop_last(), key, ok)
        }
    }
}

/// A tool name from a list entry: trimmed, without brackets, trimmed again.
pub open spec fn clean_tool(p: Seq<char>) -> Seq<char> {
    trim_spec(trim_matches_spec(trim_matches_spec(trim_spec(p), '['), ']'))
}

/// The non-empty cleaned tool names of the pieces `ps`, in order.
pub open spec fn clean_tools(ps: Seq<Seq<char>>) -> Seq<Seq<char>>
    decreases ps.len(),
{
    if ps.len() == 0 {
        Seq::empty()
    } else {
        let r = clean_tools(ps.drop_last());
        let c = clean_tool(ps.last());
        if c.len() > 0 { r.push(c) } else { r }
    }
}

/// The tool names of an `allowed_tools` value: its comma-separated pieces.
pub open spec fn tools_spec(v: Seq<char>) -> Seq<Seq<char>> {
    clean_tools(split_spec(v, ','))
}

/// The first non-empty line of `ls`, or nothing.
pub open spec fn first_nonempty(ls: Seq<Seq<char>>) -> Seq<char>
    decreases ls.len(),
{
    if ls.len() == 0 {
        Seq::empty()
    } else if ls[0].len() > 0 {
        ls[0]
    } else {
        first_nonempty(ls.drop_first())
    }
}

/// The frontmatter and body of a skill file: after trimming, a file that
/// starts with `---` and has a later line starting with `---` has the text
/// between them as frontmatter, and the trimmed rest as body; any other
/// file is all body.
pub open spec fn split_frontmatter(c: Seq<char>) -> (Option<Seq<char>>, Seq<char>) {
    let t = trim_spec(c);
    if has_prefix(t, seq!['-', '-', '-']) {
        match find_from_spec(t.skip(3), seq!['\n', '-', '-', '-'], 0) {
            Some(end) => (Some(t.skip(3).take(end)), trim_spec(t.skip(3).skip(end + 4))),
            None => (None, t),
        }
    } else {
        (None, t)
    }
}

/// The lines of the frontmatter of `c`.
pub open spec fn fm_lines(c: Seq<char>) -> Seq<Seq<char>> {
    match split_frontmatter(c).0 {
        Some(f) => lines_spec(f),
        None => Seq::empty(),
    }
}

/// The description of `c` before the fallback to the first body line.
pub open spec fn fm_description(c: Seq<char>) -> Seq<char> {
    match last_value(fm_lines(c), "description"@, any_value()) {
        Some(v) => v,
        None => Seq::empty(),
    }
}

/// `k` is the skill read from the file text `c`, named `default_name`
/// unless the frontmatter names it, and in `path_category` unless the
/// frontmatter gives a category.
pub open spec fn parsed_skill(k: Skill, c: Seq<char>, default_name: Seq<char>, path_category: Option<Seq<char>>) -> bool {
    let ls = fm_lines(c);
    let body = split_frontmatter(c).1;
    let cat = last_value(ls, "category"@, real_category());
    &&& k.name@ == (match last_value(ls, "name"@, any_value()) { Some(v) => v, None => default_name })
    &&& opt_view(k.category) == (if cat is Some { cat } else { path_category })
    &&& k.description@ == (if fm_description(c).len() == 0 { first_nonempty(lines_spec(body)) } else { fm_description(c) })
    &&& k.body@ == body
    &&& k.run_as == (match last_value(ls, "run_as"@, any_value()) { Some(v) => run_as_of(v), None => RunAs::Inline })
    &&& views(k.allowed_tools@) == (match last_value(ls, "allowed_tools"@, any_value()) {
        Some(v) => tools_spec(v),
        None => Seq::empty(),
    })
    &&& opt_view(k.model) == last_value(ls, "model"@, any_value())
    &&& k.use_count == 0
    &&& k.success_count == 0
    &&& k.fail_count == 0
    &&& k.last_used is None
    &&& k.total_duration_ms == 0
}

/// The text of an optional character vector.
pub open spec fn opt_chars(o: Option<Vec<char>>) -> Option<Seq<char>> {
    match o {
        Some(v) => Some(v@),
        None => None,
    }
}

/// The key and value of a frontmatter line.
fn fm_entry(line: &[char]) -> (r: Option<(Vec<char>, Vec<char>)>)
    ensures
        match r {
            Some(kv) => fm_entry_spec(line@) == Some((kv.0@, kv.1@)),
            None => fm_entry_spec(line@) is None,
        },
{
    let l = trim(line);
    match position_of(l.as_slice(), ':') {
        Some(p) => {
            let n = l.len();
            assert(0 <= p < n);
            let k0 = slice_to_vec(l.as_slice(), 0, p);
            let k = trim(k0.as_slice());
            let v0 = slice_to_vec(l.as_slice(), p + 1, n);
            let v1 = trim(v0.as_slice());
            let v = trim_matches(v1.as_slice(), '"');
            assert(k0@ =~= l@.take(p as int));
            assert(v0@ =~= l@.skip(p + 1));
            Some((k, v))
        },
        None => None,
    }
}

/// The tool names of an `allowed_tools` value.
fn parse_tools(v: &[char]) -> (r: Vec<String>)
    ensures
        views(r@) == tools_spec(v@),
{
    let parts = split_char(v, ',');
    let ghost ps = parts@.map_values(|x: Vec<char>| x@);
    let mut r: Vec<String> = Vec::new();
    let mut i: usize = 0;
    while i < parts.len()
        invariant
            i <= parts@.len(),
            ps == parts@.map_values(|x: Vec<char>| x@),
            views(r@) == clean_tools(ps.take(i as int)),
        decreases parts@.len() - i,
    {
        let a = trim(parts[i].as_slice());
        let b = trim_matches(a.as_slice(), '[');
        let c = trim_matches(b.as_slice(), ']');
        let d = trim(c.as_slice());
        assert(ps.take(i + 1).drop_last() =~= ps.take(i as int));
        assert(ps.take(i + 1).last() == parts@[i as int]@);
        if d.len() > 0 {
            let ghost before = r@;
            r.push(from_chars(d.as_slice()));
            assert(views(r@) =~= views(before).push(d@));
        }
        i = i + 1;
    }
    assert(ps.take(ps.len() as int) =~= ps);
    r
}

/// The first non-empty line of `body`, or nothing.
fn first_nonempty_line(body: &[char]) -> (r: Vec<char>)
    ensures
        r@ == first_nonempty(lines_spec(body@)),
{
    let ls = lines(body);
    let ghost all = ls@.map_values(|v: Vec<char>| v@);
    assert(all =~= lines_spec(body@));
    assert(all.skip(0) =~= all);
    let mut i: usize = 0;
    while i < ls.len()
        invariant
            i <= ls@.len(),
            all == ls@.map_values(|v: Vec<char>| v@),
            all == lines_spec(body@),
            first_nonempty(all) == first_nonempty(all.skip(i as int)),
        decreases ls@.len() - i,
    {
        assert(all.skip(i as int)[0] == ls@[i as int]@);
        if ls[i].len() > 0 {
            let r = slice_to_vec(ls[i].as_slice(), 0, ls[i].len());
            assert(r@ =~= ls@[i as int]@);
            assert(all.skip(i as int).len() > 0);
            assert(all.skip(i as int)[0].len() > 0);
            assert(first_nonempty(all.skip(i as int)) == all.skip(i as int)[0]);
            return r;
        }
        assert(all.skip(i as int).drop_first() =~= all.skip(i + 1));
        i = i + 1;
    }
    Vec::new()
}

/// The frontmatter and body of a skill file.
fn split_frontmatter_exec(c: &[char]) -> (r: (Option<Vec<char>>, Vec<char>))
    ensures
        opt_chars(r.0) == split_frontmatter(c@).0,
        r.1@ == split_frontmatter(c@).1,
{
    let t = trim(c);
    if t.len() >= 3 && t[0] == '-' && t[1] == '-' && t[2] == '-' {
        assert(t@.take(3) =~= seq!['-', '-', '-']);
        let rest = slice_to_vec(t.as_slice(), 3, t.len());
        assert(rest@ =~= t@.skip(3));
        let mut pat: Vec<char> = Vec::new();
        pat.push('\n');
        pat.push('-');
        pat.push('-');
        pat.push('-');
        assert(pat@ =~= seq!['\n', '-', '-', '-']);
        match find(rest.as_slice(), pat.as_slice()) {
            Some(end) => {
                proof {
                    assert(first_occurrence_from(rest@, pat@, 0, end as int));
                    let k = choose|k: int| first_occurrence_from(rest@, pat@, 0, k);
                    lemma_first_occurrence_unique(rest@, pat@, 0, k, end as int);
                }
                let fm = slice_to_vec(rest.as_slice(), 0, end);
                let tail = slice_to_vec(rest.as_slice(), end + 4, rest.len());
                assert(tail@ =~= rest@.skip(end + 4));
                assert(fm@ =~= rest@.take(end as int));
                let body = trim(tail.as_slice());
                (Some(fm), body)
            },
            None => {
                proof {
                    if exists|k: int| first_occurrence_from(rest@, pat@, 0, k) {
                        let k = choose|k: int| first_occurrence_from(rest@, pat@, 0, k);
                        assert(occurs_at(rest@, pat@, k));
                    }
                }
                (None, t)
            },
        }
    } else {
        proof {
            if has_prefix(t@, seq!['-', '-', '-']) {
                assert(t@[0] == t@.take(3)[0]);
                assert(t@[1] == t@.take(3)[1]);
                assert(t@[2] == t@.take(3)[2]);
            }
        }
        (None, t)
    }
}

/// Whether `v` is a category value: not empty and not `null`.
fn is_real_category(v: &[char]) -> (r: bool)
    ensures
        r == real_category()(v@),
{
    v.len() > 0 && !eq_str(v, "null")
}

/// Replaces `slot` with `v` when `hit`.
fn take_if(slot: &mut Option<Vec<char>>, hit: bool, v: &Vec<char>)
    ensures
        opt_chars(*final(slot)) == (if hit { Some(v@) } else { opt_chars(*old(slot)) }),
{
    if hit {
        *slot = Some(slice_to_vec(v.as_slice(), 0, v.len()));
        assert(v@.subrange(0, v@.len() as int) =~= v@);
    }
}

/// The skill in the file text `content`: named `default_name` unless the
/// frontmatter names it, in `path_category` unless the frontmatter gives a
/// category, described by its first body line unless the frontmatter
/// describes it.
pub fn parse_skill_markdown_with(content: &str, default_name: &str, path_category: Option<&str>) -> (k: Skill)
    ensures
        parsed_skill(k, content@, default_name@, opt_str_view(path_category)),
{
    let c = to_chars(content);
    let (fm, body) = split_frontmatter_exec(c.as_slice());
    let ls: Vec<Vec<char>> = match fm {
        Some(f) => lines(f.as_slice()),
        None => Vec::new(),
    };
    let ghost lsv = ls@.map_values(|v: Vec<char>| v@);
    assert(lsv =~= fm_lines(content@));
    let mut name: Option<Vec<char>> = None;
    let mut category: Option<Vec<char>> = None;
    let mut description: Option<Vec<char>> = None;
    let mut run_as: Option<Vec<char>> = None;
    let mut tools: Option<Vec<char>> = None;
    let mut model: Option<Vec<char>> = None;
    let mut i: usize = 0;
    while i < ls.len()
        invariant
            i <= ls@.len(),
            lsv == ls@.map_values(|v: Vec<char>| v@),
            opt_chars(name) == last_value(lsv.take(i as int), "name"@, any_value()),
            opt_chars(category) == last_value(lsv.take(i as int), "category"@, real_category()),
            opt_chars(description) == last_value(lsv.take(i as int), "description"@, any_value()),
            opt_chars(run_as) == last_value(lsv.take(i as int), "run_as"@, any_value()),
            opt_chars(tools) == last_value(lsv.take(i as int), "allowed_tools"@, any_value()),
            opt_chars(model) == last_value(lsv.take(i as int), "model"@, any_value()),
        decreases ls@.len() - i,
    {
        assert(lsv.take(i + 1).drop_last() =~= lsv.take(i as int));
        assert(lsv.take(i + 1).last() == ls@[i as int]@);
        match fm_entry(ls[i].as_slice()) {
            Some(kv) => {
                let (key, v) = kv;
                let h = eq_str(key.as_slice(), "name");
                take_if(&mut name, h, &v);
                let h = eq_str(key.as_slice(), "category") && is_real_category(v.as_slice());
                take_if(&mut category, h, &v);
                let h = eq_str(key.as_slice(), "description");
                take_if(&mut description, h, &v);
                let h = eq_str(key.as_slice(), "run_as");
                take_if(&mut run_as, h, &v);
                let h = eq_str(key.as_slice(), "allowed_tools");
                take_if(&mut tools, h, &v);
                let h = eq_str(key.as_slice(), "model");
                take_if(&mut model, h, &v);
            },
            None => {},
        }
        i = i + 1;
    }
    assert(lsv.take(ls@.len() as int) =~= lsv);
    let name_s = match name {
        Some(v) => from_chars(v.as_slice()),
        None => default_name.to_string(),
    };
    let category_s: Option<String> = match category {
        Some(v) => Some(from_chars(v.as_slice())),
        None => match path_category {
            Some(p) => Some(p.to_string()),
            None => None,
        },
    };
    let d = match description {
        Some(v) => v,
        None => Vec::new(),
    };
    let description_s = if d.len() == 0 {
        let f = first_nonempty_line(body.as_slice());
        from_chars(f.as_slice())
    } else {
        from_chars(d.as_slice())
    };
    let run_as_v = match run_as {
        Some(v) => {
            let t = from_chars(v.as_slice());
            RunAs::from_str(t.as_str())
        },
        None => RunAs::Inline,
    };
    let tools_v = match tools {
        Some(v) => parse_tools(v.as_slice()),
        None => Vec::new(),
    };
    let model_s: Option<String> = match model {
        Some(v) => Some(from_chars(v.as_slice())),
        None => None,
    };
    assert(views(tools_v@) == (match last_value(fm_lines(content@), "allowed_tools"@, any_value()) {
        Some(v) => tools_spec(v),
        None => Seq::<Seq<char>>::empty(),
    })) by {
        if tools is None {
            assert(views(tools_v@) =~= Seq::<Seq<char>>::empty());
        }
    }
    Skill {
        name: name_s,
        category: category_s,
        description: description_s,
        body: from_chars(body.as_slice()),
        run_as: run_as_v,
        allowed_tools: tools_v,
        model: model_s,
        use_count: 0,
        success_count: 0,
        fail_count: 0,
        last_used: None,
        total_duration_ms: 0,
    }
}

/// What `Path::file_stem` gives for the path `p`, as text.
pub uninterp spec fn path_file_stem(p: Seq<char>) -> Option<Seq<char>>;

/// What `Path::parent` gives for the path `p`, as text.
pub uninterp spec fn path_parent(p: Seq<char>) -> Option<Seq<char>>;

/// What `Path::file_name` gives for the path `p`, as text.
pub uninterp spec fn path_file_name(p: Seq<char>) -> Option<Seq<char>>;

/// Whether `Path::eq` holds of the paths `a` and `b` (component-wise).
pub uninterp spec fn path_equal(a: Seq<char>, b: Seq<char>) -> bool;

/// Calls `Path::file_stem` on `p`; the result is named `path_file_stem`.
#[verifier::external_body]
fn file_stem_of(p: &str) -> (r: Option<String>)
    ensures
        opt_view(r) == path_file_stem(p@),
{
    match std::path::Path::new(p).file_stem() {
        Some(s) => s.to_str().map(String::from),
        None => None,
    }
}

/// Calls `Path::parent` on `p`; the result is named `path_parent`.
#[verifier::external_body]
fn parent_of(p: &str) -> (r: Option<String>)
    ensures
        opt_view(r) == path_parent(p@),
{
    match std::path::Path::new(p).parent() {
        Some(s) => s.to_str().map(String::from),
        None => None,
    }
}

/// Calls `Path::file_name` on `p`; the result is named `path_file_name`.
#[verifier::external_body]
fn file_name_of(p: &str) -> (r: Option<String>)
    ensures
        opt_view(r) == path_file_name(p@),
{
    match std::path::Path::new(p).file_name() {
        Some(s) => s.to_str().map(String::from),
        None => None,
    }
}

/// Compares two paths with `Path::eq`; the result is named `path_equal`.
#[verifier::external_body]
fn paths_equal(a: &str, b: &str) -> (r: bool)
    ensures
        r == path_equal(a@, b@),
{
    std::path::Path::new(a) == std::path::Path::new(b)
}

/// The name a skill file at `path` gets when its frontmatter gives none:
/// the file stem, or `unnamed`.
pub open spec fn default_name_of(path: Seq<char>) -> Seq<char> {
    match path_file_stem(path) {
        Some(s) => s,
        None => "unnamed"@,
    }
}

/// The category a skill file at `path` gets when its frontmatter gives
/// none: the name of its directory, unless that directory is `skills`.
pub open spec fn path_category_of(path: Seq<char>) -> Option<Seq<char>> {
    match path_parent(path) {
        Some(p) => if !path_equal(p, "skills"@) { path_file_name(p) } else { None },
        None => None,
    }
}

/// The skill in the file text `content` read from `path`.
pub fn parse_skill_markdown(content: &str, path: &str) -> (k: Skill)
    ensures
        parsed_skill(k, content@, default_name_of(path@), path_category_of(path@)),
{
    let default_name = match file_stem_of(path) {
        Some(s) => s,
        None => "unnamed".to_string(),
    };
    let hint: Option<String> = match parent_of(path) {
        Some(par) => {
            if !paths_equal(par.as_str(), "skills") {
                file_name_of(par.as_str())
            } else {
                None
            }
        },
        None => None,
    };
    let hint_ref: Option<&str> = match &hint {
        Some(h) => Some(h.as_str()),
        None => None,
    };
    parse_skill_markdown_with(content, default_name.as_str(), hint_ref)
}

/// The name of the skill that the file `f` (path, text) holds.
#[verifier::opaque]
pub open spec fn parsed_name(f: (String, String)) -> Seq<char> {
    match last_value(fm_lines(f.1@), "name"@, any_value()) {
        Some(v) => v,
        None => default_name_of(f.0@),
    }
}

/// `k` is the skill that the file `f` (path, text) holds.
#[verifier::opaque]
pub open spec fn parsed_from(k: Skill, f: (String, String)) -> bool {
    parsed_skill(k, f.1@, default_name_of(f.0@), path_category_of(f.0@))
}

/// The skills `s` are those read from `files`, a later file replacing an
/// earlier one of the same name: each file's skill is present, and each
/// skill comes from the last file of its name.
pub open spec fn loaded_from(s: Seq<Skill>, files: Seq<(String, String)>) -> bool {
    &&& names_unique(s)
    &&& forall|f: int| 0 <= f < files.len() ==> has_name(s, parsed_name(#[trigger] files[f]))
    &&& forall|m: int| 0 <= m < s.len() ==> exists|f: int| 0 <= f < files.len()
        && parsed_from(#[trigger] s[m], #[trigger] files[f])
        && forall|g: int| f < g < files.len() ==> parsed_name(#[trigger] files[g]) != s[m].name@
}

/// Reading one more file whose skill replaces the one at `idx` of the same
/// name keeps the skills those read from the files.
#[verifier::rlimit(60)]
#[verifier::spinoff_prover]
proof fn lemma_reload_replace(before: Seq<Skill>, fs: Seq<(String, String)>, file: (String, String), k: Skill, idx: int)
    requires
        loaded_from(before, fs),
        0 <= idx < before.len(),
        before[idx].name@ == k.name@,
        k.name@ == parsed_name(file),
        parsed_from(k, file),
    ensures
        loaded_from(before.update(idx, k), fs.push(file)),
{
    let after = before.update(idx, k);
    let fs2 = fs.push(file);
    assert forall|a: int, b: int| 0 <= a < b < after.len()
        implies (#[trigger] after[a]).name@ != (#[trigger] after[b]).name@ by {
        assert(after[a].name@ == before[a].name@);
        assert(after[b].name@ == before[b].name@);
    }
    assert forall|f: int| 0 <= f < fs2.len() implies has_name(after, parsed_name(#[trigger] fs2[f])) by {
        if f < fs.len() {
            assert(fs2[f] == fs[f]);
            assert(has_name(before, parsed_name(fs[f])));
            let w = choose|w: int| 0 <= w < before.len() && (#[trigger] before[w]).name@ == parsed_name(fs[f]);
            assert(after[w].name@ == before[w].name@);
        } else {
            assert(after[idx].name@ == parsed_name(fs2[f]));
        }
    }
    assert forall|m: int| 0 <= m < after.len() implies exists|f: int| 0 <= f < fs2.len()
        && parsed_from(#[trigger] after[m], #[trigger] fs2[f])
        && forall|g: int| f < g < fs2.len() ==> parsed_name(#[trigger] fs2[g]) != after[m].name@ by {
        if m == idx {
            assert(fs2[fs.len() as int] == file);
            assert(parsed_from(after[m], fs2[fs.len() as int]));
        } else {
            let f = choose|f: int| 0 <= f < fs.len()
                && parsed_from(#[trigger] before[m], #[trigger] fs[f])
                && forall|g: int| f < g < fs.len() ==> parsed_name(#[trigger] fs[g]) != before[m].name@;
            assert(fs2[f] == fs[f]);
            assert(after[m] == before[m]);
            assert forall|g: int| f < g < fs2.len() implies parsed_name(#[trigger] fs2[g]) != after[m].name@ by {
                if g < fs.len() {
                    assert(fs2[g] == fs[g]);
                } else {
                    assert(fs2[g] == file);
                }
            }
            assert(parsed_from(after[m], fs2[f]));
        }
    }
}

/// Reading one more file whose skill has a new name keeps the skills those
/// read from the files.
#[verifier::rlimit(60)]
#[verifier::spinoff_prover]
proof fn lemma_reload_push(before: Seq<Skill>, fs: Seq<(String, String)>, file: (String, String), k: Skill)
    requires
        loaded_from(before, fs),
        !has_name(before, k.name@),
        k.name@ == parsed_name(file),
        parsed_from(k, file),
    ensures
        loaded_from(before.push(k), fs.push(file)),
{
    let after = before.push(k);
    let fs2 = fs.push(file);
    assert forall|a: int, b: int| 0 <= a < b < after.len()
        implies (#[trigger] after[a]).name@ != (#[trigger] after[b]).name@ by {
        if b == before.len() {
            assert(after[a] == before[a]);
        }
    }
    assert forall|f: int| 0 <= f < fs2.len() implies has_name(after, parsed_name(#[trigger] fs2[f])) by {
        if f < fs.len() {
            assert(fs2[f] == fs[f]);
            assert(has_name(before, parsed_name(fs[f])));
            let w = choose|w: int| 0 <= w < before.len() && (#[trigger] before[w]).name@ == parsed_name(fs[f]);
            assert(after[w] == before[w]);
        } else {
            assert(after[before.len() as int].name@ == parsed_name(fs2[f]));
        }
    }
    assert forall|m: int| 0 <= m < after.len() implies exists|f: int| 0 <= f < fs2.len()
        && parsed_from(#[trigger] after[m], #[trigger] fs2[f])
        && forall|g: int| f < g < fs2.len() ==> parsed_name(#[trigger] fs2[g]) != after[m].name@ by {
        if m == before.len() {
            assert(fs2[fs.len() as int] == file);
            assert(parsed_from(after[m], fs2[fs.len() as int]));
        } else {
            let f = choose|f: int| 0 <= f < fs.len()
                && parsed_from(#[trigger] before[m], #[trigger] fs[f])
                && forall|g: int| f < g < fs.len() ==> parsed_name(#[trigger] fs[g]) != before[m].name@;
            assert(fs2[f] == fs[f]);
            assert(after[m] == before[m]);
            assert forall|g: int| f < g < fs2.len() implies parsed_name(#[trigger] fs2[g]) != after[m].name@ by {
                if g < fs.len() {
                    assert(fs2[g] == fs[g]);
                } else {
                    assert(fs2[g] == file);
                    assert(before[m].name@ != k.name@);
                }
            }
            assert(parsed_from(after[m], fs2[f]));
        }
    }
}

// ---------------------------------------------------------------------------
// The engine
// ---------------------------------------------------------------------------

/// Index of the first skill named `name` in `s`, if any.
pub open spec fn first_index_of(s: Seq<Skill>, name: Seq<char>) -> Option<int> {
    if exists|i: int| 0 <= i < s.len() && (#[trigger] s[i]).name@ == name
        && forall|j: int| 0 <= j < i ==> (#[trigger] s[j]).name@ != name {
        Some(choose|i: int| 0 <= i < s.len() && (#[trigger] s[i]).name@ == name
            && forall|j: int| 0 <= j < i ==> (#[trigger] s[j]).name@ != name)
    } else {
        None
    }
}

/// Some skill of `s` is named `name`.
pub open spec fn has_name(s: Seq<Skill>, name: Seq<char>) -> bool {
    exists|i: int| 0 <= i < s.len() && (#[trigger] s[i]).name@ == name
}

/// No two skills of `s` share a name.
pub open spec fn names_unique(s: Seq<Skill>) -> bool {
    forall|i: int, j: int| 0 <= i < j < s.len() ==> (#[trigger] s[i]).name@ != (#[trigger] s[j]).name@
}

/// `k` is the first index of a skill named `name`; then it is what
/// `first_index_of` gives.
pub proof fn lemma_first_index_is(s: Seq<Skill>, name: Seq<char>, k: int)
    requires
        0 <= k < s.len(),
        s[k].name@ == name,
        forall|j: int| 0 <= j < k ==> (#[trigger] s[j]).name@ != name,
    ensures
        first_index_of(s, name) == Some(k),
{
    let i = choose|i: int| 0 <= i < s.len() && (#[trigger] s[i]).name@ == name
        && forall|j: int| 0 <= j < i ==> (#[trigger] s[j]).name@ != name;
    if i < k {
        assert(s[i].name@ != name);
    } else if i > k {
        assert(s[k].name@ != name);
    }
}

/// With no skill named `name`, `first_index_of` gives nothing.
pub proof fn lemma_first_index_none(s: Seq<Skill>, name: Seq<char>)
    requires
        forall|j: int| 0 <= j < s.len() ==> (#[trigger] s[j]).name@ != name,
    ensures
        first_index_of(s, name) is None,
        !has_name(s, name),
{
}

/// A new skill named `name` in `category` may be added to `old`.
pub open spec fn create_allowed(old: Seq<Skill>, name: Seq<char>, category: Option<Seq<char>>) -> bool {
    &&& name.len() > 0
    &&& valid_ident(name)
    &&& !has_name(old, name)
    &&& category matches Some(c) ==> valid_ident(c)
}

/// The error refusing a skill named `name` in `category`, the first check
/// that fails deciding it.
pub open spec fn create_error(old: Seq<Skill>, name: Seq<char>, category: Option<Seq<char>>, e: SkillError) -> bool {
    if name.len() == 0 {
        invalid_name_with(e, "技能名称不能为空"@)
    } else if !valid_ident(name) {
        invalid_name_with(e, "技能名称只能包含字母、数字、下划线和连字符"@)
    } else if has_name(old, name) {
        e matches SkillError::AlreadyExists(n) && n@ == name
    } else {
        invalid_name_with(e, "分类名称只能包含字母、数字、下划线和连字符"@)
    }
}

/// What `create_with_category` does to the skills `old`, giving `new` and
/// the result `r`.
pub open spec fn create_outcome(
    old: Seq<Skill>,
    new: Seq<Skill>,
    name: Seq<char>,
    category: Option<Seq<char>>,
    description: Seq<char>,
    body: Seq<char>,
    run_as: RunAs,
    r: Result<&Skill, SkillError>,
) -> bool {
    if create_allowed(old, name, category) {
        &&& new.len() == old.len() + 1
        &&& new.drop_last() == old
        &&& fresh_skill(new.last(), name, category, description, body, run_as)
        &&& r matches Ok(k) && *k == new.last()
    } else {
        new == old && (r matches Err(e) && create_error(old, name, category, e))
    }
}

/// `n` is `o` with the given fields replaced: a description, a body, a tool
/// list, and a model (an empty model clears it).
pub open spec fn patched(
    o: Skill,
    n: Skill,
    description: Option<Seq<char>>,
    body: Option<Seq<char>>,
    tools: Option<Seq<String>>,
    model: Option<Seq<char>>,
) -> bool {
    &&& n.name == o.name
    &&& n.category == o.category
    &&& n.run_as == o.run_as
    &&& n.use_count == o.use_count
    &&& n.success_count == o.success_count
    &&& n.fail_count == o.fail_count
    &&& n.last_used == o.last_used
    &&& n.total_duration_ms == o.total_duration_ms
    &&& n.description@ == (match description { Some(d) => d, None => o.description@ })
    &&& n.body@ == (match body { Some(b) => b, None => o.body@ })
    &&& n.allowed_tools@ == (match tools { Some(t) => t, None => o.allowed_tools@ })
    &&& match model {
        Some(m) => if m.len() == 0 { n.model is None } else { opt_view(n.model) == Some(m) },
        None => n.model == o.model,
    }
}

/// The strings of an optional slice.
pub open spec fn opt_slice_view(o: Option<&[String]>) -> Option<Seq<String>> {
    match o {
        Some(s) => Some(s@),
        None => None,
    }
}

/// A copy of `v`.
fn copy_strings(v: &[String]) -> (r: Vec<String>)
    ensures
        r@ == v@,
{
    let mut r: Vec<String> = Vec::new();
    let mut i: usize = 0;
    while i < v.len()
        invariant
            i <= v@.len(),
            r@ == v@.take(i as int),
        decreases v@.len() - i,
    {
        r.push(v[i].clone());
        assert(r@ =~= v@.take(i + 1));
        i = i + 1;
    }
    assert(v@.take(v@.len() as int) =~= v@);
    r
}

/// The skills behind a sequence of references.
pub open spec fn deref_all(s: Seq<&Skill>) -> Seq<Skill> {
    s.map_values(|k: &Skill| *k)
}

/// `s` is ordered by use count, most used first.
pub open spec fn by_use_desc(s: Seq<Skill>) -> bool {
    forall|i: int, j: int| 0 <= i < j < s.len() ==> (#[trigger] s[i]).use_count >= (#[trigger] s[j]).use_count
}

/// A search for the lower-cased query `q` finds `k`.
pub open spec fn search_hit(k: Skill, q: Seq<char>) -> bool {
    contains_seq(lowercase(k.name@), q) || contains_seq(lowercase(k.description@), q)
}

/// The skills of `s` that a search for the lower-cased query `q` finds, in
/// order.
pub open spec fn search_spec(s: Seq<Skill>, q: Seq<char>) -> Seq<Skill>
    decreases s.len(),
{
    if s.len() == 0 {
        Seq::empty()
    } else {
        let r = search_spec(s.drop_last(), q);
        if search_hit(s.last(), q) { r.push(s.last()) } else { r }
    }
}

/// `100 * s / u` rounded to the nearest integer, ties to even.
pub open spec fn percent_rounded(s: nat, u: nat) -> nat
    recommends
        u > 0,
{
    let q = (100 * s) / u;
    let rem = (100 * s) % u;
    if 2 * rem > u {
        q + 1
    } else if 2 * rem < u {
        q
    } else if q % 2 == 0 {
        q
    } else {
        q + 1
    }
}

/// The success rate of `k` in percent, rounded.
pub open spec fn success_percent(k: Skill) -> nat {
    percent_rounded(k.success_count as nat, k.use_count as nat)
}

/// The advice on skill `k`, if any: unused, failing, or excellent (more
/// than ten runs and a success rate above 95%).
pub open spec fn suggestion_for(k: Skill) -> Option<Seq<char>> {
    if k.use_count == 0 {
        Some("📌 「"@ + k.name@ + "」从未使用，考虑删除"@)
    } else if skill_needs_attention(k) {
        Some("⚠️ 「"@ + k.name@ + "」成功率仅 "@ + decimal(success_percent(k)) + "%，需要优化"@)
    } else if k.use_count > 10 && 100 * k.success_count > 95 * k.use_count {
        Some("⭐ 「"@ + k.name@ + "」表现优异 (成功率 "@ + decimal(success_percent(k)) + "%)，可以推广"@)
    } else {
        None
    }
}

/// The advice on the skills of `s`, in order.
pub open spec fn suggestions_spec(s: Seq<Skill>) -> Seq<Seq<char>>
    decreases s.len(),
{
    if s.len() == 0 {
        Seq::empty()
    } else {
        let r = suggestions_spec(s.drop_last());
        match suggestion_for(s.last()) {
            Some(m) => r.push(m),
            None => r,
        }
    }
}

/// The advice on the skills of `s`, or the all-clear when there is none.
pub open spec fn optimizations_spec(s: Seq<Skill>) -> Seq<Seq<char>> {
    let l = suggestions_spec(s);
    if l.len() == 0 {
        seq!["✅ 所有技能运行正常，无需优化"@]
    } else {
        l
    }
}

/// `n` is `o` after one more run that succeeded or not and took `d`
/// milliseconds, stamped with some time.
pub open spec fn used_once(o: Skill, n: Skill, success: bool, d: u64) -> bool {
    &&& n.name == o.name
    &&& n.category == o.category
    &&& n.description == o.description
    &&& n.body == o.body
    &&& n.run_as == o.run_as
    &&& n.allowed_tools == o.allowed_tools
    &&& n.model == o.model
    &&& n.use_count == o.use_count + 1
    &&& n.success_count == o.success_count + (if success { 1int } else { 0int })
    &&& n.fail_count == o.fail_count + (if success { 0int } else { 1int })
    &&& n.total_duration_ms == o.total_duration_ms + d
    &&& n.last_used is Some
}

/// The counters of skill `k` can take one more run.
pub open spec fn can_record(k: Skill, success: bool, d: u64) -> bool {
    &&& k.use_count < u64::MAX
    &&& success ==> k.success_count < u64::MAX
    &&& !success ==> k.fail_count < u64::MAX
    &&& k.total_duration_ms + d <= u64::MAX
}

/// The success rate of `k` in percent, rounded.
fn percent_of(k: &Skill) -> (r: u128)
    requires
        k.use_count > 0,
    ensures
        r == success_percent(*k),
{
    let s = k.success_count as u128;
    let u = k.use_count as u128;
    let q = (100 * s) / u;
    let rem = (100 * s) % u;
    if 2 * rem > u {
        q + 1
    } else if 2 * rem < u {
        q
    } else if q % 2 == 0 {
        q
    } else {
        q + 1
    }
}

/// The advice on skill `k`, if any.
fn suggestion_text(k: &Skill) -> (r: Option<String>)
    ensures
        opt_view(r) == suggestion_for(*k),
{
    if k.use_count == 0 {
        let mut v = to_chars("📌 「");
        push_str(&mut v, k.name.as_str());
        push_str(&mut v, "」从未使用，考虑删除");
        return Some(from_chars(v.as_slice()));
    }
    if k.needs_attention() {
        let p = decimal_chars_wide(percent_of(k));
        let mut v = to_chars("⚠️ 「");
        push_str(&mut v, k.name.as_str());
        push_str(&mut v, "」成功率仅 ");
        extend_chars(&mut v, p.as_slice());
        push_str(&mut v, "%，需要优化");
        return Some(from_chars(v.as_slice()));
    }
    if k.use_count > 10 && 100 * (k.success_count as u128) > 95 * (k.use_count as u128) {
        let p = decimal_chars_wide(percent_of(k));
        let mut v = to_chars("⭐ 「");
        push_str(&mut v, k.name.as_str());
        push_str(&mut v, "」表现优异 (成功率 ");
        extend_chars(&mut v, p.as_slice());
        push_str(&mut v, "%)，可以推广");
        return Some(from_chars(v.as_slice()));
    }
    None
}

/// The skill engine: a skills directory and the skills read from it.
pub struct SkillEngine {
    dir: String,
    skills: Vec<Skill>,
}

impl SkillEngine {
    /// The skills, in the order they were added.
    pub closed spec fn skills(&self) -> Seq<Skill> {
        self.skills@
    }

    /// The skills directory.
    pub closed spec fn dir(&self) -> Seq<char> {
        self.dir@
    }

    /// Well-formed: skill names are unique.
    pub open spec fn wf(&self) -> bool {
        names_unique(self.skills())
    }

    /// An engine over `dir` without skills.
    pub fn new(dir: &str) -> (e: SkillEngine)
        ensures
            e.wf(),
            e.dir() == dir@,
            e.skills() == Seq::<Skill>::empty(),
    {
        SkillEngine { dir: dir.to_string(), skills: Vec::new() }
    }

    /// Index of the skill named `name`.
    fn position(&self, name: &str) -> (r: Option<usize>)
        ensures
            match r {
                Some(i) => i < self.skills().len() && self.skills()[i as int].name@ == name@
                    && first_index_of(self.skills(), name@) == Some(i as int),
                None => first_index_of(self.skills(), name@) is None && !has_name(self.skills(), name@),
            },
    {
        let mut i: usize = 0;
        while i < self.skills.len()
            invariant
                i <= self.skills@.len(),
                forall|j: int| 0 <= j < i ==> (#[trigger] self.skills@[j]).name@ != name@,
            decreases self.skills@.len() - i,
        {
            let n = to_chars(self.skills[i].name.as_str());
            if eq_str(n.as_slice(), name) {
                proof {
                    lemma_first_index_is(self.skills@, name@, i as int);
                }
                return Some(i);
            }
            i = i + 1;
        }
        proof {
            lemma_first_index_none(self.skills@, name@);
        }
        None
    }

    /// The skill named `name`.
    pub fn get(&self, name: &str) -> (r: Option<&Skill>)
        ensures
            match first_index_of(self.skills(), name@) {
                Some(i) => r == Some(&self.skills()[i]),
                None => r is None,
            },
    {
        match self.position(name) {
            Some(i) => Some(&self.skills[i]),
            None => None,
        }
    }

    /// The skill named `name`, to modify in place. A caller that keeps the
    /// name keeps the engine well-formed.
    pub fn get_mut(&mut self, name: &str) -> (r: Option<&mut Skill>)
        ensures
            final(self).dir() == old(self).dir(),
            match first_index_of(old(self).skills(), name@) {
                Some(i) => r matches Some(m) && *m == old(self).skills()[i]
                    && final(self).skills() == old(self).skills().update(i, *final(m)),
                None => r is None && final(self).skills() == old(self).skills(),
            },
    {
        match self.position(name) {
            Some(i) => Some(&mut self.skills[i]),
            None => None,
        }
    }

    /// Appends a skill whose name is not taken.
    fn add_new(&mut self, skill: Skill)
        requires
            old(self).wf(),
            !has_name(old(self).skills(), skill.name@),
        ensures
            final(self).wf(),
            final(self).dir() == old(self).dir(),
            final(self).skills() == old(self).skills().push(skill),
    {
        self.skills.push(skill);
        assert forall|i: int, j: int| 0 <= i < j < self.skills@.len()
            implies (#[trigger] self.skills@[i]).name@ != (#[trigger] self.skills@[j]).name@ by {
            if j == self.skills@.len() - 1 {
                assert(old(self).skills@[i] == self.skills@[i]);
            }
        }
    }

    /// Checks a new skill's name and category.
    fn validate_new(&self, name: &str, category: Option<&str>) -> (r: Result<(), SkillError>)
        ensures
            match r {
                Ok(()) => create_allowed(self.skills(), name@, opt_str_view(category)),
                Err(e) => !create_allowed(self.skills(), name@, opt_str_view(category))
                    && create_error(self.skills(), name@, opt_str_view(category), e),
            },
    {
        if name.unicode_len() == 0 {
            return Err(SkillError::InvalidName("技能名称不能为空".to_string()));
        }
        if !is_valid_ident(name) {
            return Err(SkillError::InvalidName("技能名称只能包含字母、数字、下划线和连字符".to_string()));
        }
        match self.position(name) {
            Some(i) => {
                assert(has_name(self.skills@, name@)) by {
                    assert(self.skills@[i as int].name@ == name@);
                }
                return Err(SkillError::AlreadyExists(name.to_string()));
            },
            None => {},
        }
        match category {
            Some(c) => {
                if !is_valid_ident(c) {
                    return Err(SkillError::InvalidName("分类名称只能包含字母、数字、下划线和连字符".to_string()));
                }
            },
            None => {},
        }
        Ok(())
    }

    /// Adds a skill in the root category; see `create_with_category`.
    pub fn create(&mut self, name: &str, description: &str, body: &str, run_as: RunAs) -> (r: Result<&Skill, SkillError>)
        requires
            old(self).wf(),
        ensures
            final(self).wf(),
            final(self).dir() == old(self).dir(),
            create_outcome(old(self).skills(), final(self).skills(), name@, None, description@, body@, run_as, r),
    {
        self.create_with_category(name, None, description, body, run_as)
    }

    /// Adds a skill. The name must be non-empty and made of alphanumerics,
    /// `_` and `-`, and not taken; a category must be made of the same.
    pub fn create_with_category(
        &mut self,
        name: &str,
        category: Option<&str>,
        description: &str,
        body: &str,
        run_as: RunAs,
    ) -> (r: Result<&Skill, SkillError>)
        requires
            old(self).wf(),
        ensures
            final(self).wf(),
            final(self).dir() == old(self).dir(),
            create_outcome(old(self).skills(), final(self).skills(), name@, opt_str_view(category), description@, body@, run_as, r),
    {
        match self.validate_new(name, category) {
            Err(e) => {
                return Err(e);
            },
            Ok(()) => {},
        }
        let cat: Option<String> = match category {
            Some(c) => Some(c.to_string()),
            None => None,
        };
        let skill = Skill {
            name: name.to_string(),
            category: cat,
            description: description.to_string(),
            body: body.to_string(),
            run_as,
            allowed_tools: Vec::new(),
            model: None,
            use_count: 0,
            success_count: 0,
            fail_count: 0,
            last_used: None,
            total_duration_ms: 0,
        };
        assert(fresh_skill(skill, name@, opt_str_view(category), description@, body@, run_as));
        self.add_new(skill);
        let n = self.skills.len();
        assert(self.skills@.drop_last() =~= old(self).skills@);
        Ok(&self.skills[n - 1])
    }

    /// The Markdown file of the skill named `name`.
    pub fn skill_path(&self, name: &str) -> (r: Option<String>)
        ensures
            match first_index_of(self.skills(), name@) {
                Some(i) => r matches Some(p) && p@ == skill_file_spec(
                    self.dir(), self.skills()[i].name@, opt_view(self.skills()[i].category)),
                None => r is None,
            },
    {
        match self.position(name) {
            Some(i) => Some(skill_file_path(self.dir.as_str(), self.skills[i].name.as_str(), &self.skills[i].category, ".md")),
            None => None,
        }
    }

    /// The usage file of the skill named `name`.
    fn usage_path(&self, name: &str) -> (r: Option<String>)
        ensures
            match first_index_of(self.skills(), name@) {
                Some(i) => r matches Some(p) && p@ == usage_file_spec(
                    self.dir(), self.skills()[i].name@, opt_view(self.skills()[i].category)),
                None => r is None,
            },
    {
        match self.position(name) {
            Some(i) => Some(skill_file_path(self.dir.as_str(), self.skills[i].name.as_str(), &self.skills[i].category, ".usage.json")),
            None => None,
        }
    }

    /// The usage file whose view counter a view of skill `name` raises
    /// (none for an unknown skill).
    pub fn record_view(&self, name: &str) -> (r: Option<String>)
        ensures
            match first_index_of(self.skills(), name@) {
                Some(i) => r matches Some(p) && p@ == usage_file_spec(
                    self.dir(), self.skills()[i].name@, opt_view(self.skills()[i].category)),
                None => r is None,
            },
    {
        self.usage_path(name)
    }

    /// The usage file whose patch counter a patch of skill `name` raises
    /// (none for an unknown skill).
    pub fn record_patch(&self, name: &str) -> (r: Option<String>)
        ensures
            match first_index_of(self.skills(), name@) {
                Some(i) => r matches Some(p) && p@ == usage_file_spec(
                    self.dir(), self.skills()[i].name@, opt_view(self.skills()[i].category)),
                None => r is None,
            },
    {
        self.usage_path(name)
    }

    /// Removes the skill named `name`; whether there was one.
    pub fn delete(&mut self, name: &str) -> (r: bool)
        ensures
            final(self).dir() == old(self).dir(),
            old(self).wf() ==> final(self).wf(),
            match first_index_of(old(self).skills(), name@) {
                Some(i) => r && final(self).skills() == old(self).skills().remove(i),
                None => !r && final(self).skills() == old(self).skills(),
            },
    {
        match self.position(name) {
            Some(i) => {
                self.skills.remove(i);
                assert(old(self).wf() ==> names_unique(self.skills@)) by {
                    if old(self).wf() {
                        assert forall|a: int, b: int| 0 <= a < b < self.skills@.len()
                            implies (#[trigger] self.skills@[a]).name@ != (#[trigger] self.skills@[b]).name@ by {
                            let a2 = if a < i { a } else { a + 1 };
                            let b2 = if b < i { b } else { b + 1 };
                            assert(self.skills@[a] == old(self).skills@[a2]);
                            assert(self.skills@[b] == old(self).skills@[b2]);
                        }
                    }
                }
                true
            },
            None => false,
        }
    }

    /// Replaces the given fields of the skill named `name`; `NotFound` when
    /// there is none.
    pub fn update_skill(
        &mut self,
        name: &str,
        new_description: Option<&str>,
        new_body: Option<&str>,
        new_allowed_tools: Option<&[String]>,
        new_model: Option<&str>,
    ) -> (r: Result<(), SkillError>)
        requires
            old(self).wf(),
        ensures
            final(self).wf(),
            final(self).dir() == old(self).dir(),
            match first_index_of(old(self).skills(), name@) {
                Some(i) => r is Ok
                    && final(self).skills().len() == old(self).skills().len()
                    && (forall|j: int| 0 <= j < old(self).skills().len() && j != i
                        ==> #[trigger] final(self).skills()[j] == old(self).skills()[j])
                    && patched(old(self).skills()[i], final(self).skills()[i], opt_str_view(new_description),
                        opt_str_view(new_body), opt_slice_view(new_allowed_tools), opt_str_view(new_model)),
                None => final(self).skills() == old(self).skills()
                    && (r matches Err(e) && (e matches SkillError::NotFound(n) && n@ == name@)),
            },
    {
        let i = match self.position(name) {
            Some(i) => i,
            None => {
                return Err(SkillError::NotFound(name.to_string()));
            },
        };
        let sk = &mut self.skills[i];
        match new_description {
            Some(d) => {
                sk.description = d.to_string();
            },
            None => {},
        }
        match new_body {
            Some(b) => {
                sk.body = b.to_string();
            },
            None => {},
        }
        match new_allowed_tools {
            Some(t) => {
                sk.allowed_tools = copy_strings(t);
            },
            None => {},
        }
        match new_model {
            Some(m) => {
                if m.unicode_len() == 0 {
                    sk.model = None;
                } else {
                    sk.model = Some(m.to_string());
                }
            },
            None => {},
        }
        assert forall|a: int, b: int| 0 <= a < b < self.skills@.len()
            implies (#[trigger] self.skills@[a]).name@ != (#[trigger] self.skills@[b]).name@ by {
            assert(self.skills@[a].name == old(self).skills@[a].name);
            assert(self.skills@[b].name == old(self).skills@[b].name);
        }
        Ok(())
    }

    /// References to all skills, in storage order.
    fn refs(&self) -> (r: Vec<&Skill>)
        ensures
            deref_all(r@) == self.skills(),
    {
        let mut r: Vec<&Skill> = Vec::new();
        let mut i: usize = 0;
        while i < self.skills.len()
            invariant
                i <= self.skills@.len(),
                deref_all(r@) == self.skills@.take(i as int),
            decreases self.skills@.len() - i,
        {
            let ghost before = r@;
            r.push(&self.skills[i]);
            assert(deref_all(r@) =~= deref_all(before).push(self.skills@[i as int]));
            assert(self.skills@.take(i + 1) =~= self.skills@.take(i as int).push(self.skills@[i as int]));
            i = i + 1;
        }
        assert(self.skills@.take(self.skills@.len() as int) =~= self.skills@);
        r
    }

    /// All skills, most used first.
    pub fn list(&self) -> (r: Vec<&Skill>)
        ensures
            deref_all(r@).to_multiset() == self.skills().to_multiset(),
            by_use_desc(deref_all(r@)),
    {
        broadcast use vstd::seq_lib::group_to_multiset_ensures;
        let mut rem = self.refs();
        let mut out: Vec<&Skill> = Vec::new();
        assert(deref_all(out@).to_multiset() =~= vstd::multiset::Multiset::empty());
        while rem.len() > 0
            invariant
                deref_all(out@).to_multiset().add(deref_all(rem@).to_multiset()) == self.skills@.to_multiset(),
                by_use_desc(deref_all(out@)),
                forall|a: int, b: int| 0 <= a < out@.len() && 0 <= b < rem@.len()
                    ==> (#[trigger] out@[a]).use_count >= (#[trigger] rem@[b]).use_count,
            decreases rem@.len(),
        {
            let mut k: usize = 0;
            let mut j: usize = 1;
            while j < rem.len()
                invariant
                    0 < j <= rem@.len(),
                    k < j,
                    forall|b: int| 0 <= b < j ==> rem@[k as int].use_count >= (#[trigger] rem@[b]).use_count,
                decreases rem@.len() - j,
            {
                if rem[j].use_count > rem[k].use_count {
                    k = j;
                }
                j = j + 1;
            }
            let ghost before_out = out@;
            let ghost before_rem = rem@;
            let x = rem.remove(k);
            out.push(x);
            proof {
                assert(deref_all(rem@) =~= deref_all(before_rem).remove(k as int));
                assert(deref_all(out@) =~= deref_all(before_out).push(*x));
                let bo = deref_all(before_out);
                let br = deref_all(before_rem);
                assert(br[k as int] == *x);
                br.to_multiset_ensures();
                bo.to_multiset_ensures();
                assert(deref_all(rem@).to_multiset() == br.remove(k as int).to_multiset());
                assert(br.remove(k as int).to_multiset() =~= br.to_multiset().remove(*x));
                assert(deref_all(out@).to_multiset() == bo.push(*x).to_multiset());
                assert(bo.push(*x).to_multiset() =~= bo.to_multiset().insert(*x));
                assert(br.contains(*x));
                assert(br.to_multiset().count(*x) > 0);
                assert(bo.to_multiset().insert(*x).add(br.to_multiset().remove(*x))
                    =~= bo.to_multiset().add(br.to_multiset()));
                assert forall|a: int, b: int| 0 <= a < out@.len() && 0 <= b < rem@.len()
                    implies (#[trigger] out@[a]).use_count >= (#[trigger] rem@[b]).use_count by {
                    let b2 = if b < k { b } else { b + 1 };
                    assert(rem@[b] == before_rem[b2]);
                    if a < before_out.len() {
                        assert(out@[a] == before_out[a]);
                    }
                }
                assert forall|a: int, b: int| 0 <= a < b < deref_all(out@).len()
                    implies (#[trigger] deref_all(out@)[a]).use_count >= (#[trigger] deref_all(out@)[b]).use_count by {
                    if b < before_out.len() {
                        assert(deref_all(out@)[a] == deref_all(before_out)[a]);
                        assert(deref_all(out@)[b] == deref_all(before_out)[b]);
                    } else {
                        assert(out@[a] == before_out[a]);
                        assert(before_rem[k as int] == x);
                    }
                }
            }
        }
        assert(deref_all(rem@).to_multiset() =~= vstd::multiset::Multiset::empty());
        assert(deref_all(out@).to_multiset() =~= deref_all(out@).to_multiset().add(deref_all(rem@).to_multiset()));
        out
    }

    /// All skills, most used first, with the usage files whose view
    /// counters the listing raises (one per skill, in storage order).
    pub fn list_and_record(&self, viewer: &str) -> (r: (Vec<&Skill>, Vec<String>))
        ensures
            deref_all(r.0@).to_multiset() == self.skills().to_multiset(),
            by_use_desc(deref_all(r.0@)),
            r.1@.len() == self.skills().len(),
            forall|i: int| 0 <= i < r.1@.len() ==> (#[trigger] r.1@[i])@ == usage_file_spec(
                self.dir(), self.skills()[i].name@, opt_view(self.skills()[i].category)),
    {
        let mut paths: Vec<String> = Vec::new();
        let mut i: usize = 0;
        while i < self.skills.len()
            invariant
                i <= self.skills@.len(),
                paths@.len() == i,
                forall|j: int| 0 <= j < i ==> (#[trigger] paths@[j])@ == usage_file_spec(
                    self.dir@, self.skills@[j].name@, opt_view(self.skills@[j].category)),
            decreases self.skills@.len() - i,
        {
            let p = skill_file_path(self.dir.as_str(), self.skills[i].name.as_str(), &self.skills[i].category, ".usage.json");
            paths.push(p);
            i = i + 1;
        }
        (self.list(), paths)
    }

    /// The skills whose name or description contains `query`, ignoring case.
    pub fn search(&self, query: &str) -> (r: Vec<&Skill>)
        ensures
            deref_all(r@) == search_spec(self.skills(), lowercase(query@)),
    {
        let q = to_lowercase(query);
        let mut r: Vec<&Skill> = Vec::new();
        let mut i: usize = 0;
        while i < self.skills.len()
            invariant
                i <= self.skills@.len(),
                q@ == lowercase(query@),
                deref_all(r@) == search_spec(self.skills@.take(i as int), q@),
            decreases self.skills@.len() - i,
        {
            let k = &self.skills[i];
            let n = to_lowercase(k.name.as_str());
            let d = to_lowercase(k.description.as_str());
            let nc = to_chars(n.as_str());
            let dc = to_chars(d.as_str());
            let hit = str_contains(nc.as_slice(), q.as_str()) || str_contains(dc.as_slice(), q.as_str());
            let ghost before = r@;
            assert(self.skills@.take(i + 1).drop_last() =~= self.skills@.take(i as int));
            if hit {
                r.push(k);
                assert(deref_all(r@) =~= deref_all(before).push(*k));
            }
            i = i + 1;
        }
        assert(self.skills@.take(self.skills@.len() as int) =~= self.skills@);
        r
    }

    /// Records one run of the skill named `name`: its counters, its total
    /// time and its last use; `NotFound` when there is none.
    pub fn record_usage(&mut self, name: &str, success: bool, duration_ms: u64) -> (r: Result<(), SkillError>)
        requires
            old(self).wf(),
            first_index_of(old(self).skills(), name@) matches Some(i)
                ==> can_record(old(self).skills()[i], success, duration_ms),
        ensures
            final(self).wf(),
            final(self).dir() == old(self).dir(),
            match first_index_of(old(self).skills(), name@) {
                Some(i) => r is Ok
                    && final(self).skills().len() == old(self).skills().len()
                    && (forall|j: int| 0 <= j < old(self).skills().len() && j != i
                        ==> #[trigger] final(self).skills()[j] == old(self).skills()[j])
                    && used_once(old(self).skills()[i], final(self).skills()[i], success, duration_ms),
                None => final(self).skills() == old(self).skills()
                    && (r matches Err(e) && (e matches SkillError::NotFound(n) && n@ == name@)),
            },
    {
        let i = match self.position(name) {
            Some(i) => i,
            None => {
                return Err(SkillError::NotFound(name.to_string()));
            },
        };
        let now = now_rfc3339();
        let sk = &mut self.skills[i];
        sk.use_count = sk.use_count + 1;
        if success {
            sk.success_count = sk.success_count + 1;
        } else {
            sk.fail_count = sk.fail_count + 1;
        }
        sk.total_duration_ms = sk.total_duration_ms + duration_ms;
        sk.last_used = Some(now);
        assert forall|a: int, b: int| 0 <= a < b < self.skills@.len()
            implies (#[trigger] self.skills@[a]).name@ != (#[trigger] self.skills@[b]).name@ by {
            assert(self.skills@[a].name == old(self).skills@[a].name);
            assert(self.skills@[b].name == old(self).skills@[b].name);
        }
        Ok(())
    }

    /// Advice on the skills: unused ones, failing ones, excellent ones; or
    /// the all-clear.
    pub fn suggest_optimizations(&self) -> (r: Vec<String>)
        ensures
            r@.map_values(|t: String| t@) == optimizations_spec(self.skills()),
    {
        let mut out: Vec<String> = Vec::new();
        let mut i: usize = 0;
        while i < self.skills.len()
            invariant
                i <= self.skills@.len(),
                out@.map_values(|t: String| t@) == suggestions_spec(self.skills@.take(i as int)),
            decreases self.skills@.len() - i,
        {
            let k = &self.skills[i];
            let ghost before = out@.map_values(|t: String| t@);
            assert(self.skills@.take(i + 1).drop_last() =~= self.skills@.take(i as int));
            assert(self.skills@.take(i + 1).last() == *k);
            match suggestion_text(k) {
                Some(m) => {
                    out.push(m);
                    assert(out@.map_values(|t: String| t@) =~= before.push(suggestion_for(*k)->Some_0));
                },
                None => {},
            }
            i = i + 1;
        }
        assert(self.skills@.take(self.skills@.len() as int) =~= self.skills@);
        if out.len() == 0 {
            out.push("✅ 所有技能运行正常，无需优化".to_string());
            assert(out@.map_values(|t: String| t@) =~= seq!["✅ 所有技能运行正常，无需优化"@]);
        }
        out
    }

    /// Replaces the skills with those of the skill files `files` (path,
    /// text), a later file replacing an earlier one of the same name.
    pub fn reload(&mut self, files: &Vec<(String, String)>)
        ensures
            final(self).wf(),
            final(self).dir() == old(self).dir(),
            loaded_from(final(self).skills(), files@),
    {
        self.skills = Vec::new();
        let mut i: usize = 0;
        while i < files.len()
            invariant
                i <= files@.len(),
                self.dir@ == old(self).dir@,
                loaded_from(self.skills@, files@.take(i as int)),
            decreases files@.len() - i,
        {
            let ghost fs = files@.take(i as int);
            assert(files@.take(i + 1) =~= fs.push(files@[i as int]));
            let k = parse_skill_markdown(files[i].1.as_str(), files[i].0.as_str());
            let ghost before = self.skills@;
            assert(k.name@ == parsed_name(files@[i as int])) by {
                reveal(parsed_name);
            }
            assert(parsed_from(k, files@[i as int])) by {
                reveal(parsed_from);
            }
            match self.position(k.name.as_str()) {
                Some(idx) => {
                    proof {
                        lemma_reload_replace(before, fs, files@[i as int], k, idx as int);
                    }
                    self.skills.set(idx, k);
                },
                None => {
                    proof {
                        lemma_reload_push(before, fs, files@[i as int], k);
                    }
                    self.skills.push(k);
                },
            }
            i = i + 1;
        }
        assert(files@.take(files@.len() as int) =~= files@);
    }

    /// Number of skills.
    pub fn count(&self) -> (r: usize)
        ensures
            r == self.skills().len(),
    {
        self.skills.len()
    }
}


/// The first non-empty line of `ls`, when there is one, is a line of `ls`
/// with only empty lines before it.
proof fn lemma_first_nonempty_is_first(ls: Seq<Seq<char>>, i: int)
    requires
        0 <= i < ls.len(),
        ls[i].len() > 0,
    ensures
        exists|j: int| 0 <= j <= i && ls[j] == first_nonempty(ls) && ls[j].len() > 0
            && forall|m: int| 0 <= m < j ==> (#[trigger] ls[m]).len() == 0,
    decreases i,
{
    if ls[0].len() > 0 {
        assert(ls[0] == first_nonempty(ls));
    } else {
        let t = ls.drop_first();
        assert(t[i - 1] == ls[i]);
        lemma_first_nonempty_is_first(t, i - 1);
        let j = choose|j: int| 0 <= j <= i - 1 && t[j] == first_nonempty(t) && t[j].len() > 0
            && forall|m: int| 0 <= m < j ==> (#[trigger] t[m]).len() == 0;
        assert(ls[j + 1] == t[j]);
        assert forall|m: int| 0 <= m < j + 1 implies (#[trigger] ls[m]).len() == 0 by {
            if m > 0 {
                assert(ls[m] == t[m - 1]);
            }
        }
    }
}

/// A skill file whose frontmatter gives no description, and whose body has
/// a non-empty line, is described by the first non-empty line of its body.
pub proof fn lemma_description_from_body(k: Skill, c: Seq<char>, default_name: Seq<char>, path_category: Option<Seq<char>>, i: int)
    requires
        parsed_skill(k, c, default_name, path_category),
        fm_description(c).len() == 0,
        0 <= i < lines_spec(split_frontmatter(c).1).len(),
        lines_spec(split_frontmatter(c).1)[i].len() > 0,
    ensures
        k.description@.len() > 0,
        exists|j: int| 0 <= j <= i && lines_spec(split_frontmatter(c).1)[j] == k.description@
            && forall|m: int| 0 <= m < j ==> (#[trigger] lines_spec(split_frontmatter(c).1)[m]).len() == 0,
{
    lemma_first_nonempty_is_first(lines_spec(split_frontmatter(c).1), i);
}

/// A search finds every skill whose lower-cased name or description holds
/// the lower-cased query `q`, and only such skills, each from `s`.
pub proof fn lemma_search_finds(s: Seq<Skill>, q: Seq<char>)
    ensures
        forall|i: int| 0 <= i < s.len()
            && (contains_seq(lowercase(s[i].name@), q) || contains_seq(lowercase(s[i].description@), q))
            ==> #[trigger] search_spec(s, q).contains(s[i]),
        forall|j: int| 0 <= j < search_spec(s, q).len() ==> {
            let k = #[trigger] search_spec(s, q)[j];
            &&& s.contains(k)
            &&& contains_seq(lowercase(k.name@), q) || contains_seq(lowercase(k.description@), q)
        },
    decreases s.len(),
{
    if s.len() > 0 {
        let t = s.drop_last();
        lemma_search_finds(t, q);
        let r = search_spec(t, q);
        assert forall|i: int| 0 <= i < s.len()
            && (contains_seq(lowercase(s[i].name@), q) || contains_seq(lowercase(s[i].description@), q))
            implies #[trigger] search_spec(s, q).contains(s[i]) by {
            if i < s.len() - 1 {
                assert(t[i] == s[i]);
                assert(r.contains(t[i]));
                let m = choose|m: int| 0 <= m < r.len() && r[m] == t[i];
                assert(search_spec(s, q)[m] == r[m]);
            } else {
                assert(search_spec(s, q) == r.push(s.last()));
                assert(search_spec(s, q)[r.len() as int] == s[i]);
            }
        }
        assert forall|j: int| 0 <= j < search_spec(s, q).len() implies {
            let k = #[trigger] search_spec(s, q)[j];
            &&& s.contains(k)
            &&& contains_seq(lowercase(k.name@), q) || contains_seq(lowercase(k.description@), q)
        } by {
            let k = search_spec(s, q)[j];
            if j < r.len() {
                assert(k == r[j]);
                let m = choose|m: int| 0 <= m < t.len() && t[m] == k;
                assert(s[m] == t[m]);
            } else {
                assert(k == s.last());
                assert(s[s.len() - 1] == k);
            }
        }
    }
}

/// A skill run more than ten times with a success rate above 95% is
/// praised by name: its advice is among the suggestions, which are then
/// not the all-clear.
pub proof fn lemma_excellent_skill_praised(s: Seq<Skill>, i: int)
    requires
        0 <= i < s.len(),
        s[i].use_count > 10,
        100 * s[i].success_count > 95 * s[i].use_count,
    ensures
        exists|j: int| 0 <= j < optimizations_spec(s).len()
            && has_prefix(#[trigger] optimizations_spec(s)[j], "⭐ 「"@ + s[i].name@ + "」表现优异 (成功率 "@),
        optimizations_spec(s) != seq!["✅ 所有技能运行正常，无需优化"@],
    decreases s.len(),
{
    let m = suggestion_for(s[i])->Some_0;
    let p = "⭐ 「"@ + s[i].name@ + "」表现优异 (成功率 "@;
    assert(m == p + decimal(success_percent(s[i])) + "%)，可以推广"@);
    assert(m.take(p.len() as int) =~= p);
    lemma_suggestion_listed(s, i);
    let l = suggestions_spec(s);
    let j = choose|j: int| 0 <= j < l.len() && l[j] == m;
    assert(optimizations_spec(s)[j] == m);
    reveal_strlit("✅ 所有技能运行正常，无需优化");
    reveal_strlit("⭐ 「");
    assert(m[0] == '⭐');
    assert(seq!["✅ 所有技能运行正常，无需优化"@][0][0] == '✅');
    if l.len() == 1 {
        assert(optimizations_spec(s)[0] == m);
    }
}

/// The advice on each skill of `s` that has one is among the suggestions.
proof fn lemma_suggestion_listed(s: Seq<Skill>, i: int)
    requires
        0 <= i < s.len(),
        suggestion_for(s[i]) is Some,
    ensures
        exists|j: int| 0 <= j < suggestions_spec(s).len() && suggestions_spec(s)[j] == suggestion_for(s[i])->Some_0,
    decreases s.len(),
{
    let t = s.drop_last();
    let r = suggestions_spec(t);
    if i < s.len() - 1 {
        assert(t[i] == s[i]);
        lemma_suggestion_listed(t, i);
        let j = choose|j: int| 0 <= j < r.len() && r[j] == suggestion_for(t[i])->Some_0;
        assert(suggestions_spec(s)[j] == r[j]);
    } else {
        assert(suggestions_spec(s) == r.push(suggestion_for(s.last())->Some_0));
        assert(suggestions_spec(s)[r.len() as int] == suggestion_for(s[i])->Some_0);
    }
}


/// A skill file whose frontmatter gives a description is described by it.
pub proof fn lemma_description_from_frontmatter(k: Skill, c: Seq<char>, default_name: Seq<char>, path_category: Option<Seq<char>>)
    requires
        parsed_skill(k, c, default_name, path_category),
        fm_description(c).len() > 0,
    ensures
        k.description@ == fm_description(c),
{
}

/// Searching a list of skills searches each part: the hits of `s + t` are
/// the hits of `s` followed by those of `t`.
pub proof fn lemma_search_append(s: Seq<Skill>, t: Seq<Skill>, q: Seq<char>)
    ensures
        search_spec(s + t, q) == search_spec(s, q) + search_spec(t, q),
    decreases t.len(),
{
    if t.len() == 0 {
        assert(s + t =~= s);
        assert(search_spec(s, q) + search_spec(t, q) =~= search_spec(s, q));
    } else {
        assert((s + t).drop_last() =~= s + t.drop_last());
        lemma_search_append(s, t.drop_last(), q);
        let a = search_spec(s, q);
        let b = search_spec(t.drop_last(), q);
        assert(a + b.push(t.last()) =~= (a + b).push(t.last()));
    }
}

/// A search over one skill finds it exactly when its lower-cased name or
/// description holds the lower-cased query.
pub proof fn lemma_search_single(k: Skill, q: Seq<char>)
    ensures
        search_spec(seq![k], q) == if contains_seq(lowercase(k.name@), q) || contains_seq(lowercase(k.description@), q) {
            seq![k]
        } else {
            Seq::<Skill>::empty()
        },
{
    let e = Seq::<Skill>::empty();
    assert(seq![k].drop_last() =~= e);
    assert(search_spec(e, q) == e);
    assert(search_spec(seq![k], q) == if search_hit(k, q) { search_spec(e, q).push(k) } else { search_spec(e, q) });
    assert(e.push(k) =~= seq![k]);
}

/// Suggestions over a list of skills are those of each part in turn.
pub proof fn lemma_suggestions_append(s: Seq<Skill>, t: Seq<Skill>)
    ensures
        suggestions_spec(s + t) == suggestions_spec(s) + suggestions_spec(t),
    decreases t.len(),
{
    if t.len() == 0 {
        assert(s + t =~= s);
        assert(suggestions_spec(s) + suggestions_spec(t) =~= suggestions_spec(s));
    } else {
        assert((s + t).drop_last() =~= s + t.drop_last());
        lemma_suggestions_append(s, t.drop_last());
        let a = suggestions_spec(s);
        let b = suggestions_spec(t.drop_last());
        match suggestion_for(t.last()) {
            Some(m) => {
                assert(a + b.push(m) =~= (a + b).push(m));
            },
            None => {},
        }
    }
}

/// The advice on one skill: a never-used skill is proposed for deletion, a
/// skill failing more than 70% of its runs is flagged, a skill run more
/// than ten times with a success rate above 95% is praised, each by name;
/// any other skill gets no advice.
pub proof fn lemma_skill_advice(k: Skill)
    ensures
        k.use_count == 0 ==> suggestions_spec(seq![k]) == seq!["📌 「"@ + k.name@ + "」从未使用，考虑删除"@],
        k.use_count > 0 && 10 * k.success_count < 3 * k.use_count ==> suggestions_spec(seq![k]).len() == 1
            && has_prefix(suggestions_spec(seq![k])[0], "⚠️ 「"@ + k.name@ + "」成功率仅 "@),
        k.use_count > 10 && 100 * k.success_count > 95 * k.use_count ==> suggestions_spec(seq![k]).len() == 1
            && has_prefix(suggestions_spec(seq![k])[0], "⭐ 「"@ + k.name@ + "」表现优异 (成功率 "@),
        k.use_count > 0 && 10 * k.success_count >= 3 * k.use_count
            && !(k.use_count > 10 && 100 * k.success_count > 95 * k.use_count) ==> suggestions_spec(seq![k]).len() == 0,
{
    let e = Seq::<Skill>::empty();
    assert(seq![k].drop_last() =~= e);
    assert(seq![k].last() == k);
    assert(suggestions_spec(e) == Seq::<Seq<char>>::empty());
    assert(suggestions_spec(seq![k]) == match suggestion_for(k) {
        Some(m) => suggestions_spec(e).push(m),
        None => suggestions_spec(e),
    });
    let p1 = "⚠️ 「"@ + k.name@ + "」成功率仅 "@;
    let m1 = p1 + decimal(success_percent(k)) + "%，需要优化"@;
    assert(m1.take(p1.len() as int) =~= p1);
    let p2 = "⭐ 「"@ + k.name@ + "」表现优异 (成功率 "@;
    let m2 = p2 + decimal(success_percent(k)) + "%)，可以推广"@;
    assert(m2.take(p2.len() as int) =~= p2);
    assert(Seq::<Seq<char>>::empty().push(m1)[0] == m1);
    assert(Seq::<Seq<char>>::empty().push(m2)[0] == m2);
    assert(Seq::<Seq<char>>::empty().push("📌 「"@ + k.name@ + "」从未使用，考虑删除"@)
        =~= seq!["📌 「"@ + k.name@ + "」从未使用，考虑删除"@]);
}

/// When no skill has advice (every one used, none failing, none
/// outstanding), the suggestions are the all-clear alone.
pub proof fn lemma_all_clear(s: Seq<Skill>)
    requires
        forall|i: int| 0 <= i < s.len() ==> {
            let k = #[trigger] s[i];
            &&& k.use_count > 0
            &&& 10 * k.success_count >= 3 * k.use_count
            &&& !(k.use_count > 10 && 100 * k.success_count > 95 * k.use_count)
        },
    ensures
        optimizations_spec(s) == seq!["✅ 所有技能运行正常，无需优化"@],
    decreases s.len(),
{
    if s.len() > 0 {
        let t = s.drop_last();
        assert forall|i: int| 0 <= i < t.len() implies {
            let k = #[trigger] t[i];
            &&& k.use_count > 0
            &&& 10 * k.success_count >= 3 * k.use_count
            &&& !(k.use_count > 10 && 100 * k.success_count > 95 * k.use_count)
        } by {
            assert(t[i] == s[i]);
        }
        lemma_all_clear(t);
        assert(s[s.len() - 1] == s.last());
    }
}


/// The first character left after stripping leading characters that
/// satisfy `p` does not satisfy `p`.
proof fn lemma_leading_stop(s: Seq<char>, p: spec_fn(char) -> bool)
    ensures
        crate::text::leading_count(s, p) <= s.len(),
        crate::text::leading_count(s, p) < s.len() ==> !p(s[crate::text::leading_count(s, p) as int]),
    decreases s.len(),
{
    if s.len() > 0 && p(s[0]) {
        lemma_leading_stop(s.drop_first(), p);
        let k = crate::text::leading_count(s.drop_first(), p);
        if k < s.drop_first().len() {
            assert(s[(k + 1) as int] == s.drop_first()[k as int]);
        }
    }
}

/// Trimmed text that is not empty starts with a non-whitespace character.
proof fn lemma_trim_starts_solid(s: Seq<char>)
    requires
        trim_spec(s).len() > 0,
    ensures
        !crate::text::is_ws(trim_spec(s)[0]),
{
    lemma_leading_stop(s, crate::text::ws());
    let a = crate::text::strip_leading(s, crate::text::ws());
    crate::text::lemma_trailing_count_bound(a, crate::text::ws());
    assert(trim_spec(s) == a.take(a.len() - crate::text::trailing_count(a, crate::text::ws())));
    assert(a[0] == s[crate::text::leading_count(s, crate::text::ws()) as int]);
    assert(trim_spec(s)[0] == a[0]);
}

/// The first piece of a text split at `c` starts with its first character
/// when that is not `c`.
proof fn lemma_split_first_piece(s: Seq<char>, c: char)
    requires
        s.len() > 0,
        s[0] != c,
    ensures
        split_spec(s, c).len() > 0,
        split_spec(s, c)[0].len() > 0,
        split_spec(s, c)[0][0] == s[0],
    decreases s.len(),
{
    crate::text::lemma_split_nonempty(s.drop_last(), c);
    let rest = split_spec(s.drop_last(), c);
    if s.len() == 1 {
        assert(s.drop_last() =~= Seq::<char>::empty());
        assert(rest == seq![Seq::<char>::empty()]);
        assert(s.last() == s[0]);
    } else {
        assert(s.drop_last()[0] == s[0]);
        lemma_split_first_piece(s.drop_last(), c);
        if s.last() != c && rest.len() == 1 {
            assert(rest.last() == rest[0]);
            assert(rest.last().push(s.last())[0] == rest[0][0]);
        }
    }
}

/// A skill file whose frontmatter gives no description, and whose body is
/// not empty, is described by the first line of its body, which is not
/// empty.
pub proof fn lemma_description_first_body_line(k: Skill, c: Seq<char>, default_name: Seq<char>, path_category: Option<Seq<char>>)
    requires
        parsed_skill(k, c, default_name, path_category),
        fm_description(c).len() == 0,
        split_frontmatter(c).1.len() > 0,
    ensures
        k.description@.len() > 0,
        lines_spec(split_frontmatter(c).1).len() > 0,
        k.description@ == lines_spec(split_frontmatter(c).1)[0],
{
    let body = split_frontmatter(c).1;
    let t = trim_spec(c);
    let src = if has_prefix(t, seq!['-', '-', '-']) {
        match find_from_spec(t.skip(3), seq!['\n', '-', '-', '-'], 0) {
            Some(end) => t.skip(3).skip(end + 4),
            None => c,
        }
    } else {
        c
    };
    assert(body == trim_spec(src)) by {
        if has_prefix(t, seq!['-', '-', '-']) {
            match find_from_spec(t.skip(3), seq!['\n', '-', '-', '-'], 0) {
                Some(end) => {},
                None => {},
            }
        }
    }
    lemma_trim_starts_solid(src);
    assert(body[0] != '\n');
    lemma_split_first_piece(body, '\n');
    let parts = split_spec(body, '\n');
    let kept = if parts.last().len() == 0 { parts.drop_last() } else { parts };
    if parts.len() == 1 {
        assert(parts.last() == parts[0]);
    }
    assert(kept.len() > 0 && kept[0] == parts[0]);
    let l0 = crate::text::strip_cr(parts[0]);
    assert(lines_spec(body)[0] == l0);
    assert(parts[0][0] != '\r');
    assert(l0.len() > 0);
    lemma_first_nonempty_is_first(lines_spec(body), 0);
}

} // verus!

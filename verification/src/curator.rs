//! The skill curator's decisions: the lifecycle state of a skill from the
//! days since its last use (active, stale after 30 days, archived after 90),
//! when a run is due (a week after the last), how a stale skill is marked in
//! its file, and the report of a run.

use vstd::prelude::*;
use vstd::string::StrSliceExecFns;
use crate::text::{
    contains_seq, decimal, extend_chars, find, find_from_spec, first_occurrence_from, from_chars, has_prefix,
    join, join_spec, lemma_first_occurrence_unique, occurs_at, parse_i64, parse_i64_spec, push_str,
    slice_to_vec, starts_with, str_contains, to_chars, trim, trim_spec, views,
};

verus! {

/// Days without use after which a skill is stale.
pub const STALE_DAYS: i64 = 30;

/// Days without use after which a skill is archived.
pub const ARCHIVE_DAYS: i64 = 90;

/// Seconds between two curator runs (seven days).
pub const RUN_INTERVAL_SECS: i64 = 604800;

/// What happened to a skill merged into an umbrella skill.
#[derive(Debug, Clone, Copy, PartialEq, Eq, Structural)]
pub enum UmbrellaAction {
    /// Its content went into the umbrella; archived but kept.
    Consolidated,
    /// Simply out of date; archived.
    Pruned,
}

/// Lifecycle state of a skill.
#[derive(Debug, Clone, Copy, PartialEq, Eq, Structural)]
pub enum SkillStatus {
    /// In use.
    Active,
    /// Unused for a while.
    Stale,
    /// Unused for long; moved away.
    Archived,
}

/// The state of a skill last used `days` days ago (none: never used).
pub open spec fn status_spec(days: Option<i64>) -> SkillStatus {
    match days {
        Some(d) => if d >= 90 {
            SkillStatus::Archived
        } else if d >= 30 {
            SkillStatus::Stale
        } else {
            SkillStatus::Active
        },
        None => SkillStatus::Active,
    }
}

/// The state of a skill last used `days` days ago (none: never used).
pub fn skill_status(days: Option<i64>) -> (r: SkillStatus)
    ensures
        r == status_spec(days),
{
    match days {
        Some(d) => {
            if d >= ARCHIVE_DAYS {
                SkillStatus::Archived
            } else if d >= STALE_DAYS {
                SkillStatus::Stale
            } else {
                SkillStatus::Active
            }
        },
        None => SkillStatus::Active,
    }
}

/// A later use never makes a skill younger: the states only advance with
/// the days since the last use.
pub proof fn lemma_status_monotone(a: i64, b: i64)
    requires
        a <= b,
    ensures
        status_spec(Some(a)) == SkillStatus::Archived ==> status_spec(Some(b)) == SkillStatus::Archived,
        status_spec(Some(a)) == SkillStatus::Stale ==> status_spec(Some(b)) != SkillStatus::Active,
{
}

/// Whether the skill file at `path` lies in an archive directory.
pub fn in_archive_dir(path: &str) -> (r: bool)
    ensures
        r == (contains_seq(path@, "/_archived/"@) || contains_seq(path@, "\\_archived\\"@)),
{
    let p = to_chars(path);
    str_contains(p.as_slice(), "/_archived/") || str_contains(p.as_slice(), "\\_archived\\")
}

/// Whether a curator run is due at time `now` (seconds) given the text of
/// the marker of the last run: always without a readable marker, else when
/// more than a week has passed.
pub open spec fn run_due_spec(marker: Option<Seq<char>>, now: i64) -> bool {
    match marker {
        None => true,
        Some(m) => match parse_i64_spec(trim_spec(m)) {
            None => true,
            Some(last) => now - last > 604800,
        },
    }
}

/// Whether a curator run is due at time `now` (seconds since the epoch)
/// given the text of the last run's marker, if one was read.
pub fn should_run_at(marker: Option<&str>, now: i64) -> (r: bool)
    requires
        marker matches Some(m) && parse_i64_spec(trim_spec(m@)) matches Some(last)
            ==> i64::MIN <= now - last <= i64::MAX,
    ensures
        r == run_due_spec(match marker { Some(m) => Some(m@), None => None }, now),
{
    match marker {
        None => true,
        Some(m) => {
            let c = to_chars(m);
            let t = trim(c.as_slice());
            match parse_i64(t.as_slice()) {
                None => true,
                Some(last) => now - last > RUN_INTERVAL_SECS,
            }
        },
    }
}

/// The file text with the stale mark, or none when it is marked stale or
/// archived already: inside the frontmatter when there is one, else in a
/// new frontmatter before the text.
pub open spec fn mark_stale_spec(c: Seq<char>) -> Option<Seq<char>> {
    if contains_seq(c, "status: stale"@) || contains_seq(c, "status: archived"@) {
        None
    } else if has_prefix(c, seq!['-', '-', '-']) {
        match find_from_spec(c.skip(3), seq!['\n', '-', '-', '-'], 0) {
            Some(end) => Some(c.take(3 + end) + "\nstatus: stale"@ + c.skip(3 + end)),
            None => Some(c),
        }
    } else {
        Some("---\nstatus: stale\n---\n\n"@ + c)
    }
}

/// The text to write back to mark the skill file `content` stale; none
/// when nothing is to be written.
pub fn mark_stale_content(content: &str) -> (r: Option<String>)
    ensures
        match r {
            Some(t) => mark_stale_spec(content@) == Some(t@),
            None => mark_stale_spec(content@) is None,
        },
{
    let c = to_chars(content);
    if str_contains(c.as_slice(), "status: stale") || str_contains(c.as_slice(), "status: archived") {
        return None;
    }
    if c.len() >= 3 && c[0] == '-' && c[1] == '-' && c[2] == '-' {
        assert(c@.take(3) =~= seq!['-', '-', '-']);
        let rest = slice_to_vec(c.as_slice(), 3, c.len());
        assert(rest@ =~= c@.skip(3));
        let mut pat: Vec<char> = Vec::new();
        pat.push('\n');
        pat.push('-');
        pat.push('-');
        pat.push('-');
        assert(pat@ =~= seq!['\n', '-', '-', '-']);
        match find(rest.as_slice(), pat.as_slice()) {
            Some(end) => {
                proof {
                    let k = choose|k: int| first_occurrence_from(rest@, pat@, 0, k);
                    lemma_first_occurrence_unique(rest@, pat@, 0, k, end as int);
                }
                let mut v = slice_to_vec(c.as_slice(), 0, 3 + end);
                push_str(&mut v, "\nstatus: stale");
                let after = slice_to_vec(c.as_slice(), 3 + end, c.len());
                extend_chars(&mut v, after.as_slice());
                assert(after@ =~= c@.skip(3 + end));
                assert(c@.subrange(0, 3 + end) =~= c@.take(3 + end));
                Some(from_chars(v.as_slice()))
            },
            None => {
                proof {
                    if exists|k: int| first_occurrence_from(rest@, pat@, 0, k) {
                        let k = choose|k: int| first_occurrence_from(rest@, pat@, 0, k);
                        assert(occurs_at(rest@, pat@, k));
                    }
                }
                Some(content.to_string())
            },
        }
    } else {
        proof {
            if has_prefix(c@, seq!['-', '-', '-']) {
                assert(c@[0] == c@.take(3)[0]);
                assert(c@[1] == c@.take(3)[1]);
                assert(c@[2] == c@.take(3)[2]);
            }
        }
        let mut v = to_chars("---\nstatus: stale\n---\n\n");
        push_str(&mut v, content);
        Some(from_chars(v.as_slice()))
    }
}

/// The note left where an archived skill's file was.
pub fn archive_marker(name: &str) -> (r: String)
    ensures
        r@ == "# 此技能已归档到 _archived/"@ + name@ + ".md\n# 如需恢复，移回 skills/ 目录即可\n"@,
{
    let mut v = to_chars("# 此技能已归档到 _archived/");
    push_str(&mut v, name);
    push_str(&mut v, ".md\n# 如需恢复，移回 skills/ 目录即可\n");
    from_chars(v.as_slice())
}

/// The summary of a run over `checked` skills.
pub fn run_summary(checked: usize, archived: usize, stale: usize) -> (r: String)
    ensures
        r@ == "已检查 "@ + decimal(checked as nat) + " 个技能 · "@ + decimal(archived as nat) + " 个归档 · "@
            + decimal(stale as nat) + " 个标记过期"@,
{
    let mut v = to_chars("已检查 ");
    let a = crate::text::decimal_chars(checked as u64);
    extend_chars(&mut v, a.as_slice());
    push_str(&mut v, " 个技能 · ");
    let b = crate::text::decimal_chars(archived as u64);
    extend_chars(&mut v, b.as_slice());
    push_str(&mut v, " 个归档 · ");
    let d = crate::text::decimal_chars(stale as u64);
    extend_chars(&mut v, d.as_slice());
    push_str(&mut v, " 个标记过期");
    from_chars(v.as_slice())
}

// ---------------------------------------------------------------------------
// The report
// ---------------------------------------------------------------------------

/// The report of a curator run.
#[derive(Debug, Clone)]
pub struct CuratorReport {
    /// Summary.
    pub message: String,
    /// Skills archived.
    pub archived: Vec<String>,
    /// Skills marked stale.
    pub stale: Vec<String>,
    /// Errors met.
    pub errors: Vec<String>,
    /// Where the snapshot went.
    pub snapshot_path: Option<String>,
    /// Run time in milliseconds.
    pub duration_ms: u64,
}

/// Lines `"   ⚠ " + e + "\n"` for each error of `es`.
pub open spec fn error_lines(es: Seq<String>) -> Seq<char>
    decreases es.len(),
{
    if es.len() == 0 {
        Seq::empty()
    } else {
        error_lines(es.drop_last()) + "   ⚠ "@ + es.last()@ + "\n"@
    }
}

/// The text of report `r` whose run time reads `seconds` seconds.
pub open spec fn report_text(r: CuratorReport, seconds: Seq<char>) -> Seq<char> {
    "🧹 Curator 执行完毕 ("@ + seconds + "s)\n"@ + "   "@ + r.message@ + "\n"@
        + (if r.archived@.len() > 0 { "   📦 已归档: "@ + join_spec(views(r.archived@), ", "@) + "\n"@ } else { Seq::empty() })
        + (if r.stale@.len() > 0 { "   ⏳ 已标记过期: "@ + join_spec(views(r.stale@), ", "@) + "\n"@ } else { Seq::empty() })
        + (match r.snapshot_path { Some(p) => "   💾 快照: "@ + p@ + "\n"@, None => Seq::empty() })
        + error_lines(r.errors@)
}

impl CuratorReport {
    /// An empty report.
    pub fn new() -> (r: CuratorReport)
        ensures
            r.message@.len() == 0,
            r.archived@.len() == 0,
            r.stale@.len() == 0,
            r.errors@.len() == 0,
            r.snapshot_path is None,
            r.duration_ms == 0,
    {
        CuratorReport {
            message: String::new(),
            archived: Vec::new(),
            stale: Vec::new(),
            errors: Vec::new(),
            snapshot_path: None,
            duration_ms: 0,
        }
    }

    /// No error was met.
    pub fn is_success(&self) -> (r: bool)
        ensures
            r == (self.errors@.len() == 0),
    {
        self.errors.len() == 0
    }

    /// The report as text, with the run time given as `seconds` (the caller
    /// writes the milliseconds as seconds with one decimal).
    pub fn format(&self, seconds: &str) -> (r: String)
        ensures
            r@ == report_text(*self, seconds@),
    {
        let mut v = to_chars("🧹 Curator 执行完毕 (");
        push_str(&mut v, seconds);
        push_str(&mut v, "s)\n");
        push_str(&mut v, "   ");
        push_str(&mut v, self.message.as_str());
        push_str(&mut v, "\n");
        let ghost a = v@;
        if self.archived.len() > 0 {
            push_str(&mut v, "   📦 已归档: ");
            let j = join(&self.archived, ", ");
            extend_chars(&mut v, j.as_slice());
            push_str(&mut v, "\n");
        }
        assert(v@ =~= a + (if self.archived@.len() > 0 {
            "   📦 已归档: "@ + join_spec(views(self.archived@), ", "@) + "\n"@
        } else {
            Seq::empty()
        }));
        let ghost b = v@;
        if self.stale.len() > 0 {
            push_str(&mut v, "   ⏳ 已标记过期: ");
            let j = join(&self.stale, ", ");
            extend_chars(&mut v, j.as_slice());
            push_str(&mut v, "\n");
        }
        assert(v@ =~= b + (if self.stale@.len() > 0 {
            "   ⏳ 已标记过期: "@ + join_spec(views(self.stale@), ", "@) + "\n"@
        } else {
            Seq::empty()
        }));
        let ghost c = v@;
        match &self.snapshot_path {
            Some(p) => {
                push_str(&mut v, "   💾 快照: ");
                push_str(&mut v, p.as_str());
                push_str(&mut v, "\n");
            },
            None => {},
        }
        assert(v@ =~= c + (match self.snapshot_path {
            Some(p) => "   💾 快照: "@ + p@ + "\n"@,
            None => Seq::empty(),
        }));
        let ghost d = v@;
        let mut i: usize = 0;
        while i < self.errors.len()
            invariant
                i <= self.errors@.len(),
                v@ == d + error_lines(self.errors@.take(i as int)),
            decreases self.errors@.len() - i,
        {
            assert(self.errors@.take(i + 1).drop_last() =~= self.errors@.take(i as int));
            push_str(&mut v, "   ⚠ ");
            push_str(&mut v, self.errors[i].as_str());
            push_str(&mut v, "\n");
            assert(v@ =~= d + error_lines(self.errors@.take(i + 1)));
            i = i + 1;
        }
        assert(self.errors@.take(self.errors@.len() as int) =~= self.errors@);
        assert(v@ =~= report_text(*self, seconds@));
        from_chars(v.as_slice())
    }
}

} // verus!

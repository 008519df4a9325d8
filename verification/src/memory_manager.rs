//! The memory orchestration layer: the built-in provider and at most one
//! external provider, driven through prefetch, inject, intercept, sync and
//! flush.

use vstd::prelude::*;
use crate::config::opt_text;
use crate::memory::MemoryEntry;
use crate::text::{extend_chars, from_chars, join, join_spec, push_str, to_chars, views};

verus! {

/// A memory provider: the five lifecycle hooks the manager drives. Each
/// provider says, as a relation, which answers it may give; what it holds
/// changes between calls, so an answer is one the relation admits. A
/// provider that does not narrow a relation admits every answer; the
/// manager's contracts hold for whichever relation its providers have.
pub trait MemoryProvider {
    /// Whether `r` is an answer this provider may give to a prefetch of
    /// `query` with `limit`.
    open spec fn prefetch_answer(&self, query: Seq<char>, limit: nat, r: Seq<MemoryEntry>) -> bool {
        true
    }

    /// Whether `r` is a text this provider may inject for `entries`.
    open spec fn inject_answer(&self, entries: Seq<MemoryEntry>, r: Seq<char>) -> bool {
        true
    }

    /// Whether `r` is help this provider may give for a call of `tool`
    /// with `args`.
    open spec fn intercept_answer(&self, tool: Seq<char>, args: Seq<char>, r: Option<Seq<char>>) -> bool {
        true
    }

    /// Whether `r` is a result this provider's flush may have.
    open spec fn flush_answer(&self, r: Result<(), Seq<char>>) -> bool {
        true
    }

    /// Memories related to `query`, at most `limit` of them.
    fn prefetch(&self, query: &str, limit: usize) -> (r: Vec<MemoryEntry>)
        ensures
            self.prefetch_answer(query@, limit as nat, r@);

    /// The memories as text for the context.
    fn inject(&self, entries: &[MemoryEntry]) -> (r: String)
        ensures
            self.inject_answer(entries@, r@);

    /// Help for a tool call, if any.
    fn intercept(&self, tool_name: &str, tool_args: &str) -> (r: Option<String>)
        ensures
            self.intercept_answer(tool_name@, tool_args@, opt_text(r));

    /// Stores a new memory.
    fn sync(&self, content: &str, tags: &[&str], project: &str);

    /// Persists what the provider holds.
    fn flush(&self) -> (r: Result<(), String>)
        ensures
            self.flush_answer(flush_text(r));
}

/// Kind of external provider.
#[derive(Debug, Clone, Copy, PartialEq, Eq, Structural)]
pub enum ExternalProviderType {
    /// Honcho.
    Honcho,
    /// Mem0.
    Mem0,
    /// MemGPT.
    MemGpt,
    /// Memary.
    Memary,
    /// Letta.
    Letta,
    /// Zep.
    Zep,
    /// Graphiti.
    Graphiti,
    /// Another provider.
    Custom,
}

/// Name of an external provider kind.
pub open spec fn provider_name(t: ExternalProviderType) -> Seq<char> {
    match t {
        ExternalProviderType::Honcho => "honcho"@,
        ExternalProviderType::Mem0 => "mem0"@,
        ExternalProviderType::MemGpt => "memgpt"@,
        ExternalProviderType::Memary => "memary"@,
        ExternalProviderType::Letta => "letta"@,
        ExternalProviderType::Zep => "zep"@,
        ExternalProviderType::Graphiti => "graphiti"@,
        ExternalProviderType::Custom => "custom"@,
    }
}

impl ExternalProviderType {
    /// Name of this kind.
    pub fn name(&self) -> (r: &'static str)
        ensures
            r@ == provider_name(*self),
    {
        match self {
            ExternalProviderType::Honcho => "honcho",
            ExternalProviderType::Mem0 => "mem0",
            ExternalProviderType::MemGpt => "memgpt",
            ExternalProviderType::Memary => "memary",
            ExternalProviderType::Letta => "letta",
            ExternalProviderType::Zep => "zep",
            ExternalProviderType::Graphiti => "graphiti",
            ExternalProviderType::Custom => "custom",
        }
    }
}

/// What prefetch gives for the built-in results `b` and the external ones
/// `e`: `b` alone without an external provider, else both, cut to `limit`.
pub open spec fn merged_spec(b: Seq<MemoryEntry>, e: Option<Seq<MemoryEntry>>, limit: nat) -> Seq<MemoryEntry> {
    match e {
        None => b,
        Some(x) => if b.len() + x.len() <= limit { b + x } else { (b + x).take(limit as int) },
    }
}

/// Merges the built-in prefetch results with the external ones, if any:
/// appended, then cut to `limit` entries.
pub fn merge_prefetch(builtin: Vec<MemoryEntry>, external: Option<Vec<MemoryEntry>>, limit: usize) -> (r: Vec<MemoryEntry>)
    ensures
        r@ == merged_spec(builtin@, match external { Some(x) => Some(x@), None => None }, limit as nat),
{
    match external {
        None => builtin,
        Some(x) => {
            let mut results = builtin;
            let mut more = x;
            results.append(&mut more);
            if results.len() > limit {
                results.truncate(limit);
            }
            results
        },
    }
}

/// The memory context text for `entries`: a heading, then one line per
/// entry with its first 200 characters and its tags; nothing without
/// entries.
pub open spec fn inject_spec(es: Seq<MemoryEntry>) -> Seq<char> {
    if es.len() == 0 { Seq::empty() } else { "【相关记忆】\n"@ + inject_lines(es) }
}

/// The lines of the memory context text for `es`.
pub open spec fn inject_lines(es: Seq<MemoryEntry>) -> Seq<char>
    decreases es.len(),
{
    if es.len() == 0 {
        Seq::empty()
    } else {
        let e = es.last();
        let c = e.content@;
        let preview = if c.len() > 200 { c.take(200) } else { c };
        let tags = if e.tags@.len() == 0 { Seq::empty() } else { " ["@ + join_spec(views(e.tags@), ", "@) + "]"@ };
        inject_lines(es.drop_last()) + "- "@ + preview + tags + "\n"@
    }
}

/// The memory context text the built-in provider injects for `entries`.
pub fn inject_entries(entries: &[MemoryEntry]) -> (r: String)
    ensures
        r@ == inject_spec(entries@),
{
    if entries.len() == 0 {
        return String::new();
    }
    let mut v = to_chars("【相关记忆】\n");
    let ghost head = v@;
    let mut i: usize = 0;
    while i < entries.len()
        invariant
            i <= entries@.len(),
            v@ == head + inject_lines(entries@.take(i as int)),
        decreases entries@.len() - i,
    {
        let e = &entries[i];
        let c = to_chars(e.content.as_str());
        let n = if c.len() > 200 { 200 } else { c.len() };
        let preview = crate::text::slice_to_vec(c.as_slice(), 0, n);
        let ghost before = v@;
        push_str(&mut v, "- ");
        extend_chars(&mut v, preview.as_slice());
        if e.tags.len() > 0 {
            push_str(&mut v, " [");
            let j = join(&e.tags, ", ");
            extend_chars(&mut v, j.as_slice());
            push_str(&mut v, "]");
        }
        push_str(&mut v, "\n");
        assert(entries@.take(i + 1).drop_last() =~= entries@.take(i as int));
        assert(entries@.take(i + 1).last() == *e);
        assert(v@ =~= head + inject_lines(entries@.take(i + 1)));
        i = i + 1;
    }
    assert(entries@.take(entries@.len() as int) =~= entries@);
    from_chars(v.as_slice())
}

/// The help for a tool call given the built-in provider's answer `b` and,
/// when it was asked, the external provider's `e`: the built-in one's when
/// it has one, else the external one's, else none.
pub open spec fn intercept_outcome_spec(b: Option<Seq<char>>, e: Option<Option<Seq<char>>>) -> Option<Seq<char>> {
    if b is Some {
        b
    } else {
        match e {
            Some(x) => x,
            None => None,
        }
    }
}

/// The text of the external provider's answer, when it was asked.
pub open spec fn asked_text(e: Option<Option<String>>) -> Option<Option<Seq<char>>> {
    match e {
        Some(x) => Some(opt_text(x)),
        None => None,
    }
}

/// Picks the help for a tool call from the providers' answers; the external
/// provider's answer is there only when it was asked.
pub fn intercept_outcome(b: Option<String>, external: Option<Option<String>>) -> (r: Option<String>)
    ensures
        opt_text(r) == intercept_outcome_spec(opt_text(b), match external {
            Some(x) => Some(opt_text(x)),
            None => None,
        }),
{
    match b {
        Some(t) => Some(t),
        None => match external {
            Some(x) => x,
            None => None,
        },
    }
}

/// The outcome of flushing given the built-in provider's result `b` and,
/// when it was flushed too, the external provider's `e`: the built-in
/// error first, else the external result, else success.
pub open spec fn flush_outcome_spec(b: Result<(), Seq<char>>, e: Option<Result<(), Seq<char>>>) -> Result<(), Seq<char>> {
    match b {
        Err(x) => Err(x),
        Ok(()) => match e {
            Some(r) => r,
            None => Ok(()),
        },
    }
}

/// The text of a flush result.
pub open spec fn flush_text(r: Result<(), String>) -> Result<(), Seq<char>> {
    match r {
        Ok(()) => Ok(()),
        Err(t) => Err(t@),
    }
}

/// The text of the external provider's flush result, when it was flushed.
pub open spec fn flushed_text(e: Option<Result<(), String>>) -> Option<Result<(), Seq<char>>> {
    match e {
        Some(x) => Some(flush_text(x)),
        None => None,
    }
}

/// Combines the providers' flush results: the built-in one's error stops
/// the flush; otherwise the external one's result, or success without one.
pub fn flush_outcome(b: Result<(), String>, external: Option<Result<(), String>>) -> (r: Result<(), String>)
    ensures
        flush_text(r) == flush_outcome_spec(flush_text(b), match external {
            Some(x) => Some(flush_text(x)),
            None => None,
        }),
{
    match b {
        Err(x) => Err(x),
        Ok(()) => match external {
            Some(x) => x,
            None => Ok(()),
        },
    }
}

/// The memory manager: the built-in provider and at most one external one.
pub struct MemoryManager {
    builtin: Box<dyn MemoryProvider>,
    external: Option<Box<dyn MemoryProvider>>,
    external_type: Option<ExternalProviderType>,
}

impl MemoryManager {
    /// Whether an external provider is attached.
    pub closed spec fn has_external(&self) -> bool {
        self.external is Some
    }

    /// The kind of the external provider.
    pub closed spec fn external_kind(&self) -> Option<ExternalProviderType> {
        self.external_type
    }

    /// `r` is an answer the built-in provider may give to a prefetch.
    pub closed spec fn builtin_prefetch(&self, query: Seq<char>, limit: nat, r: Seq<MemoryEntry>) -> bool {
        self.builtin.prefetch_answer(query, limit, r)
    }

    /// `r` is an answer the external provider may give to a prefetch.
    pub closed spec fn external_prefetch(&self, query: Seq<char>, limit: nat, r: Seq<MemoryEntry>) -> bool {
        match self.external {
            Some(x) => x.prefetch_answer(query, limit, r),
            None => false,
        }
    }

    /// `r` is a text the built-in provider may inject for `entries`.
    pub closed spec fn builtin_inject(&self, entries: Seq<MemoryEntry>, r: Seq<char>) -> bool {
        self.builtin.inject_answer(entries, r)
    }

    /// `r` is help the built-in provider may give for a tool call.
    pub closed spec fn builtin_intercept(&self, tool: Seq<char>, args: Seq<char>, r: Option<Seq<char>>) -> bool {
        self.builtin.intercept_answer(tool, args, r)
    }

    /// `r` is help the external provider may give for a tool call.
    pub closed spec fn external_intercept(&self, tool: Seq<char>, args: Seq<char>, r: Option<Seq<char>>) -> bool {
        match self.external {
            Some(x) => x.intercept_answer(tool, args, r),
            None => false,
        }
    }

    /// `r` is a result the built-in provider's flush may have.
    pub closed spec fn builtin_flush(&self, r: Result<(), Seq<char>>) -> bool {
        self.builtin.flush_answer(r)
    }

    /// `r` is a result the external provider's flush may have.
    pub closed spec fn external_flush(&self, r: Result<(), Seq<char>>) -> bool {
        match self.external {
            Some(x) => x.flush_answer(r),
            None => false,
        }
    }

    /// `r` is what a prefetch of `query` with `limit` may give: the
    /// built-in provider's answer, merged with the external one's when there
    /// is an external provider.
    pub open spec fn prefetched(&self, query: Seq<char>, limit: nat, r: Seq<MemoryEntry>) -> bool {
        exists|b: Seq<MemoryEntry>, e: Option<Seq<MemoryEntry>>| #![trigger merged_spec(b, e, limit)]
            r == merged_spec(b, e, limit)
            && self.builtin_prefetch(query, limit, b)
            && (e is Some <==> self.has_external())
            && (e matches Some(x) ==> self.external_prefetch(query, limit, x))
    }

    /// A manager over the built-in provider alone.
    pub fn new_builtin(builtin: Box<dyn MemoryProvider>) -> (m: MemoryManager)
        ensures
            !m.has_external(),
            m.external_kind() is None,
    {
        MemoryManager { builtin, external: None, external_type: None }
    }

    /// A manager over the built-in provider and an external one of kind
    /// `ext_type`.
    pub fn new_with_external(
        builtin: Box<dyn MemoryProvider>,
        external: Box<dyn MemoryProvider>,
        ext_type: ExternalProviderType,
    ) -> (m: MemoryManager)
        ensures
            m.has_external(),
            m.external_kind() == Some(ext_type),
    {
        MemoryManager { builtin, external: Some(external), external_type: Some(ext_type) }
    }

    /// The kind of the external provider, if any.
    pub fn external_type(&self) -> (r: Option<ExternalProviderType>)
        ensures
            r == self.external_kind(),
    {
        self.external_type
    }

    /// Memories related to `query` from both providers, merged by
    /// `merge_prefetch` (the external one is asked when there is one); with
    /// an external provider, at most `limit`.
    pub fn prefetch(&self, query: &str, limit: usize) -> (r: Vec<MemoryEntry>)
        ensures
            self.prefetched(query@, limit as nat, r@),
            self.has_external() ==> r@.len() <= limit,
    {
        let b = self.builtin.prefetch(query, limit);
        let e = match &self.external {
            Some(ext) => Some(ext.prefetch(query, limit)),
            None => None,
        };
        let ghost bv = b@;
        let ghost ev = match &e {
            Some(x) => Some(x@),
            None => None,
        };
        let r = merge_prefetch(b, e, limit);
        assert(r@ == merged_spec(bv, ev, limit as nat));
        assert(self.builtin_prefetch(query@, limit as nat, bv));
        r
    }

    /// The memories as context text, as the built-in provider writes it;
    /// the external provider is not asked.
    pub fn inject(&self, entries: &[MemoryEntry]) -> (r: String)
        ensures
            self.builtin_inject(entries@, r@),
    {
        self.builtin.inject(entries)
    }

    /// Help for a tool call: the built-in provider's, else the external
    /// one's, which is asked only when the built-in one has none.
    pub fn intercept(&self, tool_name: &str, tool_args: &str) -> (r: Option<String>)
        ensures
            exists|b: Option<Seq<char>>, e: Option<Option<Seq<char>>>|
                #![trigger intercept_outcome_spec(b, e)]
                opt_text(r) == intercept_outcome_spec(b, e)
                && self.builtin_intercept(tool_name@, tool_args@, b)
                && (e is Some <==> (b is None && self.has_external()))
                && (e matches Some(x) ==> self.external_intercept(tool_name@, tool_args@, x)),
    {
        let b = self.builtin.intercept(tool_name, tool_args);
        let e = if b.is_some() {
            None
        } else {
            match &self.external {
                Some(ext) => Some(ext.intercept(tool_name, tool_args)),
                None => None,
            }
        };
        let ghost bv = opt_text(b);
        let ghost ev = asked_text(e);
        let r = intercept_outcome(b, e);
        assert(opt_text(r) == intercept_outcome_spec(bv, ev));
        assert(self.builtin_intercept(tool_name@, tool_args@, bv));
        r
    }

    /// Stores a new memory with both providers.
    pub fn sync(&self, content: &str, tags: &[&str], project: &str) {
        self.builtin.sync(content, tags, project);
        match &self.external {
            Some(ext) => ext.sync(content, tags, project),
            None => {},
        }
    }

    /// Persists both providers, the built-in one first; the first error
    /// stops it.
    pub fn flush(&self) -> (r: Result<(), String>)
        ensures
            exists|b: Result<(), Seq<char>>, e: Option<Result<(), Seq<char>>>|
                #![trigger flush_outcome_spec(b, e)]
                flush_text(r) == flush_outcome_spec(b, e)
                && self.builtin_flush(b)
                && (e is Some <==> (b is Ok && self.has_external()))
                && (e matches Some(x) ==> self.external_flush(x)),
    {
        let b = self.builtin.flush();
        let e = if b.is_err() {
            None
        } else {
            match &self.external {
                Some(ext) => Some(ext.flush()),
                None => None,
            }
        };
        let ghost bv = flush_text(b);
        let ghost ev = flushed_text(e);
        let r = flush_outcome(b, e);
        assert(flush_text(r) == flush_outcome_spec(bv, ev));
        assert(self.builtin_flush(bv));
        r
    }

    /// One round: prefetch three memories for `query`, inject them, store
    /// the new content if any, flush (its error is ignored); the text
    /// injected for the memories prefetched before the new content was
    /// stored.
    pub fn full_cycle(&self, query: &str, new_content: Option<(&str, &[&str], &str)>) -> (r: String)
        ensures
            exists|es: Seq<MemoryEntry>| #![trigger self.builtin_inject(es, r@)]
                self.prefetched(query@, 3, es) && self.builtin_inject(es, r@),
    {
        let entries = self.prefetch(query, 3);
        let injected = self.inject(entries.as_slice());
        match new_content {
            Some(nc) => {
                let (content, tags, project) = nc;
                self.sync(content, tags, project);
            },
            None => {},
        }
        let _ = self.flush();
        injected
    }
}

} // verus!

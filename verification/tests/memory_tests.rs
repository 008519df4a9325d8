use rhermes::memory::{join_tags, parse_tags, MemoryEntry, MemoryType};
use rhermes::memory_manager::{flush_outcome, inject_entries, intercept_outcome, merge_prefetch, ExternalProviderType, MemoryManager, MemoryProvider};
use std::cell::RefCell;

fn entry(id: i64, content: &str, tags: &[&str]) -> MemoryEntry {
    MemoryEntry {
        id,
        memory_type: MemoryType::Working,
        content: content.into(),
        tags: tags.iter().map(|t| t.to_string()).collect(),
        project: "rhermes".into(),
        created_at: "2026-01-01T00:00:00Z".into(),
        last_accessed: "2026-01-01T00:00:00Z".into(),
        access_count: 1,
    }
}

/// An in-memory provider that finds entries whose content or tags contain the query.
struct ListProvider {
    entries: RefCell<Vec<MemoryEntry>>,
}

impl ListProvider {
    fn new() -> Self {
        ListProvider { entries: RefCell::new(Vec::new()) }
    }
}

impl MemoryProvider for ListProvider {
    fn prefetch(&self, query: &str, limit: usize) -> Vec<MemoryEntry> {
        self.entries
            .borrow()
            .iter()
            .filter(|e| e.content.contains(query) || e.tags.iter().any(|t| t.contains(query)))
            .take(limit)
            .cloned()
            .collect()
    }
    fn inject(&self, entries: &[MemoryEntry]) -> String {
        inject_entries(entries)
    }
    fn intercept(&self, _tool_name: &str, _tool_args: &str) -> Option<String> {
        None
    }
    fn sync(&self, content: &str, tags: &[&str], _project: &str) {
        let n = self.entries.borrow().len() as i64;
        self.entries.borrow_mut().push(entry(n + 1, content, tags));
    }
    fn flush(&self) -> Result<(), String> {
        Ok(())
    }
}

fn setup_manager() -> MemoryManager {
    MemoryManager::new_builtin(Box::new(ListProvider::new()))
}

#[test]
fn test_memory_type_conversion() {
    assert_eq!(MemoryType::from_str("session"), Some(MemoryType::Session));
    assert_eq!(MemoryType::from_str("working"), Some(MemoryType::Working));
    assert_eq!(MemoryType::from_str("long_term"), Some(MemoryType::LongTerm));
    assert_eq!(MemoryType::from_str("invalid"), None);
}

#[test]
fn memory_type_round_trip() {
    for t in [MemoryType::Session, MemoryType::Working, MemoryType::LongTerm] {
        assert_eq!(MemoryType::from_str(t.as_str()), Some(t));
    }
}

#[test]
fn tags_round_trip() {
    let tags = vec!["rust".to_string(), "memory".to_string()];
    let s = join_tags(&tags);
    assert_eq!(s, "rust,memory");
    assert_eq!(parse_tags(&s), tags);
    assert_eq!(parse_tags(" a , ,b "), vec!["a".to_string(), "b".to_string()]);
    assert_eq!(entry(1, "x", &["p", "q"]).tags_str(), "p, q");
}

#[test]
fn test_prefetch_empty() {
    let manager = setup_manager();
    let entries = manager.prefetch("test", 10);
    assert!(entries.is_empty());
}

#[test]
fn test_sync_and_prefetch() {
    let manager = setup_manager();
    manager.sync("Rust 的所有权系统", &["rust", "memory"], "rhermes");
    manager.sync("tokio 异步运行时", &["rust", "async"], "rhermes");
    let entries = manager.prefetch("rust", 10);
    assert_eq!(entries.len(), 2);
}

#[test]
fn test_inject_format() {
    let manager = setup_manager();
    let entries = vec![entry(1, "测试记忆内容", &["test"])];
    let result = manager.inject(&entries);
    assert!(result.contains("相关记忆"));
    assert!(result.contains("测试记忆内容"));
    assert_eq!(result, "【相关记忆】\n- 测试记忆内容 [test]\n");
}

#[test]
fn test_full_cycle() {
    let manager = setup_manager();
    let result = manager.full_cycle("rust", Some(("测试", &["test"], "rhermes")));
    assert!(result.is_empty());
    let entries = manager.prefetch("test", 10);
    assert_eq!(entries.len(), 1);
}

#[test]
fn test_intercept() {
    let manager = setup_manager();
    assert!(manager.intercept("read_file", r#"{"path":"test.txt"}"#).is_none());
    assert!(manager.intercept("unknown_tool", "").is_none());
}

#[test]
fn external_results_are_cut_to_limit() {
    let builtin = ListProvider::new();
    builtin.sync("rust a", &[], "p");
    builtin.sync("rust b", &[], "p");
    let ext = ListProvider::new();
    ext.sync("rust c", &[], "p");
    let m = MemoryManager::new_with_external(Box::new(builtin), Box::new(ext), ExternalProviderType::Zep);
    assert_eq!(m.external_type(), Some(ExternalProviderType::Zep));
    assert_eq!(m.prefetch("rust", 2).len(), 2);
    assert_eq!(m.prefetch("rust", 5).len(), 3);
    assert_eq!(ExternalProviderType::Zep.name(), "zep");
}

#[test]
fn merge_prefetch_appends_then_cuts() {
    let b = vec![entry(1, "a", &[]), entry(2, "b", &[])];
    let e = vec![entry(3, "c", &[])];
    let r = merge_prefetch(b.clone(), Some(e), 2);
    assert_eq!(r.iter().map(|x| x.id).collect::<Vec<_>>(), vec![1, 2]);
    let r = merge_prefetch(b, None, 1);
    assert_eq!(r.len(), 2);
}

#[test]
fn inject_long_content_is_cut() {
    let long: String = "字".repeat(250);
    let r = inject_entries(&[entry(1, &long, &[])]);
    assert_eq!(r, format!("【相关记忆】\n- {}\n", "字".repeat(200)));
    assert_eq!(inject_entries(&[]), "");
}

#[test]
fn intercept_asks_external_only_without_builtin_answer() {
    assert_eq!(intercept_outcome(Some("b".to_string()), Some(Some("x".to_string()))), Some("b".to_string()));
    assert_eq!(intercept_outcome(None, Some(Some("x".to_string()))), Some("x".to_string()));
    assert_eq!(intercept_outcome(None, Some(None)), None);
    assert_eq!(intercept_outcome(None, None), None);
}

#[test]
fn flush_stops_on_builtin_error() {
    assert_eq!(flush_outcome(Err("b".to_string()), Some(Err("x".to_string()))), Err("b".to_string()));
    assert_eq!(flush_outcome(Ok(()), Some(Err("x".to_string()))), Err("x".to_string()));
    assert_eq!(flush_outcome(Ok(()), Some(Ok(()))), Ok(()));
    assert_eq!(flush_outcome(Ok(()), None), Ok(()));
}

use rhermes::curator::{
    archive_marker, in_archive_dir, mark_stale_content, run_summary, should_run_at, skill_status, CuratorReport,
    SkillStatus,
};

#[test]
fn test_should_run_first_time() {
    assert!(should_run_at(None, 1_700_000_000));
}

#[test]
fn test_should_run_after_7_days() {
    let now: i64 = 1_700_000_000;
    let old_ts = (now - 8 * 86400).to_string();
    assert!(should_run_at(Some(&old_ts), now));
}

#[test]
fn test_should_not_run_recently() {
    let now: i64 = 1_700_000_000;
    let recent = now.to_string();
    assert!(!should_run_at(Some(&recent), now));
}

#[test]
fn should_run_boundary_and_garbage() {
    let now: i64 = 1_700_000_000;
    assert!(!should_run_at(Some(&(now - 604800).to_string()), now));
    assert!(should_run_at(Some(&(now - 604801).to_string()), now));
    assert!(should_run_at(Some("not a number"), now));
    assert!(!should_run_at(Some(&format!("  {}\n", now)), now));
}

#[test]
fn test_scan_skill_states() {
    assert_eq!(skill_status(Some(1)), SkillStatus::Active);
    assert_eq!(skill_status(None), SkillStatus::Active);
    assert_eq!(skill_status(Some(35)), SkillStatus::Stale);
    assert_eq!(skill_status(Some(95)), SkillStatus::Archived);
    assert_eq!(skill_status(Some(30)), SkillStatus::Stale);
    assert_eq!(skill_status(Some(90)), SkillStatus::Archived);
    assert_eq!(skill_status(Some(29)), SkillStatus::Active);
}

#[test]
fn test_mark_stale() {
    let content = "---\ndescription: test\n---\n\nbody\n";
    let marked = mark_stale_content(content).unwrap();
    assert!(marked.contains("status: stale"));
    assert_eq!(marked, "---\ndescription: test\nstatus: stale\n---\n\nbody\n");
    assert_eq!(mark_stale_content(&marked), None);
    assert_eq!(mark_stale_content("plain"), Some("---\nstatus: stale\n---\n\nplain".to_string()));
}

#[test]
fn archive_paths_and_markers() {
    assert!(in_archive_dir("skills/_archived/x.md"));
    assert!(!in_archive_dir("skills/x.md"));
    assert_eq!(archive_marker("old"), "# 此技能已归档到 _archived/old.md\n# 如需恢复，移回 skills/ 目录即可\n");
    assert_eq!(run_summary(4, 1, 2), "已检查 4 个技能 · 1 个归档 · 2 个标记过期");
}

#[test]
fn report_format_and_success() {
    let mut r = CuratorReport::new();
    assert!(r.is_success());
    r.message = "done".to_string();
    r.archived = vec!["old".to_string()];
    assert_eq!(r.format("0.1"), "🧹 Curator 执行完毕 (0.1s)\n   done\n   📦 已归档: old\n");
    r.errors.push("bad".to_string());
    assert!(!r.is_success());
    assert!(r.format("0.1").ends_with("   ⚠ bad\n"));
}

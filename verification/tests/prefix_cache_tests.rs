use rhermes::prefix_cache::PrefixCacheManager;

#[test]
fn test_prefix_cache_new() {
    let mut mgr = PrefixCacheManager::new("system prompt");
    let frozen = mgr.freeze();
    assert!(frozen.len() > 0);
    assert!(mgr.frozen_prefix().is_some());
}

#[test]
fn test_prefix_cache_layers() {
    let mut mgr = PrefixCacheManager::new("layer1\n");
    mgr.set_layer2("layer2\n");
    mgr.set_layer3("layer3");
    assert_eq!(mgr.full_system_prompt(), "layer1\nlayer2\nlayer3");
}

#[test]
fn test_prefix_cache_frozen_immutable() {
    let mut mgr = PrefixCacheManager::new("base");
    let frozen = mgr.freeze();
    let len_before = frozen.len();
    mgr.set_layer2(&"extra".to_string());
    assert_eq!(frozen.len(), len_before);
}

#[test]
fn test_prefix_cache_serialized_format() {
    let mut mgr = PrefixCacheManager::new("You are a helpful assistant.");
    let frozen = mgr.freeze();
    let json_str = String::from_utf8_lossy(&frozen);
    assert!(json_str.contains("\"role\":\"system\""));
    assert!(json_str.contains("\"content\":\"You are a helpful assistant.\""));
}

#[test]
fn prefix_cache_freeze_takes_current_layers() {
    let mut mgr = PrefixCacheManager::new("a");
    let first = mgr.freeze();
    mgr.set_layer3("changed");
    let second = mgr.freeze();
    assert_ne!(first, second);
    assert_eq!(mgr.frozen_prefix(), Some(&second));
    assert_eq!(mgr.layer1(), "a");
    assert_eq!(mgr.layer3(), "changed");
    assert_eq!(mgr.full_system_prompt(), "achanged");
}

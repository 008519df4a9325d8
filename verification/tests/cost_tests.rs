use rhermes::cost::{auxiliary_tier, escalate_tier, settle_tier, CostPreset, ModelTier, NeedsProDetector, ResultCompressor};

#[test]
fn test_model_tier_names() {
    assert_eq!(ModelTier::Flash.model_name(), "deepseek-v4-flash");
    assert_eq!(ModelTier::Pro.model_name(), "deepseek-v4-pro");
}

#[test]
fn test_preset_initial_tier() {
    assert_eq!(CostPreset::Flash.initial_tier(), ModelTier::Flash);
    assert_eq!(CostPreset::Auto.initial_tier(), ModelTier::Flash);
    assert_eq!(CostPreset::Pro.initial_tier(), ModelTier::Pro);
}

#[test]
fn test_needs_pro_detection() {
    let (rest, needs) = NeedsProDetector::detect("<<<NEEDS_PRO>>> 这个问题需要更强推理");
    assert!(needs);
    assert!(rest.starts_with("这个问题"));
}

#[test]
fn test_needs_pro_with_reason() {
    let (rest, needs) = NeedsProDetector::detect("<<<NEEDS_PRO: 复杂数学推导>>>请计算...");
    assert!(needs);
    assert!(rest.starts_with("请计算"));
}

#[test]
fn test_needs_pro_no_false_positive() {
    let (_, needs) = NeedsProDetector::detect("正常回复内容 <<<NEEDS_PRO>>> 不触发");
    assert!(!needs);
}

#[test]
fn test_compressor_below_threshold() {
    let comp = ResultCompressor::default();
    let text = "short text";
    assert_eq!(comp.compress(text), text);
    assert!(!comp.needs_compress(text));
}

#[test]
fn test_compressor_above_threshold() {
    let comp = ResultCompressor::new(10, 5, 3);
    let text = "1234567890ABCDE";
    let compressed = comp.compress(text);
    assert!(comp.needs_compress(text));
    assert_ne!(compressed, text);
    assert!(compressed.contains("[省略"));
}

#[test]
fn test_compressor_preserves_head_and_tail() {
    let comp = ResultCompressor::new(10, 5, 3);
    let text = "12345____CDE";
    let compressed = comp.compress(text);
    assert!(compressed.starts_with("12345"));
    assert!(compressed.ends_with("CDE"));
}

#[test]
fn compressor_exact_text() {
    let comp = ResultCompressor::new(10, 5, 3);
    assert_eq!(comp.compress("1234567890ABCDE"), "12345\n…[省略 7 字符，总计 15]…\nCDE");
}

#[test]
fn test_auxiliary_always_flash() {
    assert_eq!(auxiliary_tier(), ModelTier::Flash);
}

#[test]
fn escalation_follows_preset() {
    assert_eq!(escalate_tier(CostPreset::Auto, ModelTier::Flash, true), (ModelTier::Pro, true));
    assert_eq!(escalate_tier(CostPreset::Flash, ModelTier::Flash, true), (ModelTier::Flash, false));
    assert_eq!(escalate_tier(CostPreset::Auto, ModelTier::Flash, false), (ModelTier::Flash, false));
    assert_eq!(settle_tier(CostPreset::Auto, ModelTier::Pro), ModelTier::Flash);
    assert_eq!(settle_tier(CostPreset::Pro, ModelTier::Pro), ModelTier::Pro);
}

#[test]
fn needs_pro_without_marker_keeps_text() {
    let (rest, needs) = NeedsProDetector::detect("plain answer");
    assert!(!needs);
    assert_eq!(rest, "plain answer");
}

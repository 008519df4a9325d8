use rhermes::config::{
    apply_env, env_file_text, is_configured, ApiConfig, ProviderConfig, ProxyConfig, ProxyMode, RequestConfig,
    SearchConfig, TelegramConfig,
};

fn load_env(content: &str) -> (String, Vec<(String, ProviderConfig)>, SearchConfig, TelegramConfig) {
    let mut key = String::new();
    let mut providers = Vec::new();
    let mut search = SearchConfig::default();
    let mut telegram = TelegramConfig::default();
    apply_env(content, &mut key, &mut providers, &mut search, &mut telegram);
    (key, providers, search, telegram)
}

#[test]
fn section_defaults() {
    let api = ApiConfig::default();
    assert_eq!(api.model, "deepseek-v4-flash");
    assert_eq!(api.base_url, "https://api.deepseek.com");
    let req = RequestConfig::default();
    assert_eq!(req.timeout_secs, 60);
    assert_eq!(req.max_retries, 3);
    assert!(!is_configured(&String::new(), &vec![]));
}

#[test]
fn config_test_env_parse() {
    let (key, providers, _, _) = load_env("# RHermes config\nDEEPSEEK_API_KEY=sk-from-env\n");
    assert_eq!(key, "sk-from-env");
    assert!(is_configured(&key, &providers));
}

#[test]
fn config_test_env_with_whitespace() {
    let (key, _, _, _) = load_env("  DEEPSEEK_API_KEY = sk-trimmed-key  \n");
    assert_eq!(key, "sk-trimmed-key");
}

#[test]
fn config_test_no_env_file_fallback() {
    let (key, providers, _, _) = load_env("");
    assert!(key.is_empty());
    assert!(providers.is_empty());
}

#[test]
fn env_other_keys() {
    let (_, providers, search, telegram) =
        load_env("OPENAI_API_KEY=sk-o\nSERPER_API_KEY=sp\nSEARCH_PROXY=http://p\nTELEGRAM_BOT_TOKEN=tg\nnoise\n");
    assert!(providers.iter().any(|(n, p)| n == "openai" && p.api_key == "sk-o"));
    assert_eq!(search.serper_api_key, "sp");
    assert_eq!(search.proxy.as_deref(), Some("http://p"));
    assert_eq!(telegram.bot_token, "tg");
}

#[test]
fn env_file_holds_key() {
    let text = env_file_text(&"sk-test-key-12345".to_string(), &vec![]);
    assert_eq!(text, "# RHermes Provider API Keys\nDEEPSEEK_API_KEY=sk-test-key-12345\n");
    let (key, _, _, _) = load_env(&text);
    assert_eq!(key, "sk-test-key-12345");
}

#[test]
fn proxy_rules() {
    let mut p = ProxyConfig::default();
    assert_eq!(p.mode, ProxyMode::Auto);
    assert!(!p.need_proxy("wechat"));
    p.rules = vec![("wechat".to_string(), true), ("wechat".to_string(), false)];
    assert!(!p.need_proxy("wechat"));
    p.url = Some("http://127.0.0.1:7890".to_string());
    assert!(p.need_proxy("wechat"));
    assert!(!p.need_proxy("search"));
    p.mode = ProxyMode::Off;
    assert!(!p.need_proxy("wechat"));
    p.mode = ProxyMode::All;
    assert!(p.need_proxy("search"));
}

#[test]
fn env_key_round_trip_fills_deepseek_provider() {
    let keyless = ProviderConfig::default();
    let text = env_file_text(&"sk-abc".to_string(), &vec![("openai".to_string(), keyless)]);
    let (key, providers, _, _) = load_env(&text);
    assert_eq!(key, "sk-abc");
    assert!(providers.iter().any(|(n, p)| n == "deepseek" && p.api_key == "sk-abc"));
    assert!(!providers.iter().any(|(n, _)| n == "openai"));
}

#[test]
fn env_keys_for_one_provider_keep_one_entry() {
    let (_, providers, _, _) = load_env("OPENAI_API_KEY=a\nDEEPSEEK_API_KEY=d\nOPENAI_API_KEY=b\nopenai_API_KEY=c\n");
    let names: Vec<&str> = providers.iter().map(|p| p.0.as_str()).collect();
    assert_eq!(names, vec!["openai", "deepseek"]);
    assert_eq!(providers[0].1.api_key, "c");
}

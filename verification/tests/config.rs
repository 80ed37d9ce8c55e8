use jobsearch::config::{
    default_typesafe_base_url, expand_tilde, default_typesafe_default_model, LlmConfig, ProviderConfig,
    Providers, Settings, SystemOneConfig, SAMPLE_LLM_ARGS,
};
use jobsearch::region::Region;

#[test]
fn sample_settings() {
    let s = Settings::sample();
    assert_eq!(s.personal_info.location, Region::Europe);
    assert_eq!(s.personal_info.cv, "./cv.md");
    assert_eq!(s.pause_ms, 2000);
    assert_eq!(s.llm.bin, "pi");
    assert_eq!(s.llm.args, SAMPLE_LLM_ARGS);
    assert_eq!(s.providers.wellfound.urls, vec!["https://wellfound.com/role/l/software-engineer/europe"]);
    assert_eq!(s.providers.upwork.urls.len(), 1);
    assert_eq!(s.systemone.typesafe_base_url, "https://api.typesafe.ai");
    assert_eq!(s.systemone.typesafe_default_model, "jev-latest");
}

#[test]
fn defaults() {
    assert_eq!(default_typesafe_base_url(), "https://api.typesafe.ai");
    assert_eq!(default_typesafe_default_model(), "jev-latest");
    let c = SystemOneConfig::default();
    assert_eq!(c.typesafe_base_url, "https://api.typesafe.ai");
    assert!(ProviderConfig::default().urls.is_empty());
    assert!(Providers::default().linkedin.urls.is_empty());
}

#[test]
fn llm_args_split_at_white_space() {
    let cfg = LlmConfig { bin: "pi".into(), args: "  --print\t--mode  text \n".into() };
    assert_eq!(cfg.arg_list(), vec!["--print", "--mode", "text"]);
    let cfg = LlmConfig { bin: "pi".into(), args: String::new() };
    assert!(cfg.arg_list().is_empty());
    let sample = Settings::sample();
    assert_eq!(sample.llm.arg_list().len(), 10);
}

#[test]
fn only_a_leading_home_tilde_is_expanded() {
    assert_eq!(expand_tilde("/var/lib/jobsearch.db"), "/var/lib/jobsearch.db");
    assert_eq!(expand_tilde("~other/jobsearch.db"), "~other/jobsearch.db");
    assert_eq!(expand_tilde("data/~/x"), "data/~/x");
    let home = expand_tilde("~/jobsearch.db");
    assert!(home.ends_with("/jobsearch.db"));
    assert!(!home.starts_with('~'), "the home directory replaces the tilde");
}

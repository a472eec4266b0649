use helmor::codex_config::{active_api_key_provider, config_path, declared_env_keys, ApiKeyProvider};
use helmor::paths::Platform;

#[test]
fn active_provider_reads_azure_env_key() {
    let provider = active_api_key_provider(
        r#"
model = "gpt-5.5"
model_provider = "azure"

[model_providers.azure]
name = "Azure"
base_url = "https://example.openai.azure.com/openai/v1"
env_key = "AZURE_OPENAI_API_KEY"
wire_api = "responses"
"#,
    );

    assert_eq!(
        provider,
        Some(ApiKeyProvider {
            name: "azure".to_string(),
            env_key: "AZURE_OPENAI_API_KEY".to_string(),
        })
    );
}

#[test]
fn active_provider_returns_none_when_section_missing() {
    let provider = active_api_key_provider(
        r#"
model_provider = "azure"

[model_providers.openai]
env_key = "OPENAI_API_KEY"
"#,
    );

    assert_eq!(provider, None);
}

#[test]
fn active_provider_returns_none_without_env_key() {
    let provider = active_api_key_provider(
        r#"
model_provider = "azure"

[model_providers.azure]
base_url = "https://example.openai.azure.com/openai/v1"
"#,
    );

    assert_eq!(provider, None);
}

#[test]
fn declared_env_keys_collects_every_provider() {
    let keys = declared_env_keys(
        r#"
model_provider = "azure"

[model_providers.azure]
env_key = "AZURE_OPENAI_API_KEY"

[model_providers.openai]
env_key = "OPENAI_API_KEY"

[model_providers.no_key]
base_url = "https://example.com"
"#,
    );

    assert_eq!(keys, vec!["AZURE_OPENAI_API_KEY", "OPENAI_API_KEY"]);
}

#[test]
fn declared_env_keys_deduplicates() {
    let keys = declared_env_keys(
        r#"
[model_providers.a]
env_key = "SHARED_KEY"

[model_providers.b]
env_key = "SHARED_KEY"
"#,
    );

    assert_eq!(keys, vec!["SHARED_KEY"]);
}

#[test]
fn declared_env_keys_handles_empty_config() {
    assert!(declared_env_keys("").is_empty());
    assert!(declared_env_keys("not valid toml = [").is_empty());
    assert!(declared_env_keys("[other]\nfoo = 1").is_empty());
}

#[test]
fn active_provider_trims_names_and_keys() {
    let provider = active_api_key_provider(
        "model_provider = \"  azure \"\n[model_providers.azure]\nenv_key = \" AZ_KEY \"\n",
    );
    assert_eq!(
        provider,
        Some(ApiKeyProvider { name: "azure".to_string(), env_key: "AZ_KEY".to_string() })
    );
}

#[test]
fn active_provider_rejects_blank_values_and_bad_toml() {
    assert_eq!(active_api_key_provider("model_provider = \"   \"\n"), None);
    assert_eq!(
        active_api_key_provider("model_provider = \"a\"\n[model_providers.a]\nenv_key = \"  \"\n"),
        None
    );
    assert_eq!(active_api_key_provider("model_provider = 3\n"), None);
    assert_eq!(active_api_key_provider("model_provider = [\n"), None);
    assert_eq!(active_api_key_provider(""), None);
}

#[test]
fn declared_env_keys_skips_non_string_and_blank_keys() {
    let keys = declared_env_keys(
        "[model_providers.a]\nenv_key = 5\n[model_providers.b]\nenv_key = \" \"\n[model_providers.c]\nenv_key = \" C_KEY \"\n",
    );
    assert_eq!(keys, vec!["C_KEY"]);
    assert!(declared_env_keys("model_providers = 3\n").is_empty());
}

#[test]
fn config_path_prefers_codex_home() {
    assert_eq!(config_path(Some("/opt/codex"), Some("/home/u"), Platform::Unix), "/opt/codex/config.toml");
    assert_eq!(config_path(None, Some("/home/u"), Platform::Unix), "/home/u/.codex/config.toml");
    assert_eq!(config_path(None, Some("/home/u/"), Platform::Unix), "/home/u/.codex/config.toml");
    assert_eq!(config_path(None, None, Platform::Unix), "/.codex/config.toml");
    assert_eq!(config_path(Some(""), None, Platform::Unix), "config.toml");
    assert_eq!(
        config_path(None, Some("C:\\Users\\u"), Platform::Windows),
        "C:\\Users\\u\\.codex\\config.toml"
    );
}

#[test]
fn active_key_is_among_declared_keys() {
    let config = "model_provider = \"b\"\n[model_providers.a]\nenv_key = \"A\"\n[model_providers.b]\nenv_key = \"B\"\n";
    let active = active_api_key_provider(config).unwrap();
    assert_eq!(active.env_key, "B");
    assert!(declared_env_keys(config).contains(&active.env_key));
}

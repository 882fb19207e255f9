use agents_rs::settings::SettingsRepository;

#[test]
fn test_get_set_delete() {
    let mut repo = SettingsRepository::new();
    assert!(repo.get("test_key").is_none());
    repo.set("test_key", "test_value");
    assert_eq!(repo.get("test_key"), Some("test_value".to_string()));
    repo.set("test_key", "new_value");
    assert_eq!(repo.get("test_key"), Some("new_value".to_string()));
    repo.delete("test_key");
    assert!(repo.get("test_key").is_none());
}

#[test]
fn test_current_model() {
    let mut repo = SettingsRepository::new();
    assert!(repo.get_current_model().is_none());
    repo.set_current_model("Qwen3-1.7B-IQ4_XS.gguf");
    assert_eq!(repo.get_current_model(), Some("Qwen3-1.7B-IQ4_XS.gguf".to_string()));
}

#[test]
fn test_list_all() {
    let mut repo = SettingsRepository::new();
    repo.set("key1", "value1");
    repo.set("key2", "value2");
    let all = repo.list_all();
    assert_eq!(all.len(), 2);
}

#[test]
fn settings_are_listed_in_key_order() {
    let mut repo = SettingsRepository::new();
    repo.set("top_k", "40");
    repo.set("current_model", "a.gguf");
    repo.set("temperature", "0.7");
    repo.set("last_session_id", "s1");
    repo.set("top_k", "50");
    repo.delete("missing");
    let keys: Vec<String> = repo.list_all().into_iter().map(|(k, _)| k).collect();
    assert_eq!(keys, vec!["current_model", "last_session_id", "temperature", "top_k"]);
    assert_eq!(repo.get("top_k"), Some("50".to_string()));
    assert_eq!(repo.get_last_session_id(), Some("s1".to_string()));
    repo.set_last_session_id("s2");
    assert_eq!(repo.get_last_session_id(), Some("s2".to_string()));
    repo.delete("temperature");
    assert_eq!(repo.list_all().len(), 3);
    assert!(repo.get("temperature").is_none());
}

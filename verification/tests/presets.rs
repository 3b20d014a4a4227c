use mcp_config::config::{
    add_mcp_server_preset, enable_mcp_server_preset, list_mcp_server_presets,
    remove_mcp_server_preset, ConfigToml,
};
use mcp_config::McpServerPreset;

fn preset(label: &str, url: &str, is_enabled: bool) -> McpServerPreset {
    McpServerPreset { label: label.to_string(), url: url.to_string(), is_enabled }
}

fn config_with(presets: Vec<McpServerPreset>) -> ConfigToml {
    ConfigToml { mcp_server_presets: Some(presets) }
}

#[test]
fn test_add_new_mcp_server_preset() {
    let mut config = ConfigToml::default();

    let label = "test_label".to_string();
    let url = "http://test.url".to_string();
    add_mcp_server_preset(&mut config, label.clone(), url.clone());

    let presets = list_mcp_server_presets(config);
    assert_eq!(presets.len(), 1);
    assert_eq!(presets[0].label, label);
    assert_eq!(presets[0].url, url);
    assert!(presets[0].is_enabled);
}

#[test]
fn test_add_existing_mcp_server_preset_updates_it() {
    let mut config = config_with(vec![preset("test_label", "http://old.url", false)]);

    let label = "test_label".to_string();
    let new_url = "http://new.url".to_string();
    add_mcp_server_preset(&mut config, label.clone(), new_url.clone());

    let presets = list_mcp_server_presets(config);
    assert_eq!(presets.len(), 1);
    assert_eq!(presets[0].label, label);
    assert_eq!(presets[0].url, new_url);
    assert!(presets[0].is_enabled); // Should be re-enabled
}

#[test]
fn test_remove_mcp_server_preset() {
    let mut config = config_with(vec![
        preset("label1", "url1", true),
        preset("label2", "url2", true),
    ]);

    remove_mcp_server_preset(&mut config, "label1".to_string()).expect("Failed to remove preset");

    let presets = list_mcp_server_presets(config);
    assert_eq!(presets.len(), 1);
    assert_eq!(presets[0].label, "label2");
}

#[test]
fn test_remove_non_existent_mcp_server_preset() {
    let mut config = config_with(vec![preset("label1", "url1", true)]);

    let result = remove_mcp_server_preset(&mut config, "non_existent_label".to_string());
    assert!(result.is_err());
    assert_eq!(result.unwrap_err(), "Preset with label 'non_existent_label' not found.");
}

#[test]
fn test_enable_disable_mcp_server_preset() {
    let mut config = config_with(vec![preset("test_label", "http://test.url", true)]);

    // Disable
    enable_mcp_server_preset(&mut config, "test_label".to_string(), false)
        .expect("Failed to disable preset");
    let presets_disabled = config.mcp_server_presets.clone().unwrap_or_default();
    assert_eq!(presets_disabled.len(), 1);
    assert!(!presets_disabled[0].is_enabled);

    // Enable
    enable_mcp_server_preset(&mut config, "test_label".to_string(), true)
        .expect("Failed to enable preset");
    let presets_enabled = list_mcp_server_presets(config);
    assert_eq!(presets_enabled.len(), 1);
    assert!(presets_enabled[0].is_enabled);
}

#[test]
fn test_enable_non_existent_mcp_server_preset() {
    let mut config = ConfigToml::default();

    let result = enable_mcp_server_preset(&mut config, "non_existent_label".to_string(), true);
    assert!(result.is_err());
    assert_eq!(result.unwrap_err(), "Preset with label 'non_existent_label' not found.");
}

#[test]
fn test_list_mcp_server_presets_empty() {
    let config = ConfigToml::default();

    let presets = list_mcp_server_presets(config);
    assert!(presets.is_empty());
}

#[test]
fn test_list_mcp_server_presets_multiple() {
    let config = config_with(vec![
        preset("label1", "url1", true),
        preset("label2", "url2", false),
    ]);

    let presets = list_mcp_server_presets(config);
    assert_eq!(presets.len(), 2);
    assert_eq!(presets[0].label, "label1");
    assert!(presets[0].is_enabled);
    assert_eq!(presets[1].label, "label2");
    assert!(!presets[1].is_enabled);
}

#[test]
fn add_two_new_presets_keeps_them_in_order() {
    let mut config = ConfigToml::default();
    add_mcp_server_preset(&mut config, "label1".to_string(), "url1".to_string());
    add_mcp_server_preset(&mut config, "label2".to_string(), "url2".to_string());
    let presets = list_mcp_server_presets(config);
    assert_eq!(
        presets,
        vec![preset("label1", "url1", true), preset("label2", "url2", true)]
    );
}

#[test]
fn add_updates_only_the_first_of_two_equal_labels() {
    let mut config = config_with(vec![
        preset("a", "u1", false),
        preset("b", "u2", true),
        preset("a", "u3", false),
    ]);
    add_mcp_server_preset(&mut config, "a".to_string(), "new".to_string());
    assert_eq!(
        list_mcp_server_presets(config),
        vec![preset("a", "new", true), preset("b", "u2", true), preset("a", "u3", false)]
    );
}

#[test]
fn remove_takes_every_preset_with_the_label() {
    let mut config = config_with(vec![
        preset("a", "u1", true),
        preset("b", "u2", false),
        preset("a", "u3", true),
        preset("c", "u4", true),
    ]);
    assert_eq!(remove_mcp_server_preset(&mut config, "a".to_string()), Ok(()));
    assert_eq!(
        list_mcp_server_presets(config),
        vec![preset("b", "u2", false), preset("c", "u4", true)]
    );
}

#[test]
fn remove_the_last_preset_leaves_an_empty_list() {
    let mut config = config_with(vec![preset("only", "u", true)]);
    assert_eq!(remove_mcp_server_preset(&mut config, "only".to_string()), Ok(()));
    assert_eq!(config.mcp_server_presets, Some(vec![]));
}

#[test]
fn failed_remove_leaves_the_configuration_alone() {
    let mut config = ConfigToml::default();
    let result = remove_mcp_server_preset(&mut config, "x".to_string());
    assert_eq!(result, Err("Preset with label 'x' not found.".to_string()));
    assert_eq!(config.mcp_server_presets, None);
}

#[test]
fn failed_enable_leaves_the_configuration_alone() {
    let mut config = config_with(vec![preset("a", "u", false)]);
    let result = enable_mcp_server_preset(&mut config, "b".to_string(), true);
    assert_eq!(result, Err("Preset with label 'b' not found.".to_string()));
    assert_eq!(config.mcp_server_presets, Some(vec![preset("a", "u", false)]));
}

#[test]
fn enable_changes_only_the_first_preset_with_the_label() {
    let mut config = config_with(vec![
        preset("x", "u1", true),
        preset("a", "u2", false),
        preset("a", "u3", false),
    ]);
    assert_eq!(enable_mcp_server_preset(&mut config, "a".to_string(), true), Ok(()));
    assert_eq!(
        list_mcp_server_presets(config),
        vec![preset("x", "u1", true), preset("a", "u2", true), preset("a", "u3", false)]
    );
}

#[test]
fn add_to_a_missing_key_creates_it() {
    let mut config = ConfigToml::default();
    add_mcp_server_preset(&mut config, "l".to_string(), "u".to_string());
    assert_eq!(config.mcp_server_presets, Some(vec![preset("l", "u", true)]));
}

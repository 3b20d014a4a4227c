use mcp_config::config::{
    add_mcp_server_preset, enable_mcp_server_preset, list_mcp_server_presets,
    remove_mcp_server_preset, ConfigToml,
};
use mcp_config::McpServerPreset;

fn preset(label: &str, url: &str, is_enabled: bool) -> McpServerPreset {
    McpServerPreset { label: label.to_string(), url: url.to_string(), is_enabled }
}

fn sample() -> Vec<McpServerPreset> {
    vec![preset("one", "u1", true), preset("two", "u2", false)]
}

#[test]
fn adding_a_new_label_then_removing_it_restores_the_presets() {
    let mut config = ConfigToml { mcp_server_presets: Some(sample()) };
    add_mcp_server_preset(&mut config, "three".to_string(), "u3".to_string());
    assert_eq!(remove_mcp_server_preset(&mut config, "three".to_string()), Ok(()));
    assert_eq!(list_mcp_server_presets(config), sample());
}

#[test]
fn after_add_the_label_carries_the_new_url_and_is_enabled() {
    let mut config = ConfigToml { mcp_server_presets: Some(sample()) };
    add_mcp_server_preset(&mut config, "two".to_string(), "new".to_string());
    let presets = list_mcp_server_presets(config);
    assert_eq!(presets.len(), 2);
    assert_eq!(presets[1], preset("two", "new", true));
    assert_eq!(presets[0], preset("one", "u1", true));
}

#[test]
fn adding_twice_keeps_one_preset_per_label() {
    let mut config = ConfigToml::default();
    add_mcp_server_preset(&mut config, "a".to_string(), "u1".to_string());
    add_mcp_server_preset(&mut config, "a".to_string(), "u2".to_string());
    assert_eq!(list_mcp_server_presets(config), vec![preset("a", "u2", true)]);
}

#[test]
fn after_remove_no_preset_carries_the_label() {
    let mut config = ConfigToml {
        mcp_server_presets: Some(vec![preset("a", "u1", true), preset("a", "u2", true)]),
    };
    assert_eq!(remove_mcp_server_preset(&mut config, "a".to_string()), Ok(()));
    let presets = list_mcp_server_presets(config);
    assert!(presets.iter().all(|p| p.label != "a"));
}

#[test]
fn removing_twice_fails_the_second_time() {
    let mut config = ConfigToml { mcp_server_presets: Some(sample()) };
    assert_eq!(remove_mcp_server_preset(&mut config, "one".to_string()), Ok(()));
    assert_eq!(
        remove_mcp_server_preset(&mut config, "one".to_string()),
        Err("Preset with label 'one' not found.".to_string())
    );
}

#[test]
fn disabling_then_enabling_restores_the_presets() {
    let mut config = ConfigToml { mcp_server_presets: Some(sample()) };
    assert_eq!(enable_mcp_server_preset(&mut config, "one".to_string(), false), Ok(()));
    assert_eq!(enable_mcp_server_preset(&mut config, "one".to_string(), true), Ok(()));
    assert_eq!(list_mcp_server_presets(config), sample());
}

#[test]
fn of_two_status_settings_the_second_decides() {
    let mut config = ConfigToml { mcp_server_presets: Some(sample()) };
    assert_eq!(enable_mcp_server_preset(&mut config, "two".to_string(), true), Ok(()));
    assert_eq!(enable_mcp_server_preset(&mut config, "two".to_string(), false), Ok(()));
    assert_eq!(list_mcp_server_presets(config), sample());
}

#[test]
fn setting_the_current_status_changes_nothing() {
    let mut config = ConfigToml { mcp_server_presets: Some(sample()) };
    assert_eq!(enable_mcp_server_preset(&mut config, "one".to_string(), true), Ok(()));
    assert_eq!(list_mcp_server_presets(config), sample());
}

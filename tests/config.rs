use gpui_ui::config::{default_component_path, ColorConfig, Config, StyleConfig};

#[test]
fn new_manifest_has_defaults() {
    let config = Config::new();
    assert_eq!(config.component_path, "src/components/ui");
    assert_eq!(config.utils_path, "src/lib");
    assert_eq!(config.gpui_version, "0.2.1");
    assert_eq!(config.style.radius, "px(4.0)");
    assert_eq!(config.style.colors.primary, "rgb(0x3b82f6)");
    assert_eq!(config.style.colors.secondary, "rgb(0x64748b)");
    assert_eq!(config.style.colors.destructive, "rgb(0xef4444)");
    assert_eq!(config.style.colors.muted, "rgb(0xf1f5f9)");
    assert_eq!(config.style.colors.accent, "rgb(0xf0f9ff)");
    assert!(config.components.is_empty());
    assert_eq!(default_component_path(), "src/components/ui");
    assert_eq!(StyleConfig::default().colors.accent, ColorConfig::default().accent);
}

#[test]
fn records_are_appended_without_deduplication() {
    let mut config = Config::new();
    config.record_install("button".to_string(), "0.1.0".to_string(), "a".to_string());
    config.record_install("button".to_string(), "0.2.0".to_string(), "b".to_string());
    assert_eq!(config.components.len(), 2);
    assert!(config.is_installed("button"));
    assert!(!config.is_installed("card"));
    assert_eq!(config.installed("button").unwrap().version, "0.1.0");
}

#[test]
fn add_component_stamps_the_time() {
    let mut config = Config::new();
    config.add_component("card".to_string(), "0.1.0".to_string());
    assert_eq!(config.components[0].name, "card");
    assert_eq!(config.components[0].version, "0.1.0");
    assert!(config.components[0].installed_at.len() >= 20);
}

use gpui_ui::config::Config;
use gpui_ui::registry::{ComponentInfo, Registry};
use gpui_ui::update::{check_updates, UpdateStatus};

fn button(version: &str) -> ComponentInfo {
    ComponentInfo {
        name: "button".to_string(),
        description: "Button".to_string(),
        version: version.to_string(),
        files: vec!["button.rs".to_string()],
        dependencies: Vec::new(),
    }
}

#[test]
fn differing_version_offers_an_update() {
    let registry = Registry::from_components(vec![button("0.2.0")]).unwrap();
    let mut config = Config::new();
    config.record_install("button".to_string(), "0.1.0".to_string(), "t".to_string());
    let checks = check_updates(&registry, &config, &vec!["button".to_string()]);
    assert_eq!(checks.len(), 1);
    assert_eq!(checks[0].status, UpdateStatus::UpdateAvailable);
    assert_eq!(checks[0].installed_version.as_deref(), Some("0.1.0"));
    assert_eq!(checks[0].registry_version.as_deref(), Some("0.2.0"));
}

#[test]
fn every_status_when_checking_all() {
    let registry = Registry::new();
    let mut config = Config::new();
    config.record_install("button".to_string(), "0.1.0".to_string(), "t".to_string());
    config.record_install("slider".to_string(), "0.3.0".to_string(), "t".to_string());
    config.record_install("card".to_string(), "0.0.9".to_string(), "t".to_string());
    let checks = check_updates(&registry, &config, &Vec::new());
    let statuses: Vec<UpdateStatus> = checks.iter().map(|c| c.status).collect();
    assert_eq!(
        statuses,
        vec![UpdateStatus::UpToDate, UpdateStatus::NotInRegistry, UpdateStatus::UpdateAvailable]
    );
    assert_eq!(checks[1].registry_version, None);
}

#[test]
fn named_but_not_installed() {
    let registry = Registry::new();
    let config = Config::new();
    let checks = check_updates(&registry, &config, &vec!["dialog".to_string()]);
    assert_eq!(checks[0].status, UpdateStatus::NotInstalled);
    assert_eq!(checks[0].installed_version, None);
    assert_eq!(checks[0].registry_version.as_deref(), Some("0.1.0"));
    assert!(check_updates(&registry, &config, &Vec::new()).is_empty());
}

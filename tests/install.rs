use gpui_ui::config::Config;
use gpui_ui::install::{install, install_at, FileAction, FileStep};
use gpui_ui::registry::{ComponentInfo, Registry};

fn strings(v: &[&str]) -> Vec<String> {
    v.iter().map(|s| s.to_string()).collect()
}

fn all_sources() -> Vec<String> {
    strings(&[
        "traits.rs", "prelude.rs", "button.rs", "input.rs", "checkbox.rs", "card.rs", "dialog.rs",
        "badge.rs",
    ])
}

fn copies(steps: &[FileStep]) -> usize {
    steps.iter().filter(|s| s.action == FileAction::CopyFile).count()
}

fn file_of(registry: &Registry, step: &FileStep) -> String {
    registry.component_at(step.component).files[step.file].clone()
}

#[test]
fn install_copies_closure_and_records_the_component() {
    let registry = Registry::new();
    let mut config = Config::new();
    let at = "2024-01-01T00:00:00+00:00".to_string();
    let report = install_at(&registry, &mut config, &strings(&["button"]), &all_sources(), &Vec::new(), false, &at);
    let files: Vec<String> = report.steps.iter().map(|s| file_of(&registry, s)).collect();
    assert_eq!(files, strings(&["traits.rs", "button.rs"]));
    assert_eq!(copies(&report.steps), 2);
    assert!(report.not_found.is_empty());
    assert_eq!(report.recorded.len(), 1);
    let added: Vec<String> =
        report.added.iter().map(|i| registry.component_at(*i).name.clone()).collect();
    assert_eq!(added, strings(&["traits", "button"]));
    assert_eq!(config.components.len(), 1);
    assert_eq!(config.components[0].name, "button");
    assert_eq!(config.components[0].version, "0.1.0");
    assert_eq!(config.components[0].installed_at, at);
}

#[test]
fn second_install_without_force_is_idempotent() {
    let registry = Registry::new();
    let mut config = Config::new();
    let at = "t".to_string();
    let first = install_at(&registry, &mut config, &strings(&["button"]), &all_sources(), &Vec::new(), false, &at);
    let existing: Vec<String> = first
        .steps
        .iter()
        .filter(|s| s.action == FileAction::CopyFile)
        .map(|s| file_of(&registry, s))
        .collect();
    let second = install_at(&registry, &mut config, &strings(&["button"]), &all_sources(), &existing, false, &at);
    assert_eq!(copies(&second.steps), 0);
    assert!(second.recorded.is_empty());
    assert_eq!(config.components.iter().filter(|c| c.name == "button").count(), 1);
    // only the requested component's own file is reported as kept
    let warned: Vec<String> = second
        .steps
        .iter()
        .filter(|s| s.action == FileAction::KeepExisting { warn: true })
        .map(|s| file_of(&registry, s))
        .collect();
    assert_eq!(warned, strings(&["button.rs"]));
}

#[test]
fn forced_install_copies_every_source_file() {
    let registry = Registry::new();
    let mut config = Config::new();
    let at = "t".to_string();
    install_at(&registry, &mut config, &strings(&["input"]), &all_sources(), &Vec::new(), false, &at);
    let existing = strings(&["traits.rs", "input.rs"]);
    let report = install_at(&registry, &mut config, &strings(&["input"]), &all_sources(), &existing, true, &at);
    assert_eq!(copies(&report.steps), 2);
    assert!(report.steps.iter().all(|s| s.action == FileAction::CopyFile));
    assert_eq!(config.components.len(), 1);
}

#[test]
fn missing_source_file_warns_and_still_records() {
    let table = vec![ComponentInfo {
        name: "panel".to_string(),
        description: "Panel".to_string(),
        version: "1.0.0".to_string(),
        files: strings(&["panel.rs", "panel_style.rs", "panel_theme.rs"]),
        dependencies: Vec::new(),
    }];
    let registry = Registry::from_components(table).unwrap();
    let mut config = Config::new();
    let sources = strings(&["panel.rs", "panel_theme.rs"]);
    let report = install_at(&registry, &mut config, &strings(&["panel"]), &sources, &Vec::new(), false, &"t".to_string());
    let actions: Vec<FileAction> = report.steps.iter().map(|s| s.action).collect();
    assert_eq!(
        actions,
        vec![FileAction::CopyFile, FileAction::MissingSource, FileAction::CopyFile]
    );
    assert_eq!(file_of(&registry, &report.steps[1]), "panel_style.rs");
    assert_eq!(config.components.len(), 1);
    assert_eq!(config.components[0].name, "panel");
    assert_eq!(config.components[0].version, "1.0.0");
}

#[test]
fn unknown_names_are_reported_and_the_batch_goes_on() {
    let registry = Registry::new();
    let mut config = Config::new();
    let report = install_at(
        &registry,
        &mut config,
        &strings(&["slider", "card"]),
        &all_sources(),
        &Vec::new(),
        false,
        &"t".to_string(),
    );
    assert_eq!(report.not_found, vec![0]);
    assert_eq!(report.steps.len(), 1);
    assert_eq!(report.steps[0].request, 1);
    assert_eq!(config.components.len(), 1);
    assert_eq!(config.components[0].name, "card");
}

#[test]
fn shared_dependency_is_copied_once_in_a_batch() {
    let registry = Registry::new();
    let mut config = Config::new();
    let report = install_at(
        &registry,
        &mut config,
        &strings(&["button", "checkbox", "button"]),
        &all_sources(),
        &Vec::new(),
        false,
        &"t".to_string(),
    );
    assert_eq!(copies(&report.steps), 3);
    let traits_steps: Vec<&FileStep> =
        report.steps.iter().filter(|s| file_of(&registry, s) == "traits.rs").collect();
    assert_eq!(traits_steps.len(), 3);
    assert_eq!(traits_steps[0].action, FileAction::CopyFile);
    assert_eq!(traits_steps[1].action, FileAction::KeepExisting { warn: false });
    let names: Vec<&str> = config.components.iter().map(|c| c.name.as_str()).collect();
    assert_eq!(names, vec!["button", "checkbox"]);
    assert_eq!(report.added.len(), 3);
}

#[test]
fn install_stamps_records_with_the_clock() {
    let registry = Registry::new();
    let mut config = Config::new();
    let report = install(&registry, &mut config, &strings(&["badge"]), &all_sources(), &Vec::new(), false);
    assert_eq!(copies(&report.steps), 1);
    assert_eq!(config.components.len(), 1);
    assert!(config.components[0].installed_at.ends_with("+00:00"));
}

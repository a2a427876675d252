use gpui_ui::registry::{ComponentInfo, Registry, RegistryError};

fn component(name: &str, version: &str, files: &[&str], deps: &[&str]) -> ComponentInfo {
    ComponentInfo {
        name: name.to_string(),
        description: format!("{} component", name),
        version: version.to_string(),
        files: files.iter().map(|f| f.to_string()).collect(),
        dependencies: deps.iter().map(|d| d.to_string()).collect(),
    }
}

fn position(names: &[String], name: &str) -> usize {
    names.iter().position(|n| n == name).unwrap()
}

#[test]
fn test_resolve_dependencies() {
    let registry = Registry::new();
    let deps = registry.resolve_dependencies("button").unwrap();
    assert!(deps.contains(&"traits".to_string()));
    assert!(deps.contains(&"button".to_string()));
    // traits should come before button
    let traits_idx = deps.iter().position(|d| d == "traits").unwrap();
    let button_idx = deps.iter().position(|d| d == "button").unwrap();
    assert!(traits_idx < button_idx);
}

#[test]
fn test_list_components() {
    let registry = Registry::new();
    let components = registry.list_components();
    // Should not include traits and prelude
    assert!(!components.iter().any(|c| c.name == "traits"));
    assert!(!components.iter().any(|c| c.name == "prelude"));
}

#[test]
fn list_is_sorted_by_name_and_complete() {
    let registry = Registry::new();
    let names: Vec<String> = registry.list_components().iter().map(|c| c.name.clone()).collect();
    assert_eq!(names, vec!["badge", "button", "card", "checkbox", "dialog", "input"]);
}

#[test]
fn reserved_entries_are_installable_as_dependencies() {
    let registry = Registry::new();
    assert_eq!(registry.get_component("traits").unwrap().files, vec!["traits.rs".to_string()]);
    assert_eq!(registry.resolve_dependencies("prelude").unwrap(), vec!["prelude".to_string()]);
}

#[test]
fn builtin_catalog_entries() {
    let registry = Registry::new();
    assert_eq!(registry.len(), 8);
    let card = registry.get_component("card").unwrap();
    assert_eq!(card.version, "0.1.0");
    assert_eq!(card.description, "Card container with header, content, and footer");
    assert_eq!(card.files, vec!["card.rs".to_string()]);
    assert!(card.dependencies.is_empty());
    let input = registry.get_component("input").unwrap();
    assert_eq!(input.dependencies, vec!["traits".to_string()]);
}

#[test]
fn unknown_name_is_not_found() {
    let registry = Registry::new();
    assert_eq!(
        registry.get_component("slider").unwrap_err(),
        RegistryError::NotFound("slider".to_string())
    );
    assert_eq!(
        registry.resolve_dependencies("slider").unwrap_err(),
        RegistryError::NotFound("slider".to_string())
    );
    assert_eq!(registry.position("slider"), None);
}

#[test]
fn diamond_dependency_resolves_once_and_first() {
    let table = vec![
        component("A", "1", &["a.rs"], &["B", "C"]),
        component("B", "1", &["b.rs"], &["D"]),
        component("C", "1", &["c.rs"], &["D"]),
        component("D", "1", &["d.rs"], &[]),
    ];
    let registry = Registry::from_components(table).unwrap();
    let order = registry.resolve_dependencies("A").unwrap();
    assert_eq!(order.len(), 4);
    assert_eq!(order.iter().filter(|n| *n == "D").count(), 1);
    let d = position(&order, "D");
    let b = position(&order, "B");
    let c = position(&order, "C");
    let a = position(&order, "A");
    assert!(d < b && d < c);
    assert!(b < a && c < a);
    assert_eq!(a, 3);
}

#[test]
fn resolution_is_deterministic() {
    let registry = Registry::new();
    for name in ["button", "input", "card", "checkbox", "traits"] {
        assert_eq!(
            registry.resolve_dependencies(name).unwrap(),
            registry.resolve_dependencies(name).unwrap()
        );
    }
}

#[test]
fn resolution_puts_dependencies_first_and_the_component_last() {
    let table = vec![
        component("app", "1", &["app.rs"], &["ui", "net"]),
        component("ui", "1", &["ui.rs"], &["core", "text"]),
        component("net", "1", &["net.rs"], &["core"]),
        component("text", "1", &["text.rs"], &["core"]),
        component("core", "1", &["core.rs"], &[]),
        component("unused", "1", &["unused.rs"], &["core"]),
    ];
    let registry = Registry::from_components(table).unwrap();
    let order = registry.resolve_dependencies("app").unwrap();
    assert_eq!(order.len(), 5);
    assert_eq!(order.last().unwrap(), "app");
    assert!(!order.contains(&"unused".to_string()));
    for (i, name) in order.iter().enumerate() {
        assert_eq!(order.iter().filter(|n| *n == name).count(), 1);
        for dep in &registry.get_component(name).unwrap().dependencies {
            assert!(position(&order, dep) < i);
        }
    }
}

#[test]
fn duplicate_names_are_rejected() {
    let table = vec![
        component("A", "1", &["a.rs"], &[]),
        component("A", "2", &["a2.rs"], &[]),
    ];
    assert_eq!(
        Registry::from_components(table).unwrap_err(),
        RegistryError::DuplicateComponent("A".to_string())
    );
}

#[test]
fn unknown_dependency_is_rejected() {
    let table = vec![component("A", "1", &["a.rs"], &["B"])];
    assert_eq!(
        Registry::from_components(table).unwrap_err(),
        RegistryError::UnknownDependency { component: "A".to_string(), dependency: "B".to_string() }
    );
}

#[test]
fn dependency_cycle_is_rejected() {
    let table = vec![
        component("A", "1", &["a.rs"], &["B"]),
        component("B", "1", &["b.rs"], &["A"]),
        component("C", "1", &["c.rs"], &[]),
    ];
    assert!(matches!(
        Registry::from_components(table),
        Err(RegistryError::CyclicDependency(_))
    ));
}

#[test]
fn table_order_does_not_matter() {
    let table = vec![
        component("top", "1", &["top.rs"], &["mid"]),
        component("mid", "1", &["mid.rs"], &["low"]),
        component("low", "1", &["low.rs"], &[]),
    ];
    let registry = Registry::from_components(table).unwrap();
    assert_eq!(registry.len(), 3);
    assert_eq!(
        registry.resolve_dependencies("top").unwrap(),
        vec!["low".to_string(), "mid".to_string(), "top".to_string()]
    );
    assert_eq!(registry.component_at(0).name, "low");
}

#[test]
fn empty_table_is_a_valid_catalog() {
    let registry = Registry::from_components(Vec::new()).unwrap();
    assert_eq!(registry.len(), 0);
    assert!(registry.list_components().is_empty());
}

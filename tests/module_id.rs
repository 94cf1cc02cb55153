use farm_core::module::{Mode, Module, ModuleId, ModuleMetaData, ModuleType, ModuleSystem};

fn no_query() -> Vec<(String, String)> {
    Vec::new()
}

#[test]
fn module_id() {
    let resolved_path = "/root/module.html";
    let module_id = ModuleId::new(resolved_path, &no_query(), "/root");
    let root = "/root";

    assert_eq!(module_id.id(Mode::Development), "module.html");
    assert_eq!(module_id.id(Mode::Production), "5de94ab0");
    assert_eq!(module_id.relative_path(), "module.html");
    assert_eq!(module_id.resolved_path(root), resolved_path);
    assert_eq!(module_id.hash(), "5de94ab0");

    let resolved_path = "/root/packages/test/module.html";
    let module_id = ModuleId::new(resolved_path, &no_query(), "/root/packages/app");

    assert_eq!(module_id.id(Mode::Development), "../test/module.html");
}

#[test]
fn parent_traversal_resolves_back() {
    let resolved_path = "/root/packages/test/module.html";
    let module_id = ModuleId::new(resolved_path, &no_query(), "/root/packages/app");
    assert_eq!(module_id.resolved_path("/root/packages/app"), resolved_path);
}

#[test]
fn relative_input_is_kept() {
    let module_id = ModuleId::new("src/a.ts", &no_query(), "/root");
    assert_eq!(module_id.relative_path(), "src/a.ts");
}

#[test]
fn same_path_as_root_is_empty() {
    let module_id = ModuleId::new("/root", &no_query(), "/root");
    assert_eq!(module_id.relative_path(), "");
    assert_eq!(module_id.resolved_path("/root"), "/root");
}

#[test]
fn query_is_written_after_path() {
    let q = vec![("a".to_string(), "1".to_string()), ("b".to_string(), "2".to_string())];
    let module_id = ModuleId::new("/root/a.css", &q, "/root");
    assert_eq!(module_id.query_string(), "?a=1&b=2");
    assert_eq!(module_id.id(Mode::Development), "a.css?a=1&b=2");
}

#[test]
fn query_changes_production_id() {
    let plain = ModuleId::new("/root/module.html", &no_query(), "/root");
    let q = vec![("inline".to_string(), "true".to_string())];
    let queried = ModuleId::new("/root/module.html", &q, "/root");
    assert_ne!(plain.id(Mode::Development), queried.id(Mode::Development));
    assert_ne!(plain.id(Mode::Production), queried.id(Mode::Production));
    assert_eq!(queried.id(Mode::Production).len(), 8);
}

#[test]
fn production_id_is_deterministic() {
    let a = ModuleId::new("/root/module.html", &no_query(), "/root");
    let b = ModuleId::from_str("module.html");
    assert_eq!(a, b);
    assert_eq!(a.id(Mode::Production), b.id(Mode::Production));
}

#[test]
fn from_str_splits_at_first_question_mark() {
    let id = ModuleId::from_str("a.js?x=1?y=2");
    assert_eq!(id.relative_path(), "a.js");
    assert_eq!(id.query_string(), "x=1?y=2");
    let id = ModuleId::from_str("b.js");
    assert_eq!(id.relative_path(), "b.js");
    assert_eq!(id.query_string(), "");
    assert_eq!(id.to_string(), "b.js");
}

#[test]
fn module_type_from_ext() {
    assert_eq!(ModuleType::from_ext("js"), ModuleType::Js);
    assert_eq!(ModuleType::from_ext("jsx"), ModuleType::Jsx);
    assert_eq!(ModuleType::from_ext("ts"), ModuleType::Ts);
    assert_eq!(ModuleType::from_ext("tsx"), ModuleType::Tsx);
    assert_eq!(ModuleType::from_ext("css"), ModuleType::Css);
    assert_eq!(ModuleType::from_ext("html"), ModuleType::Html);
    assert_eq!(ModuleType::from_ext("png"), ModuleType::Custom("png".to_string()));
    assert!(ModuleType::Ts.is_typescript());
    assert!(ModuleType::Tsx.is_script());
    assert!(!ModuleType::Jsx.is_typescript());
    assert!(!ModuleType::Css.is_script());
}

#[test]
fn new_module_is_unknown_and_empty() {
    let module = Module::new(ModuleId::new("/root/index.ts", &no_query(), "/root"));
    assert_eq!(module.module_type, ModuleType::Custom("unknown".to_string()));
    assert!(module.meta.is_custom_of("EmptyModuleMetaData"));
    assert!(module.meta.as_custom("EmptyModuleMetaData").is_empty());
    assert_eq!(module.module_group_count(), 0);
    assert!(module.resource_pot.is_none());
    assert!(!module.side_effects && !module.external);
}

#[test]
fn module_groups_are_kept_once() {
    let mut module = Module::new(ModuleId::new("/root/index.ts", &no_query(), "/root"));
    module.add_module_group(ModuleId::new("1", &no_query(), ""));
    module.add_module_group(ModuleId::new("2", &no_query(), ""));
    module.add_module_group(ModuleId::new("1", &no_query(), ""));
    assert_eq!(module.module_group_count(), 2);
    assert!(module.in_module_group(&ModuleId::new("1", &no_query(), "")));
    assert!(module.in_module_group(&ModuleId::new("2", &no_query(), "")));
    assert!(!module.in_module_group(&ModuleId::new("3", &no_query(), "")));
}

#[test]
fn custom_meta_is_read_by_name() {
    let mut meta = ModuleMetaData::Custom(farm_core::module::CustomMetaValue {
        archive_name: "StructModuleData".to_string(),
        bytes: vec![1, 2, 3],
    });
    assert!(meta.is_custom_of("StructModuleData"));
    assert!(!meta.is_custom_of("Other"));
    meta.as_custom_mut("StructModuleData").push(4);
    assert_eq!(meta.as_custom("StructModuleData"), &vec![1, 2, 3, 4]);
}

#[test]
fn module_system_equality() {
    assert_eq!(ModuleSystem::Custom("amd".to_string()), ModuleSystem::Custom("amd".to_string()));
    assert_ne!(ModuleSystem::EsModule, ModuleSystem::CommonJs);
}

#[test]
fn query_order_does_not_matter() {
    let q1 = vec![("b".to_string(), "2".to_string()), ("a".to_string(), "1".to_string())];
    let q2 = vec![("a".to_string(), "1".to_string()), ("b".to_string(), "2".to_string())];
    let a = ModuleId::new("/root/a.css", &q1, "/root");
    let b = ModuleId::new("/root/a.css", &q2, "/root");
    assert_eq!(a.query_string(), "?a=1&b=2");
    assert_eq!(a, b);
    assert_eq!(a.id(Mode::Production), b.id(Mode::Production));
}

#[test]
fn query_sorts_by_key_then_value() {
    let q = vec![
        ("k".to_string(), "z".to_string()),
        ("ab".to_string(), "1".to_string()),
        ("k".to_string(), "a".to_string()),
        ("a".to_string(), "9".to_string()),
    ];
    let id = ModuleId::new("x.js", &q, "/root");
    assert_eq!(id.query_string(), "?a=9&ab=1&k=a&k=z");
}

#[test]
fn ids_order_by_path_then_query() {
    let a = ModuleId::from_str("a.js?z");
    let b = ModuleId::from_str("b.js?a");
    let a2 = ModuleId::from_str("a.js?b");
    assert!(a < b);
    assert!(a2 < a);
    assert_eq!(a.partial_cmp(&a.clone()), Some(std::cmp::Ordering::Equal));
    let mut ids = vec![b.clone(), a.clone(), a2.clone()];
    ids.sort();
    assert_eq!(ids, vec![a2, a, b]);
}

use farm_core::module::{ModuleSystem, ModuleType};
use farm_core::script::{extension, module_system_of, module_type_from_id, FarmPluginScript, ResourcePotType, ScriptTransform};

#[test]
fn extensions_of_paths() {
    assert_eq!(extension("/root/a.ts"), "ts");
    assert_eq!(extension("/root/a.b/c"), "");
    assert_eq!(extension("/root/.bashrc"), "");
    assert_eq!(extension("a.tar.gz"), "gz");
    assert_eq!(module_type_from_id("/root/index.tsx"), ModuleType::Tsx);
}

#[test]
fn script_plugin_loads_scripts_only() {
    let plugin = FarmPluginScript::new();
    assert_eq!(plugin.name(), "FarmPluginScript");
    assert_eq!(plugin.load_module_type("/root/index.ts"), Some(ModuleType::Ts));
    assert_eq!(plugin.load_module_type("/root/index.jsx"), Some(ModuleType::Jsx));
    assert_eq!(plugin.load_module_type("/root/index.css"), None);
    assert_eq!(plugin.load_module_type("/root/index"), None);
    assert!(plugin.handles(&ModuleType::Js));
    assert!(!plugin.handles(&ModuleType::Html));
}

#[test]
fn module_system_classification() {
    assert_eq!(module_system_of(&vec![false, true, false]), ModuleSystem::EsModule);
    assert_eq!(module_system_of(&vec![false, false]), ModuleSystem::CommonJs);
    assert_eq!(module_system_of(&vec![]), ModuleSystem::CommonJs);
}

#[test]
fn transforms_by_type() {
    let plugin = FarmPluginScript::new();
    assert_eq!(plugin.transforms(&ModuleType::Ts), vec![ScriptTransform::StripTypes]);
    assert_eq!(
        plugin.transforms(&ModuleType::Tsx),
        vec![ScriptTransform::StripTypesWithJsx, ScriptTransform::React]
    );
    assert!(plugin.transforms(&ModuleType::Js).is_empty());
    assert_eq!(plugin.transforms(&ModuleType::Jsx), vec![ScriptTransform::React]);
    assert!(plugin.transforms(&ModuleType::Css).is_empty());
}

#[test]
fn resource_names() {
    let plugin = FarmPluginScript::new();
    assert_eq!(plugin.resource_name("../test/index"), "test/index.js");
    assert_eq!(plugin.resource_name("a/../../b"), "a/b.js");
    assert_eq!(plugin.resource_name("main"), "main.js");
}

#[test]
fn only_script_units_are_emitted() {
    let plugin = FarmPluginScript::new();
    assert!(plugin.emits(ResourcePotType::Js));
    assert!(!plugin.emits(ResourcePotType::Css));
    assert!(!plugin.emits(ResourcePotType::Html));
    assert!(!plugin.emits(ResourcePotType::Asset));
}

#[test]
fn resolved_path_ignores_query() {
    let q = vec![("inline".to_string(), "1".to_string())];
    let a = farm_core::module::ModuleId::new("/root/a/b.css", &Vec::new(), "/root/c");
    let b = farm_core::module::ModuleId::new("/root/a/b.css", &q, "/root/c");
    assert_eq!(a.resolved_path("/root/c"), b.resolved_path("/root/c"));
    assert_eq!(a.resolved_path("/root/c"), "/root/a/b.css");
}

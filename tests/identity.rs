use farm_core::identity::IdentityRegistry;
use farm_core::module::ModuleId;
use farm_core::plugin::CompilationError;

#[test]
fn conflicting_paths_are_reported() {
    let mut registry = IdentityRegistry::new();
    let id = ModuleId::from_str("index.ts");
    assert!(registry.register(id.clone(), "/a/index.ts").is_ok());
    assert!(registry.register(id.clone(), "/a/index.ts").is_ok());
    match registry.register(id, "/b/index.ts") {
        Err(CompilationError::IdentityConflictError { module_id, first_path, second_path }) => {
            assert_eq!(module_id, "index.ts");
            assert_eq!(first_path, "/a/index.ts");
            assert_eq!(second_path, "/b/index.ts");
        }
        _ => panic!("expected a conflict"),
    }
    assert!(registry.register(ModuleId::from_str("other.ts"), "/b/index.ts").is_ok());
}

use farm_core::cache::{module_cache_key, plan_build, read_record, write_record, BuildPlan, CacheLookup, CacheManager};
use farm_core::cache::{read_custom, write_custom};
use farm_core::module::{CustomMetaValue, Module, ModuleId, ModuleMetaData};

#[test]
fn record_framing_round_trips() {
    let payload = vec![7u8, 8, 9];
    let record = write_record(&payload);
    assert_eq!(record, vec![1, 0, 0, 0, 3, 0, 0, 0, 7, 8, 9]);
    assert_eq!(read_record(&record), Some(payload));
    assert_eq!(read_record(&write_record(&Vec::new())), Some(Vec::new()));
}

#[test]
fn bad_records_do_not_read() {
    assert_eq!(read_record(&vec![1, 0, 0]), None);
    assert_eq!(read_record(&vec![2, 0, 0, 0, 0, 0, 0, 0]), None);
    assert_eq!(read_record(&vec![1, 0, 0, 0, 5, 0, 0, 0, 1]), None);
}

#[test]
fn written_records_read_back() {
    let mut cache = CacheManager::new();
    let key = module_cache_key(&ModuleId::from_str("index.ts?x=1"));
    assert_eq!(key, "index.tsx=1");
    cache.write(&key, &vec![1, 2, 3]);
    cache.write("other", &vec![4]);
    assert!(matches!(cache.read(&key), CacheLookup::Hit(p) if p == vec![1, 2, 3]));
    cache.write(&key, &vec![5]);
    assert!(matches!(cache.read(&key), CacheLookup::Hit(p) if p == vec![5]));
    assert!(matches!(cache.read("other"), CacheLookup::Hit(p) if p == vec![4]));
}

#[test]
fn missing_and_corrupt_entries_are_misses() {
    let mut cache = CacheManager::new();
    assert!(matches!(cache.read("a"), CacheLookup::Miss));
    cache.put_raw("a", vec![9, 9, 9, 9, 9, 9, 9, 9, 9]);
    assert!(matches!(cache.read("a"), CacheLookup::Miss));
    assert!(matches!(plan_build(cache.read("a")), BuildPlan::Build));
    assert!(matches!(plan_build(CacheManager::new().read("a")), BuildPlan::Build));
    cache.write("a", &vec![1]);
    assert!(matches!(plan_build(cache.read("a")), BuildPlan::Reuse(p) if p == vec![1]));
}

#[test]
fn custom_meta_round_trips_through_cache() {
    let mut module = Module::new(ModuleId::new("/root/index.ts", &Vec::new(), "/root"));
    // a plugin's own archive of { ast: "ast", imports: ["./index"] }
    let archived: Vec<u8> = b"ast\n./index".to_vec();
    module.meta = ModuleMetaData::Custom(CustomMetaValue {
        archive_name: "StructModuleData".to_string(),
        bytes: archived.clone(),
    });

    let key = module_cache_key(&module.id);
    let payload = write_custom(match &module.meta {
        ModuleMetaData::Custom(v) => v,
        _ => unreachable!(),
    });
    let mut cache = CacheManager::new();
    cache.write(&key, &payload);

    let read = match cache.read(&key) {
        CacheLookup::Hit(p) => p,
        CacheLookup::Miss => panic!("expected a hit"),
    };
    let value = read_custom(&read).unwrap();
    assert_eq!(value.archive_name, "StructModuleData");
    assert_eq!(value.bytes, archived);
    let restored = ModuleMetaData::Custom(value);
    assert_eq!(restored.as_custom("StructModuleData"), &archived);
    assert_eq!(ModuleId::from_str(&key).relative_path(), module.id.relative_path());
}

#[test]
fn custom_archive_rejects_bad_bytes() {
    assert!(read_custom(&vec![1, 0, 0]).is_none());
    assert!(read_custom(&vec![9, 0, 0, 0, b'a']).is_none());
    assert!(read_custom(&vec![1, 0, 0, 0, 0xff]).is_none());
    let v = read_custom(&vec![1, 0, 0, 0, b'x', 7]).unwrap();
    assert_eq!(v.archive_name, "x");
    assert_eq!(v.bytes, vec![7]);
}

#[test]
fn failed_build_commits_nothing() {
    let mut cache = CacheManager::new();
    cache.commit_build("b", &Ok(vec![2]));
    let failure = farm_core::plugin::stage_error(
        farm_core::plugin::HookStage::Parse,
        "a",
        "p",
        "syntax error".to_string(),
    );
    cache.commit_build("a", &Err(failure));
    assert!(matches!(cache.read("a"), CacheLookup::Miss));
    assert!(matches!(cache.read("b"), CacheLookup::Hit(p) if p == vec![2]));
    cache.commit_build("a", &Ok(vec![1]));
    assert!(matches!(cache.read("a"), CacheLookup::Hit(p) if p == vec![1]));
    assert!(matches!(cache.read("b"), CacheLookup::Hit(p) if p == vec![2]));
}

#[test]
fn digest_bytes_are_written_in_hex() {
    assert_eq!(farm_core::digest::digest_to_id(&vec![0x5d, 0xe9, 0x4a, 0xb0]), "5de94ab0");
    assert_eq!(farm_core::digest::digest_to_id(&vec![0x00, 0x0f]), "000f");
}

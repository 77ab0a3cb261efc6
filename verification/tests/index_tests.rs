use openlogi::asset::{format_candidates, AssetCache, DeviceModelInfo};
use openlogi::index::{DeviceEntry, Index};

fn entry(model_id: &str, display_name: &str) -> DeviceEntry {
    DeviceEntry {
        model_id: model_id.to_string(),
        display_name: display_name.to_string(),
        kind: "mouse".to_string(),
        asset_path: "assets/mx_master_3s/".to_string(),
        files: Vec::new(),
    }
}

fn index_with(depot: &str, model_id: &str, display_name: &str) -> Index {
    let mut index = Index::new(1);
    index.insert(depot.to_string(), entry(model_id, display_name));
    index
}

#[test]
fn find_by_display_name_matches_case_insensitively() {
    let index = index_with("mx_master_3s", "2b043", "MX Master 3S");
    let hit = index.find_by_display_name("mx master 3s");
    assert_eq!(hit.map(|(depot, _)| depot), Some("mx_master_3s"));
}

#[test]
fn find_by_display_name_is_exact_not_substring() {
    let index = index_with("mx_master_3s", "2b043", "MX Master 3S");
    assert!(index.find_by_display_name("MX Master 3").is_none());
}

#[test]
fn find_by_model_id_and_suffix() {
    let mut index = Index::new(1);
    index.insert("mx_master_3".to_string(), entry("6B023", "MX Master 3"));
    index.insert("mx_master_4".to_string(), entry("2b042", "MX Master 4"));
    assert_eq!(index.find_by_model_id("6b023").map(|(d, _)| d), Some("mx_master_3"));
    assert!(index.find_by_model_id("b023").is_none());
    assert_eq!(index.find_by_model_id_suffix("B042").map(|(d, _)| d), Some("mx_master_4"));
    assert!(index.find_by_model_id_suffix("x2b042").is_none());
    // An exact match is also a suffix match.
    assert_eq!(index.find_by_model_id_suffix("6b023").map(|(d, _)| d), Some("mx_master_3"));
    assert_eq!(index.get("mx_master_4").map(|(d, e)| (d, e.model_id.as_str())), Some(("mx_master_4", "2b042")));
    assert!(index.get("MX_MASTER_4").is_none());
}

#[test]
fn candidates_format_like_the_registry() {
    let model = DeviceModelInfo { extended_model_id: 0x06, model_ids: vec![0xb023, 0, 0x0042] };
    assert_eq!(format_candidates(&model), vec!["6b023".to_string(), "60042".to_string()]);
    let wide = DeviceModelInfo { extended_model_id: 0x1f, model_ids: vec![0x00ab] };
    assert_eq!(format_candidates(&wide), vec!["1f00ab".to_string()]);
}

#[test]
fn resolve_prefers_forced_depot_then_first_candidate() {
    let mut index = Index::new(1);
    index.insert("mx_master_3".to_string(), entry("6b023", "MX Master 3"));
    index.insert("lift".to_string(), entry("6b031", "Lift"));
    let cache = AssetCache::new("/cache".to_string(), Some(index));
    assert_eq!(cache.cache_root(), "/cache");
    let model = DeviceModelInfo { extended_model_id: 6, model_ids: vec![0xb099, 0xb031, 0xb023] };
    assert_eq!(cache.resolve_depot(None, &model).map(|(d, _)| d), Some("lift"));
    assert_eq!(cache.resolve_depot(Some("mx_master_3"), &model).map(|(d, _)| d), Some("mx_master_3"));
    assert_eq!(cache.resolve_depot(Some("nope"), &model).map(|(d, _)| d), Some("lift"));
    let none = DeviceModelInfo { extended_model_id: 6, model_ids: vec![0] };
    assert!(cache.resolve_depot(None, &none).is_none());
    let empty = AssetCache::new("/cache".to_string(), None);
    assert!(empty.resolve_depot(Some("lift"), &model).is_none());
}

#[test]
fn insert_replaces_the_entry_of_an_existing_depot() {
    let mut index = Index::new(2);
    assert_eq!(index.schema_version, 2);
    assert!(index.devices.is_empty());
    index.insert("lift".to_string(), entry("6b031", "Lift"));
    index.insert("mx_master_3".to_string(), entry("6b023", "MX Master 3"));
    index.insert("lift".to_string(), entry("6b099", "Lift Left"));
    assert_eq!(index.devices.len(), 2);
    assert_eq!(index.get("lift").map(|(_, e)| e.model_id.as_str()), Some("6b099"));
    assert_eq!(index.get("mx_master_3").map(|(_, e)| e.model_id.as_str()), Some("6b023"));
    assert!(index.find_by_model_id("6b031").is_none());
}

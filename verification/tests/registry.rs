use everest_sync::mod_info::{ModCatalog, ModInfo};
use everest_sync::mod_registry::{ModRegistry, RemoteModInfo};

fn remote(version: &str, checksums: &[&str]) -> RemoteModInfo {
    RemoteModInfo {
        name: String::new(),
        version: version.to_string(),
        file_size: 10,
        updated_at: 1728796397,
        download_url: "https://gamebanana.com/mmdl/1298450".to_string(),
        checksums: checksums.iter().map(|s| s.to_string()).collect(),
        gamebanana_type: "Tool".to_string(),
        gamebanana_id: 15836,
    }
}

fn info(version: &str) -> ModInfo {
    ModInfo {
        name: String::new(),
        version: version.to_string(),
        last_update: 1728796397,
        url: "https://gamebanana.com/mmdl/1298450".to_string(),
        hash: vec!["f437bf0515368130".to_string()],
        gamebanana_type: Some("Tool".to_string()),
        gamebanana_id: Some(15836),
    }
}

fn sample_registry() -> ModRegistry {
    ModRegistry::from(vec![
        ("CSRC Frog".to_string(), remote("1.0.1", &["f437bf0515368130"])),
        ("viewpoint-dreampoint-point".to_string(), remote("1.0", &["0000000000000001"])),
        ("Frogeline".to_string(), remote("2.3", &[])),
    ])
}

#[test]
fn registry_entries_get_their_key_as_name() {
    let registry = sample_registry();
    let names: Vec<&str> = registry.entries.iter().map(|e| e.name.as_str()).collect();
    assert_eq!(names, vec!["CSRC Frog", "viewpoint-dreampoint-point", "Frogeline"]);
    assert_eq!(registry.entries[0].version, "1.0.1");
    assert_eq!(registry.entries[0].updated_at, 1728796397);
    assert_eq!(registry.entries[0].gamebanana_id, 15836);
}

#[test]
fn registry_finds_a_mod_by_its_exact_name() {
    let registry = sample_registry();
    let frog = registry.get_mod_info("CSRC Frog").expect("CSRC Frog mod not found");
    assert_eq!(frog.version, "1.0.1");
    assert_eq!(frog.checksums, vec!["f437bf0515368130"]);
    assert_eq!(frog.download_url, "https://gamebanana.com/mmdl/1298450");
    assert_eq!(frog.gamebanana_type, "Tool");
    let viewpoint = registry.get_mod_info("viewpoint-dreampoint-point").unwrap();
    assert_eq!(viewpoint.version, "1.0");
    assert!(registry.get_mod_info("csrc frog").is_none());
    assert!(registry.get_mod_info("CSRC").is_none());
    assert!(registry.get_mod_info("").is_none());
}

#[test]
fn registry_search_ignores_case_and_keeps_order() {
    let registry = sample_registry();
    let results = registry.search("CSRC");
    assert_eq!(results.len(), 1);
    assert_eq!(results[0].name, "CSRC Frog");
    let frogs: Vec<&str> = registry.search("FROG").iter().map(|e| e.name.as_str()).collect();
    assert_eq!(frogs, vec!["CSRC Frog", "Frogeline"]);
    assert!(registry.search("celeste").is_empty());
    assert_eq!(registry.search("").len(), 3);
}

#[test]
fn registry_search_lower_cases_beyond_ascii() {
    let registry = ModRegistry::from(vec![("ÉTOILE Map".to_string(), remote("1", &[]))]);
    assert_eq!(registry.search("étoile").len(), 1);
    assert_eq!(registry.search("ÉTOILE").len(), 1);
    assert!(registry.search("etoile").is_empty());
}

#[test]
fn later_registry_pair_replaces_an_earlier_one_in_place() {
    let registry = ModRegistry::from(vec![
        ("A".to_string(), remote("1", &[])),
        ("B".to_string(), remote("1", &[])),
        ("A".to_string(), remote("2", &["aaaa"])),
    ]);
    assert_eq!(registry.entries.len(), 2);
    assert_eq!(registry.entries[0].name, "A");
    assert_eq!(registry.entries[0].version, "2");
    assert_eq!(registry.entries[1].name, "B");
    assert_eq!(registry.get_mod_info("A").unwrap().checksums, vec!["aaaa"]);
}

#[test]
fn empty_registry_holds_nothing() {
    let registry = ModRegistry::from(Vec::new());
    assert!(registry.entries.is_empty());
    assert!(registry.get_mod_info("CSRC Frog").is_none());
    assert!(registry.search("").is_empty());
}

#[test]
fn remote_entry_knows_its_fingerprints() {
    let registry = sample_registry();
    let frog = registry.get_mod_info("CSRC Frog").unwrap();
    assert!(frog.has_matching_hash("f437bf0515368130"));
    assert!(frog.has_matching_hash("F437BF0515368130"));
    assert!(!frog.has_matching_hash("f437bf0515368131"));
    assert!(!registry.get_mod_info("Frogeline").unwrap().has_matching_hash(""));
}

#[test]
fn catalog_finds_and_searches_like_the_registry() {
    let catalog = ModCatalog::from(vec![
        ("CSRC Frog".to_string(), info("1.0.1")),
        ("viewpoint-dreampoint-point".to_string(), info("1.0")),
    ]);
    assert!(!catalog.mods.is_empty());
    let frog_mod = catalog.get_mod("CSRC Frog").expect("CSRC Frog mod not found");
    assert_eq!(frog_mod.version, "1.0.1");
    assert_eq!(frog_mod.last_update, 1728796397);
    assert_eq!(frog_mod.gamebanana_type.as_deref(), Some("Tool"));
    assert_eq!(frog_mod.gamebanana_id, Some(15836));
    assert_eq!(frog_mod.hash, vec!["f437bf0515368130"]);
    assert_eq!(frog_mod.url, "https://gamebanana.com/mmdl/1298450");
    let viewpoint_mod =
        catalog.get_mod("viewpoint-dreampoint-point").expect("viewpoint-dreampoint-point mod not found");
    assert_eq!(viewpoint_mod.version, "1.0");
    let results = catalog.search("CSRC Frog");
    assert_eq!(results.len(), 1);
    assert_eq!(results[0].name, "CSRC Frog");
    let results = catalog.search("csrc");
    assert_eq!(results.len(), 1);
    assert!(catalog.get_mod("CSRC").is_none());
}

#[test]
fn catalog_address_is_the_listing_without_white_space() {
    assert_eq!(
        ModCatalog::address_in("  https://example.org/everest_update.yaml\n"),
        "https://example.org/everest_update.yaml"
    );
    assert_eq!(ModCatalog::address_in("\t\n "), "");
}

use wow_addon_manager::addon_manager::{Addon, AddonManager, Addons, StorageError};
use wow_addon_manager::app::{StatefulTable, Tab, TableItem, Version};
use wow_addon_manager::curse::{CatalogEntry, CatalogFile, CurseForgeAPI, UpdateMap};
use wow_addon_manager::reconcile::{addon_ids, reconcile};
use wow_addon_manager::pipeline::{Operation, Outcome, Pipeline, Step};
use wow_addon_manager::settings::{Key, Settings};
use wow_addon_manager::text::id_greater;

fn addon(id: &str, file_id: &str, version: &str, modules: &[&str]) -> Addon {
    Addon {
        addon_id: id.to_string(),
        name: format!("Addon {}", id),
        file_id: file_id.to_string(),
        file_date: "2020-05-01".to_string(),
        modules: modules.iter().map(|m| m.to_string()).collect(),
        download_url: format!("https://example.org/{}/{}.zip", id, file_id),
        version: version.to_string(),
        game_version: "1.13.4".to_string(),
        download_count: "1,000".to_string(),
    }
}

fn file(id: &str, release_type: u64, flavor: &str) -> CatalogFile {
    CatalogFile {
        id: id.to_string(),
        file_date: "2020-04-30T10:11:12.123Z".to_string(),
        display_name: format!("v{}", id),
        game_version: vec!["1.13.4".to_string(), "1.13.3".to_string()],
        download_url: format!("https://example.org/files/{}.zip", id),
        release_type,
        game_version_flavor: flavor.to_string(),
        modules: vec!["Core".to_string(), "Core_Options".to_string()],
    }
}

fn entry(id: &str, files: Vec<CatalogFile>) -> CatalogEntry {
    CatalogEntry {
        id: id.to_string(),
        name: format!("Entry {}", id),
        download_count: 1234567,
        latest_files: files,
    }
}

fn ids(m: &Addons) -> Vec<String> {
    m.addons.iter().map(|a| a.addon_id.clone()).collect()
}

#[test]
fn latest_file_picks_greatest_stable_of_flavor() {
    let e = entry(
        "1",
        vec![file("5", 1, "wow_classic"), file("7", 1, "wow_classic"), file("9", 1, "wow_retail")],
    );
    let f = CurseForgeAPI::latest_file(&e, Version::Classic).unwrap();
    assert_eq!(f.id, "7");
    let r = CurseForgeAPI::latest_file(&e, Version::Retail).unwrap();
    assert_eq!(r.id, "9");
    assert!(CurseForgeAPI::latest_file(&e, Version::Tbc).is_none());
}

#[test]
fn latest_file_skips_unstable_and_compares_numerically() {
    let e = entry(
        "1",
        vec![
            file("9", 1, "wow_classic"),
            file("10", 1, "wow_classic"),
            file("11", 2, "wow_classic"),
            file("12", 3, "wow_classic"),
        ],
    );
    assert_eq!(CurseForgeAPI::latest_file(&e, Version::Classic).unwrap().id, "10");
    let none = entry("2", vec![file("3", 2, "wow_classic")]);
    assert!(CurseForgeAPI::latest_file(&none, Version::Classic).is_none());
    assert!(CurseForgeAPI::latest_file(&entry("3", vec![]), Version::Classic).is_none());
}

#[test]
fn identifier_order() {
    assert!(id_greater("10", "9"));
    assert!(!id_greater("9", "10"));
    assert!(id_greater("12", "10"));
    assert!(!id_greater("10", "10"));
}

#[test]
fn download_count_grouping() {
    assert_eq!(CurseForgeAPI::parse_download_count(1234567.0_f64 as u64), "1,234,567");
    assert_eq!(CurseForgeAPI::parse_download_count(999), "999");
    assert_eq!(CurseForgeAPI::parse_download_count(0), "0");
    assert_eq!(CurseForgeAPI::parse_download_count(1000), "1,000");
    assert_eq!(CurseForgeAPI::parse_download_count(1000001), "1,000,001");
    assert_eq!(CurseForgeAPI::parse_download_count(u64::MAX), "18,446,744,073,709,551,615");
}

#[test]
fn date_is_first_ten_characters() {
    assert_eq!(CurseForgeAPI::parse_date("2020-04-30T10:11:12.123Z"), "2020-04-30");
    assert_eq!(CurseForgeAPI::parse_date("2020-04"), "2020-04");
    assert_eq!(CurseForgeAPI::parse_date(""), "");
}

#[test]
fn parse_json_builds_package_from_latest_file() {
    let e = entry("42", vec![file("5", 1, "wow_classic"), file("7", 1, "wow_classic")]);
    let a = CurseForgeAPI::parse_json(&e, Version::Classic).unwrap();
    assert_eq!(a.addon_id, "42");
    assert_eq!(a.name, "Entry 42");
    assert_eq!(a.file_id, "7");
    assert_eq!(a.file_date, "2020-04-30");
    assert_eq!(a.modules, vec!["Core".to_string(), "Core_Options".to_string()]);
    assert_eq!(a.download_url, "https://example.org/files/7.zip");
    assert_eq!(a.version, "v7");
    assert_eq!(a.game_version, "1.13.4");
    assert_eq!(a.download_count, "1,234,567");
    assert!(CurseForgeAPI::parse_json(&e, Version::Retail).is_none());
}

#[test]
fn search_skips_entries_without_applicable_file() {
    let entries = vec![
        entry("1", vec![file("5", 1, "wow_classic")]),
        entry("2", vec![file("6", 1, "wow_retail")]),
        entry("3", vec![file("8", 1, "wow_classic")]),
    ];
    let rows: Vec<TableItem> = CurseForgeAPI::search(&entries, Version::Classic);
    assert_eq!(rows.len(), 2);
    assert_eq!(rows[0].cells, vec!["Entry 1", "1.13.4", "2020-04-30", "1,234,567"]);
    assert_eq!(rows[0].download_url, "https://example.org/files/5.zip");
    assert_eq!(rows[1].addon.addon_id, "3");
    assert!(CurseForgeAPI::search(&vec![], Version::Classic).is_empty());
}

#[test]
fn update_lookup_keeps_last_entry_per_id() {
    let entries = vec![
        entry("1", vec![file("5", 1, "wow_classic")]),
        entry("2", vec![file("6", 1, "wow_classic")]),
        entry("1", vec![file("9", 1, "wow_classic")]),
        entry("4", vec![file("6", 2, "wow_classic")]),
    ];
    let map: UpdateMap = CurseForgeAPI::check_for_updates(&entries, Version::Classic);
    assert_eq!(map.items.len(), 2);
    assert_eq!(map.items[0].addon_id, "1");
    assert_eq!(map.items[0].file_id, "9");
    assert_eq!(map.items[1].addon_id, "2");
}

#[test]
fn reconcile_marks_newer_update_outdated() {
    let installed = Addons { addons: vec![addon("1", "10", "1.0", &["A"])] };
    let updates = UpdateMap { items: vec![addon("1", "12", "1.1", &["A"])] };
    let r = reconcile(&installed, &updates);
    assert_eq!(r.rows.len(), 1);
    assert_eq!(r.rows[0].cells[0], "Outdated");
    assert_eq!(r.rows[0].cells[3], "1.0");
    assert_eq!(r.rows[0].cells[4], "1.1");
    assert_eq!(r.rows[0].download_url, "https://example.org/1/12.zip");
    assert_eq!(r.updates.len(), 1);
    assert_eq!(r.updates[0].file_id, "12");
}

#[test]
fn reconcile_ignores_older_or_missing_update() {
    let installed = Addons {
        addons: vec![addon("1", "10", "1.0", &["A"]), addon("2", "3", "2.0", &["B"])],
    };
    let updates = UpdateMap { items: vec![addon("1", "9", "0.9", &["A"])] };
    let r = reconcile(&installed, &updates);
    assert_eq!(r.rows.len(), 2);
    assert_eq!(r.rows[0].cells[0], "Up-to-date");
    assert_eq!(r.rows[0].cells[4], "1.0");
    assert_eq!(r.rows[0].download_url, "https://example.org/1/10.zip");
    assert_eq!(r.rows[1].cells, vec!["Up-to-date", "Addon 2", "1.13.4", "2.0", "2.0"]);
    assert!(r.updates.is_empty());
}

#[test]
fn catalog_ids_of_manifest() {
    let installed = Addons {
        addons: vec![
            addon("12", "1", "1", &[]),
            addon("abc", "1", "1", &[]),
            addon("0", "1", "1", &[]),
            addon("+7", "1", "1", &[]),
            addon("99999999999", "1", "1", &[]),
        ],
    };
    assert_eq!(addon_ids(&installed), vec![12, 7]);
}

#[test]
fn remove_deletes_modules_and_entry() {
    let mut m = Addons {
        addons: vec![addon("1", "5", "1.0", &["AddonFolder", "AddonFolder_Config"]), addon("2", "3", "2.0", &["Other"])],
    };
    let paths = AddonManager::delete("/games/wow", &mut m, &addon("1", "5", "1.0", &[])).unwrap();
    assert_eq!(paths, vec!["/games/wow/AddonFolder", "/games/wow/AddonFolder_Config"]);
    assert_eq!(ids(&m), vec!["2"]);
}

#[test]
fn remove_missing_id_keeps_manifest() {
    let mut m = Addons { addons: vec![addon("1", "5", "1.0", &["A"])] };
    let paths = AddonManager::delete("/r", &mut m, &addon("7", "5", "1.0", &["A"])).unwrap();
    assert!(paths.is_empty());
    assert_eq!(ids(&m), vec!["1"]);
    assert_eq!(m.addons[0].modules, vec!["A".to_string()]);
}

#[test]
fn remove_refuses_unsafe_module_names() {
    for bad in ["", ".", "..", "../x", "a/b", "a\\b"] {
        let mut m = Addons { addons: vec![addon("1", "5", "1.0", &["Good", bad])] };
        match AddonManager::delete("/r", &mut m, &addon("1", "5", "1.0", &[])) {
            Err(StorageError::UnsafeModuleName(name)) => assert_eq!(name, bad),
            Ok(_) => panic!("accepted {:?}", bad),
        }
        assert_eq!(ids(&m), vec!["1"]);
    }
}

#[test]
fn update_replaces_entry() {
    let mut m = Addons { addons: vec![addon("1", "5", "1.0", &["AddonFolder"]), addon("2", "3", "2.0", &["B"])] };
    let old = addon("1", "5", "1.0", &["AddonFolder"]);
    let paths = AddonManager::delete("/r", &mut m, &old).unwrap();
    assert_eq!(paths, vec!["/r/AddonFolder"]);
    AddonManager::add_to_db(&mut m, addon("1", "6", "1.1", &["AddonFolder"]));
    let ones: Vec<&Addon> = m.addons.iter().filter(|a| a.addon_id == "1").collect();
    assert_eq!(ones.len(), 1);
    assert_eq!(ones[0].file_id, "6");
    assert_eq!(ids(&m), vec!["2", "1"]);
}

#[test]
fn appends_and_removals_keep_ids_distinct() {
    let mut m = AddonManager::init_addon_db(false).unwrap();
    assert!(m.addons.is_empty());
    AddonManager::add_to_db(&mut m, addon("1", "1", "a", &["A"]));
    AddonManager::add_to_db(&mut m, addon("2", "1", "a", &["B"]));
    AddonManager::delete("/r", &mut m, &addon("1", "1", "a", &[])).unwrap();
    AddonManager::add_to_db(&mut m, addon("1", "2", "b", &["A"]));
    AddonManager::delete("/r", &mut m, &addon("3", "1", "a", &[])).unwrap();
    let mut seen = ids(&m);
    seen.sort();
    seen.dedup();
    assert_eq!(seen.len(), m.addons.len());
    assert!(AddonManager::init_addon_db(true).is_none());
}

#[test]
fn position_finds_first() {
    let v = vec![addon("1", "1", "a", &[]), addon("2", "1", "a", &[]), addon("2", "2", "a", &[])];
    assert_eq!(AddonManager::position(&v, &"2".to_string()), Some(1));
    assert_eq!(AddonManager::position(&v, &"9".to_string()), None);
}

#[test]
fn tabs() {
    assert_eq!(Tab::from(0), Some(Tab::Installed));
    assert_eq!(Tab::from(1), Some(Tab::Search));
    assert_eq!(Tab::from(2), None);
    assert_eq!(Tab::len(), 2);
}

#[test]
fn table_selection_wraps() {
    let mut t = StatefulTable::new();
    t.next();
    assert_eq!(t.selected, None);
    for i in 0..3 {
        t.items.push(TableItem {
            cells: vec![format!("{}", i)],
            download_url: String::new(),
            addon: addon("1", "1", "a", &[]),
        });
    }
    t.next();
    assert_eq!(t.selected, Some(0));
    t.previous();
    assert_eq!(t.selected, Some(2));
    t.next();
    assert_eq!(t.selected, Some(0));
    t.next();
    assert_eq!(t.get_selected().unwrap().cells[0], "1");
    t.selected = Some(7);
    assert!(t.get_selected().is_none());
}

#[test]
fn key_bindings_parse() {
    assert_eq!(Settings::parse_key("a".to_string()), Key::Char('a'));
    assert_eq!(Settings::parse_key("ctrl-u".to_string()), Key::Ctrl('u'));
    assert_eq!(Settings::parse_key("Alt-x".to_string()), Key::Alt('x'));
    assert_eq!(Settings::parse_key("LEFT".to_string()), Key::Left);
    assert_eq!(Settings::parse_key("PageDown".to_string()), Key::PageDown);
    assert_eq!(Settings::parse_key("space".to_string()), Key::Char(' '));
    assert_eq!(Settings::parse_key("del".to_string()), Key::Delete);
    assert_eq!(Settings::parse_key("ctrl".to_string()), Key::Null);
    assert_eq!(Settings::parse_key("ctrl-".to_string()), Key::Ctrl('\0'));
    assert_eq!(Settings::parse_key("".to_string()), Key::Null);
    assert_eq!(Settings::parse_key("é".to_string()), Key::Null);
    assert_eq!(Settings::key_from_name("esc", None), Key::Esc);
    assert_eq!(Settings::key_from_name("ESC", None), Key::Null);
}

#[test]
fn update_steps_stop_at_first_failure() {
    let (mut p, first) = Pipeline::start(Operation::Update);
    assert_eq!(first, Step::DeleteOld);
    assert_eq!(p.advance(true), Outcome::Next(Step::Fetch));
    assert_eq!(p.current(), Some(Step::Fetch));
    assert_eq!(p.advance(false), Outcome::Failed(Step::Fetch));
    assert_eq!(p.current(), None);
}

#[test]
fn install_and_remove_steps() {
    let (mut p, first) = Pipeline::start(Operation::Install);
    assert_eq!(first, Step::Fetch);
    assert_eq!(p.advance(true), Outcome::Next(Step::Record));
    assert_eq!(p.advance(true), Outcome::Done);
    assert_eq!(p.current(), None);
    let (mut r, only) = Pipeline::start(Operation::Remove);
    assert_eq!(only, Step::DeleteOld);
    assert_eq!(r.advance(true), Outcome::Done);
    let (mut u, _) = Pipeline::start(Operation::Update);
    assert_eq!(u.advance(false), Outcome::Failed(Step::DeleteOld));
}

use cobalt_migrate::error::MigrationError;
use cobalt_migrate::extract::{accept_extraction, msbt_text_name, Extraction};
use cobalt_migrate::gamedata::GamedataTable;
use cobalt_migrate::layout::{entry_action, Action};
use cobalt_migrate::plan::{
    plan_migration, relative_entry_path, required_directories, target_name, SourceEntry,
};
use cobalt_migrate::text::{ends_with_text, same_text, strip_suffix_text};

fn path(parts: &[&str]) -> Vec<String> {
    parts.iter().map(|p| p.to_string()).collect()
}

fn entry(p: &str, is_dir: bool) -> SourceEntry {
    SourceEntry { path: p.to_string(), is_dir }
}

fn dest(a: &Action) -> (&'static str, Vec<String>) {
    match a {
        Action::MakeDir(p) => ("dir", p.clone()),
        Action::ExtractGamedata(p) => ("xml", p.clone()),
        Action::ExtractMessage(p) => ("msg", p.clone()),
        Action::Copy(p) => ("copy", p.clone()),
    }
}

#[test]
fn standard_table_classifies_known_kinds() {
    let t = GamedataTable::standard();
    assert_eq!(t.classify("person"), Some("Person".to_string()));
    assert_eq!(t.classify("animset"), Some("AnimSet".to_string()));
    assert_eq!(t.classify("assettable"), Some("AssetTable".to_string()));
    assert_eq!(t.classify("reliance"), Some("Reliance".to_string()));
    assert_eq!(t.classify("widget"), None);
    assert_eq!(t.classify(""), None);
    // keys are matched exactly; folding is the caller's task
    assert_eq!(t.classify("Person"), None);
}

#[test]
fn custom_table_is_looked_up_in_order() {
    let t = GamedataTable::new(vec![
        ("ring".to_string(), "Ring".to_string()),
        ("ring".to_string(), "Other".to_string()),
    ]);
    assert_eq!(t.classify("ring"), Some("Ring".to_string()));
    assert_eq!(t.classify("person"), None);
}

#[test]
fn directory_is_mirrored() {
    let t = GamedataTable::standard();
    let a = entry_action(&path(&["Data", "StreamingAssets"]), true, &t).ok().unwrap();
    assert_eq!(dest(&a), ("dir", path(&["Data", "StreamingAssets"])));
    // a directory named like a bundle is still a directory
    let a = entry_action(&path(&["Data", "person.xml.bundle"]), true, &t).ok().unwrap();
    assert_eq!(dest(&a), ("dir", path(&["Data", "person.xml.bundle"])));
}

#[test]
fn classified_gamedata_is_flattened() {
    let t = GamedataTable::standard();
    let rel = path(&["Data", "StreamingAssets", "aa", "Switch", "fe_assets_gamedata", "person.xml.bundle"]);
    let a = entry_action(&rel, false, &t).ok().unwrap();
    assert_eq!(dest(&a), ("xml", path(&["patches", "xml", "Person.xml"])));
}

#[test]
fn gamedata_stem_is_folded_to_lower_case() {
    let t = GamedataTable::standard();
    let a = entry_action(&path(&["Data", "SKILL.xml.bundle"]), false, &t).ok().unwrap();
    assert_eq!(dest(&a), ("xml", path(&["patches", "xml", "Skill.xml"])));
}

#[test]
fn unclassified_gamedata_is_copied() {
    let t = GamedataTable::standard();
    let rel = path(&["Data", "x", "widget.xml.bundle"]);
    let a = entry_action(&rel, false, &t).ok().unwrap();
    assert_eq!(dest(&a), ("copy", rel));
}

#[test]
fn message_bundle_goes_below_msbt_message() {
    let t = GamedataTable::standard();
    let rel = path(&["Data", "StreamingAssets", "aa", "Switch", "fe_assets_message", "english", "m001.bytes.bundle"]);
    let a = entry_action(&rel, false, &t).ok().unwrap();
    assert_eq!(dest(&a), ("msg", path(&["patches", "msbt", "message", "english", "m001.txt"])));
}

#[test]
fn message_bundle_with_dotted_stem_keeps_stem() {
    let t = GamedataTable::standard();
    let rel = path(&["Data", "StreamingAssets", "aa", "Switch", "fe_assets_message", "us", "sub", "a.b.bytes.bundle"]);
    let a = entry_action(&rel, false, &t).ok().unwrap();
    assert_eq!(dest(&a), ("msg", path(&["patches", "msbt", "message", "us", "sub", "a.b.txt"])));
}

#[test]
fn misplaced_message_bundle_is_refused() {
    let t = GamedataTable::standard();
    let rel = path(&["Data", "elsewhere", "m001.bytes.bundle"]);
    match entry_action(&rel, false, &t) {
        Err(MigrationError::MessageOutsideLocale(p)) => assert_eq!(p, rel),
        _ => panic!("expected a refusal"),
    }
}

#[test]
fn other_file_is_copied() {
    let t = GamedataTable::standard();
    let rel = path(&["Data", "Sound", "voice.bnk"]);
    let a = entry_action(&rel, false, &t).ok().unwrap();
    assert_eq!(dest(&a), ("copy", rel));
}

#[test]
fn target_name_has_cobalt_suffix() {
    assert_eq!(target_name("MyMod"), "MyMod (Cobalt)");
    assert_eq!(target_name(""), " (Cobalt)");
}

#[test]
fn required_directories_are_fixed() {
    assert_eq!(
        required_directories(),
        vec![path(&["patches", "xml"]), path(&["patches", "msbt"]), path(&["Data"])]
    );
}

#[test]
fn relative_path_below_root() {
    let r = relative_entry_path("/mods/MyMod/romfs/Data/a/b.txt", "/mods/MyMod/romfs").ok().unwrap();
    assert_eq!(r, path(&["Data", "a", "b.txt"]));
    let r = relative_entry_path("/mods/MyMod/romfs", "/mods/MyMod/romfs").ok().unwrap();
    assert!(r.is_empty());
}

#[test]
fn relative_path_needs_comparable_paths() {
    match relative_entry_path("mods/x", "/mods") {
        Err(MigrationError::NotUnderRoot(p)) => assert_eq!(p, "mods/x"),
        _ => panic!("expected a refusal"),
    }
}

#[test]
fn example_tree_is_planned() {
    let t = GamedataTable::standard();
    let root = "/m/Mod/romfs";
    let entries = vec![
        entry("/m/Mod/romfs", true),
        entry("/m/Mod/romfs/Data", true),
        entry("/m/Mod/romfs/Data/StreamingAssets/aa/Switch/fe_assets_gamedata/person.xml.bundle", false),
        entry("/m/Mod/romfs/Data/StreamingAssets/aa/Switch/fe_assets_gamedata/widget.xml.bundle", false),
        entry("/m/Mod/romfs/Data/StreamingAssets/aa/Switch/fe_assets_message/english/m001.bytes.bundle", false),
    ];
    let plan = plan_migration("/m/Mod", "Mod", true, root, &entries, &t).ok().unwrap();
    assert_eq!(plan.target, "Mod (Cobalt)");
    assert_eq!(plan.required.len(), 3);
    let got: Vec<(&str, Vec<String>)> = plan.actions.iter().map(dest).collect();
    assert_eq!(got, vec![
        ("dir", path(&[])),
        ("dir", path(&["Data"])),
        ("xml", path(&["patches", "xml", "Person.xml"])),
        ("copy", path(&["Data", "StreamingAssets", "aa", "Switch", "fe_assets_gamedata", "widget.xml.bundle"])),
        ("msg", path(&["patches", "msbt", "message", "english", "m001.txt"])),
    ]);
}

#[test]
fn planning_twice_gives_the_same_plan() {
    let t = GamedataTable::standard();
    let entries = vec![
        entry("/m/Mod/romfs/Data/item.xml.bundle", false),
        entry("/m/Mod/romfs/Data/other.bin", false),
    ];
    let a = plan_migration("/m/Mod", "Mod", true, "/m/Mod/romfs", &entries, &t).ok().unwrap();
    let b = plan_migration("/m/Mod", "Mod", true, "/m/Mod/romfs", &entries, &t).ok().unwrap();
    let da: Vec<(&str, Vec<String>)> = a.actions.iter().map(dest).collect();
    let db: Vec<(&str, Vec<String>)> = b.actions.iter().map(dest).collect();
    assert_eq!(da, db);
    assert_eq!(da[0], ("xml", path(&["patches", "xml", "Item.xml"])));
}

#[test]
fn colliding_gamedata_share_one_target() {
    let t = GamedataTable::standard();
    let entries = vec![
        entry("/m/Mod/romfs/Data/a/person.xml.bundle", false),
        entry("/m/Mod/romfs/Data/b/person.xml.bundle", false),
    ];
    let plan = plan_migration("/m/Mod", "Mod", true, "/m/Mod/romfs", &entries, &t).ok().unwrap();
    assert_eq!(dest(&plan.actions[0]), dest(&plan.actions[1]));
}

#[test]
fn misplaced_message_stops_the_whole_plan() {
    let t = GamedataTable::standard();
    let entries = vec![
        entry("/m/Mod/romfs/Data/ok.bin", false),
        entry("/m/Mod/romfs/Data/english/m001.bytes.bundle", false),
        entry("/m/Mod/romfs/Data/later.bin", false),
    ];
    match plan_migration("/m/Mod", "Mod", true, "/m/Mod/romfs", &entries, &t) {
        Err(MigrationError::MessageOutsideLocale(p)) => {
            assert_eq!(p, path(&["Data", "english", "m001.bytes.bundle"]))
        }
        _ => panic!("expected a refusal"),
    }
}

#[test]
fn missing_source_folder_is_refused_first() {
    let t = GamedataTable::standard();
    let entries = vec![entry("/elsewhere/x.bytes.bundle", false)];
    match plan_migration("/m/Mod", "Mod", false, "/m/Mod/romfs", &entries, &t) {
        Err(MigrationError::MissingSourceFolder(p)) => assert_eq!(p, "/m/Mod"),
        _ => panic!("expected a refusal"),
    }
}

#[test]
fn extraction_outcomes() {
    assert_eq!(accept_extraction("f", Extraction::Raw(vec![1, 2, 3])).ok().unwrap(), vec![1, 2, 3]);
    assert_eq!(
        accept_extraction("f", Extraction::Script("hé".to_string())).ok().unwrap(),
        "hé".as_bytes().to_vec()
    );
    match accept_extraction("a/b.xml.bundle", Extraction::Failed("bad frame".to_string())) {
        Err(MigrationError::DecodeFailure(p, q)) => {
            assert_eq!(p, "a/b.xml.bundle");
            assert_eq!(q, "bad frame");
        }
        _ => panic!("expected a decode failure"),
    }
}

#[test]
fn msbt_names() {
    assert_eq!(msbt_text_name("m001.msbt"), Some("m001.txt".to_string()));
    assert_eq!(msbt_text_name("a.b.msbt"), Some("a.b.txt".to_string()));
    assert_eq!(msbt_text_name("xmsbt"), Some("xmsbt.txt".to_string()));
    assert_eq!(msbt_text_name(".msbt"), Some(".msbt.txt".to_string()));
    assert_eq!(msbt_text_name("m001.txt"), None);
    assert_eq!(msbt_text_name(""), None);
}

#[test]
fn text_helpers() {
    assert!(same_text("abc", "abc"));
    assert!(!same_text("abc", "abd"));
    assert!(ends_with_text("person.xml.bundle", ".xml.bundle"));
    assert!(!ends_with_text("bundle", ".xml.bundle"));
    assert_eq!(strip_suffix_text("é.xml.bundle", ".xml.bundle"), Some("é"));
    assert_eq!(strip_suffix_text("x.bin", ".xml.bundle"), None);
}

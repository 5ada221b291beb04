use vs_updater::listing::{resolve_mod_update, ModDecision};
use vs_updater::records::{
    entries_of, is_updatable_mod, read_mod_record, record_text, version_in_line, ModRecord,
};
use vs_updater::utils::Utils;

fn some(s: &str) -> Option<String> {
    Some(s.to_string())
}

fn chars(s: &str) -> Vec<char> {
    s.chars().collect()
}

#[test]
fn record_entries_are_the_trimmed_lines_that_are_not_blank() {
    let entries = entries_of("  carrycapacity \r\n\n\t\n 4711\nlast");
    assert_eq!(entries, vec![chars("carrycapacity"), chars("4711"), chars("last")]);
    assert_eq!(entries_of(""), Vec::<Vec<char>>::new());
    assert_eq!(entries_of(" \n\r\n  "), Vec::<Vec<char>>::new());
    assert_eq!(entries_of("a\u{a0}\u{2003}\nb\r"), vec![chars("a"), chars("b")]);
}

#[test]
fn a_mod_is_updatable_by_its_name() {
    assert!(is_updatable_mod("carrycapacity_1.2.3"));
    assert!(is_updatable_mod("mod.ZIP"));
    assert!(is_updatable_mod("mod."));
    assert!(!is_updatable_mod("carrycapacity_1.2.3.zip"));
    assert!(!is_updatable_mod("carrycapacity"));
    assert!(!is_updatable_mod(".hidden"));
    assert!(!is_updatable_mod(".."));
    assert!(!is_updatable_mod(""));
}

#[test]
fn mod_id_is_the_first_entry() {
    assert_eq!(Utils::get_mod_id("mod_1.0.0", Some("\n  carrycapacity  \n4711\n")), some("carrycapacity"));
    assert_eq!(Utils::get_mod_id("mod_1.0.0", Some("carrycapacity")), some("carrycapacity"));
    assert_eq!(Utils::get_mod_id("mod_1.0.0", Some("")), None);
    assert_eq!(Utils::get_mod_id("mod_1.0.0", Some(" \n \n")), None);
    assert_eq!(Utils::get_mod_id("mod_1.0.0", None), None);
    assert_eq!(Utils::get_mod_id("mod_1.0.0.zip", Some("carrycapacity\n1")), None);
    assert_eq!(Utils::get_mod_id("mod", Some("carrycapacity\n1")), None);
}

#[test]
fn mod_file_id_is_the_second_entry() {
    assert_eq!(Utils::get_mod_fileid("mod_1.0.0", Some("carrycapacity\n\n4711\nmore")), some("4711"));
    assert_eq!(Utils::get_mod_fileid("mod_1.0.0", Some("carrycapacity\r\n4711")), some("4711"));
    assert_eq!(Utils::get_mod_fileid("mod_1.0.0", Some("carrycapacity\n")), None);
    assert_eq!(Utils::get_mod_fileid("mod_1.0.0", None), None);
    assert_eq!(Utils::get_mod_fileid("mod_1.0.0.zip", Some("carrycapacity\n4711")), None);
}

#[test]
fn mod_version_follows_the_last_underscore() {
    assert_eq!(Utils::get_mod_version("carry_capacity_1.2.3"), some("1.2.3"));
    assert_eq!(Utils::get_mod_version("carrycapacity_1.2.3.zip"), some("1.2.3"));
    assert_eq!(Utils::get_mod_version("carrycapacity_"), some(""));
    assert_eq!(Utils::get_mod_version("_.zip"), some(""));
    assert_eq!(Utils::get_mod_version("carrycapacity"), None);
    assert_eq!(Utils::get_mod_version("carrycapacity.zip"), None);
    assert_eq!(Utils::get_mod_version(""), None);
}

#[test]
fn updated_name_replaces_what_follows_the_last_underscore() {
    assert_eq!(
        Utils::get_updated_path_from_version("carry_capacity_1.2.3", "1.3.0"),
        some("carry_capacity_1.3.0")
    );
    assert_eq!(
        Utils::get_updated_path_from_version("carrycapacity_1.2.3.zip", "2.0.0-rc.1"),
        some("carrycapacity_2.0.0-rc.1")
    );
    assert_eq!(Utils::get_updated_path_from_version("_1", ""), some("_"));
    assert_eq!(Utils::get_updated_path_from_version("carrycapacity", "1.3.0"), None);
}

#[test]
fn manifest_version_is_read_from_the_first_declaring_line() {
    let manifest = "{\n  \"type\": \"code\",\n  \"Version\": \"1.4.2\",\n  \"version\": \"9.9.9\"\n}";
    assert_eq!(Utils::get_version_from_modinfo(manifest), some("1.4.2"));
    assert_eq!(Utils::get_version_from_modinfo("\t\"VERSION\" : \"2.0.0\",\r\n"), some("2.0.0"));
    assert_eq!(Utils::get_version_from_modinfo("\"version\": \"2.0.0\" ,"), some("2.0.0\" "));
    assert_eq!(Utils::get_version_from_modinfo("\"version\":\"1.0.0\""), some("1.0.0"));
}

#[test]
fn manifest_without_a_version_gives_nothing() {
    assert_eq!(Utils::get_version_from_modinfo(""), None);
    assert_eq!(Utils::get_version_from_modinfo("{ \"name\": \"x\" }"), None);
    assert_eq!(Utils::get_version_from_modinfo("{ \"version\": \"1.0.0\" }"), None);
    assert_eq!(Utils::get_version_from_modinfo("\"version\"\n\"1.0.0\""), None);
    assert_eq!(Utils::get_version_from_modinfo("version: 1.0.0"), None);
}

#[test]
fn manifest_line_is_cut_at_the_second_colon() {
    assert_eq!(version_in_line(&chars("\"version\": \"1:2\"")), some("1"));
    assert_eq!(version_in_line(&chars("\"version\":,,\"\"1.0\"\",,")), some("1.0"));
    assert_eq!(version_in_line(&chars("\"version\": ")), some(""));
    assert_eq!(version_in_line(&chars("\"versions\": \"3\"")), None);
    assert_eq!(version_in_line(&chars("\"version\"x: \"3\"")), some("3"));
}

#[test]
fn record_text_is_id_and_file_id_on_two_lines() {
    assert_eq!(record_text("carrycapacity", 4711), "carrycapacity\n4711");
    assert_eq!(record_text("m", 0), "m\n0");
    assert_eq!(record_text("", -12), "\n-12");
    assert_eq!(record_text("m", i64::MIN), "m\n-9223372036854775808");
    assert_eq!(record_text("m", i64::MAX), "m\n9223372036854775807");
}

#[test]
fn written_record_is_read_back() {
    let text = record_text("carrycapacity", 4711);
    assert_eq!(Utils::get_mod_id("carrycapacity_1.0.0", Some(&text)), some("carrycapacity"));
    assert_eq!(Utils::get_mod_fileid("carrycapacity_1.0.0", Some(&text)), some("4711"));
}

#[test]
fn reads_a_full_and_a_one_line_record() {
    assert_eq!(
        read_mod_record("carrycapacity_1.2.3", Some("carrycapacity\n4711")),
        Some(ModRecord {
            mod_id: "carrycapacity".to_string(),
            installed_file_id: some("4711"),
            displayed_version: "1.2.3".to_string(),
        })
    );
    assert_eq!(
        read_mod_record("carrycapacity_1.2.3", Some("carrycapacity")),
        Some(ModRecord {
            mod_id: "carrycapacity".to_string(),
            installed_file_id: None,
            displayed_version: "1.2.3".to_string(),
        })
    );
    assert_eq!(read_mod_record("carrycapacity_1.2.3", None), None);
    assert_eq!(read_mod_record("carrycapacity_1.2.3", Some("")), None);
    assert_eq!(read_mod_record("carrycapacity.d", Some("carrycapacity\n1")), None);
    assert_eq!(read_mod_record("carrycapacity_1.2.3.zip", Some("carrycapacity\n1")), None);
}

#[test]
fn a_one_line_record_is_updated_and_rewritten_with_the_new_file_id() {
    let record = read_mod_record("mymod_1.0.0", Some("mymod")).unwrap();
    assert_eq!(record.mod_id, "mymod");
    assert_eq!(record.installed_file_id, None);
    let page = "<a href=\"/download/205/mod_1.1.0.zip\">mod_1.1.0.zip</a>";
    let decision = resolve_mod_update(page, record.installed_file_id.as_deref(), false);
    let release = match decision {
        Ok(ModDecision::Update(release)) => release,
        other => panic!("unexpected decision {:?}", other),
    };
    assert_eq!(release.file_id, 205);
    assert_eq!(release.file_name, "mod_1.1.0.zip");
    let rewritten = record_text(&record.mod_id, release.file_id);
    assert_eq!(rewritten, "mymod\n205");
    let again = read_mod_record("mymod_1.1.0", Some(&rewritten)).unwrap();
    assert_eq!(again.installed_file_id, Some("205".to_string()));
    assert_eq!(
        resolve_mod_update(page, again.installed_file_id.as_deref(), false),
        Ok(ModDecision::UpToDate)
    );
}

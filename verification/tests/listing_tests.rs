use vs_updater::listing::{
    classify_link, collect_candidates, decide_for_record, decide_update, is_pre_release,
    judge_links,
    links_from_groups, links_matching, resolve_from_links, resolve_mod_update, select_newest,
    LinkProblem, ModDecision, ModError, ModRelease, LINK_PATTERN,
};
use vs_updater::utils::Utils;

fn release(file_id: i64, file_name: &str) -> ModRelease {
    ModRelease { file_id, file_name: file_name.to_string() }
}

fn strings(items: &[&str]) -> Vec<String> {
    items.iter().map(|s| s.to_string()).collect()
}

const PAGE: &str = "<html><body>\n<a class=\"dl\" href=\"/download/100/mod_1.0.0.zip\">1.0.0</a>\n<a href=\"/about\">about</a>\n<a href=\"/download/205/mod_1.1.0.zip\">1.1.0</a>\n</body></html>";

#[test]
fn extracts_download_links_in_page_order() {
    assert_eq!(
        Utils::extract_download_links(PAGE),
        Some(strings(&["/download/100/mod_1.0.0.zip", "/download/205/mod_1.1.0.zip"]))
    );
}

#[test]
fn extracts_only_the_link_and_not_the_attribute() {
    let links = Utils::extract_download_links("x href=\"/download/7/a.zip\" y").unwrap();
    assert_eq!(links, strings(&["/download/7/a.zip"]));
}

#[test]
fn extracts_nothing_from_a_page_without_download_links() {
    assert_eq!(Utils::extract_download_links(""), Some(Vec::new()));
    assert_eq!(Utils::extract_download_links("<a href=\"/show/mod/1\">x</a>"), Some(Vec::new()));
    assert_eq!(Utils::extract_download_links("href='/download/1/a.zip'"), Some(Vec::new()));
}

#[test]
fn extracts_a_bare_download_root() {
    assert_eq!(Utils::extract_download_links("href=\"/download/\""), Some(strings(&["/download/"])));
}

#[test]
fn a_pattern_that_does_not_compile_is_refused() {
    assert_eq!(links_matching("href=\"(/download/", "href=\"/download/1/a.zip\""), None);
    assert_eq!(links_matching("(", ""), None);
}

#[test]
fn a_group_that_takes_no_part_gives_no_link() {
    assert_eq!(
        links_matching("a(b)?", "ab a ab"),
        Some(strings(&["b", "b"]))
    );
    assert_eq!(links_matching("abc", "abc abc"), Some(Vec::new()));
    assert_eq!(links_matching("x(y*)", "x xyy"), Some(strings(&["", "yy"])));
}

#[test]
fn link_pattern_is_the_download_href() {
    assert_eq!(LINK_PATTERN, r#"href="(/download/[^"]*)""#);
    assert_eq!(
        links_matching(LINK_PATTERN, "<a href=\"/download/9/z.zip\">"),
        Utils::extract_download_links("<a href=\"/download/9/z.zip\">")
    );
}

#[test]
fn keeps_the_groups_that_took_part() {
    let groups = vec![Some("a".to_string()), None, Some("b".to_string()), None];
    assert_eq!(links_from_groups(groups), strings(&["a", "b"]));
    assert_eq!(links_from_groups(Vec::new()), Vec::<String>::new());
}

#[test]
fn takes_a_link_apart() {
    assert_eq!(
        Utils::extract_id_and_filename("/download/100/mod_1.0.0.zip"),
        Some(("100".to_string(), "mod_1.0.0.zip".to_string()))
    );
}

#[test]
fn takes_the_third_and_fourth_piece_of_a_longer_link() {
    assert_eq!(
        Utils::extract_id_and_filename("/download/5/name.zip/extra/more"),
        Some(("5".to_string(), "name.zip".to_string()))
    );
    assert_eq!(
        Utils::extract_id_and_filename("a/b//"),
        Some(("".to_string(), "".to_string()))
    );
}

#[test]
fn refuses_a_link_with_too_few_pieces() {
    assert_eq!(Utils::extract_id_and_filename("/download/100"), None);
    assert_eq!(Utils::extract_id_and_filename("/download/"), None);
    assert_eq!(Utils::extract_id_and_filename(""), None);
}

#[test]
fn recognises_pre_release_names() {
    assert!(is_pre_release("mod-pre_2.0.0.zip"));
    assert!(is_pre_release("mod_2.0.0-rc.1.zip"));
    assert!(is_pre_release("-rc"));
    assert!(!is_pre_release("mod_1.9.0.zip"));
    assert!(!is_pre_release("mod-pr_e.zip"));
    assert!(!is_pre_release(""));
}

#[test]
fn classifies_each_kind_of_link() {
    assert_eq!(classify_link("/download/12/a_1.zip", false), Ok(release(12, "a_1.zip")));
    assert_eq!(classify_link("/download/12", false), Err(LinkProblem::BadShape));
    assert_eq!(classify_link("/download/x12/a_1.zip", false), Err(LinkProblem::BadId));
    assert_eq!(classify_link("/download//a_1.zip", true), Err(LinkProblem::BadId));
    assert_eq!(classify_link("/download/12/a-pre_1.zip", true), Err(LinkProblem::PreRelease));
    assert_eq!(classify_link("/download/12/a-pre_1.zip", false), Ok(release(12, "a-pre_1.zip")));
    assert_eq!(classify_link("/download/zz/a-rc1.zip", true), Err(LinkProblem::PreRelease));
}

#[test]
fn reads_ids_over_the_whole_range() {
    assert_eq!(
        classify_link("/download/9223372036854775807/a", false),
        Ok(release(i64::MAX, "a"))
    );
    assert_eq!(
        classify_link("/download/-9223372036854775808/a", false),
        Ok(release(i64::MIN, "a"))
    );
    assert_eq!(classify_link("/download/+7/a", false), Ok(release(7, "a")));
    assert_eq!(classify_link("/download/-5/a", false), Ok(release(-5, "a")));
    assert_eq!(classify_link("/download/007/a", false), Ok(release(7, "a")));
    assert_eq!(
        classify_link("/download/9223372036854775808/a", false),
        Err(LinkProblem::BadId)
    );
    assert_eq!(
        classify_link("/download/-9223372036854775809/a", false),
        Err(LinkProblem::BadId)
    );
    assert_eq!(classify_link("/download/-/a", false), Err(LinkProblem::BadId));
    assert_eq!(classify_link("/download/+/a", false), Err(LinkProblem::BadId));
    assert_eq!(classify_link("/download/1 /a", false), Err(LinkProblem::BadId));
}

#[test]
fn collects_candidates_in_link_order() {
    let links = strings(&["/download/3/c.zip", "/bad", "/download/x/d.zip", "/download/1/a-rc.zip"]);
    assert_eq!(
        collect_candidates(&links, false),
        vec![release(3, "c.zip"), release(1, "a-rc.zip")]
    );
    assert_eq!(collect_candidates(&links, true), vec![release(3, "c.zip")]);
}

#[test]
fn judges_every_link_in_order() {
    let links = strings(&["/download/3/c.zip", "/bad", "/download/x/d.zip", "/download/1/a-rc.zip"]);
    assert_eq!(
        judge_links(&links, true),
        vec![
            Ok(release(3, "c.zip")),
            Err(LinkProblem::BadShape),
            Err(LinkProblem::BadId),
            Err(LinkProblem::PreRelease),
        ]
    );
    assert_eq!(judge_links(&Vec::new(), true), Vec::new());
}

#[test]
fn selects_the_greatest_id() {
    let candidates = vec![release(100, "mod_1.0.0.zip"), release(205, "mod_1.1.0.zip")];
    assert_eq!(select_newest(&candidates), Some(release(205, "mod_1.1.0.zip")));
    let candidates = vec![release(205, "mod_1.1.0.zip"), release(100, "mod_1.0.0.zip")];
    assert_eq!(select_newest(&candidates), Some(release(205, "mod_1.1.0.zip")));
    assert_eq!(select_newest(&vec![release(-3, "x"), release(-7, "y")]), Some(release(-3, "x")));
}

#[test]
fn selects_the_last_of_equal_ids() {
    let candidates = vec![release(5, "first.zip"), release(2, "low.zip"), release(5, "second.zip")];
    assert_eq!(select_newest(&candidates), Some(release(5, "second.zip")));
}

#[test]
fn selects_nothing_from_no_candidates() {
    assert_eq!(select_newest(&Vec::new()), None);
}

#[test]
fn decides_by_the_recorded_file_id() {
    let newest = release(205, "mod_1.1.0.zip");
    assert_eq!(decide_update("100", Some(newest.clone())), Ok(ModDecision::Update(newest.clone())));
    assert_eq!(decide_update("205", Some(newest.clone())), Ok(ModDecision::UpToDate));
    assert_eq!(decide_update("206", Some(newest.clone())), Ok(ModDecision::UpToDate));
    assert_eq!(decide_update("", Some(newest.clone())), Ok(ModDecision::Update(newest.clone())));
    assert_eq!(decide_update("abc", Some(newest.clone())), Ok(ModDecision::Update(newest)));
    assert_eq!(decide_update("100", None), Err(ModError::NoCandidateFound));
}

#[test]
fn a_record_without_a_file_id_is_older_than_any_release() {
    let newest = release(205, "mod_1.1.0.zip");
    assert_eq!(
        decide_for_record(None, Some(newest.clone())),
        Ok(ModDecision::Update(newest.clone()))
    );
    assert_eq!(
        decide_for_record(None, Some(release(i64::MIN, "oldest.zip"))),
        Ok(ModDecision::Update(release(i64::MIN, "oldest.zip")))
    );
    assert_eq!(decide_for_record(None, None), Err(ModError::NoCandidateFound));
    assert_eq!(decide_for_record(Some("205"), Some(newest.clone())), Ok(ModDecision::UpToDate));
    assert_eq!(
        decide_for_record(Some("204"), Some(newest.clone())),
        Ok(ModDecision::Update(newest))
    );
    assert_eq!(decide_for_record(Some("1"), None), Err(ModError::NoCandidateFound));
}

#[test]
fn a_one_line_record_leads_to_an_update() {
    let page = "<a href=\"/download/205/mod_1.1.0.zip\">get</a>";
    assert_eq!(
        resolve_mod_update(page, None, false),
        Ok(ModDecision::Update(release(205, "mod_1.1.0.zip")))
    );
    assert_eq!(
        resolve_from_links(&strings(&["/download/-7/old.zip"]), None, true),
        Ok(ModDecision::Update(release(-7, "old.zip")))
    );
    assert_eq!(resolve_mod_update("", None, false), Err(ModError::NoCandidateFound));
}

#[test]
fn listing_with_two_links_selects_the_newer() {
    assert_eq!(
        resolve_mod_update(PAGE, Some("100"), false),
        Ok(ModDecision::Update(release(205, "mod_1.1.0.zip")))
    );
    assert_eq!(
        resolve_mod_update(PAGE, Some(""), true),
        Ok(ModDecision::Update(release(205, "mod_1.1.0.zip")))
    );
}

#[test]
fn stable_only_skips_pre_releases() {
    let links = strings(&["/download/300/mod-pre_2.0.0.zip", "/download/299/mod_1.9.0.zip"]);
    assert_eq!(
        resolve_from_links(&links, Some("1"), true),
        Ok(ModDecision::Update(release(299, "mod_1.9.0.zip")))
    );
    assert_eq!(
        resolve_from_links(&links, Some("1"), false),
        Ok(ModDecision::Update(release(300, "mod-pre_2.0.0.zip")))
    );
    let page = "href=\"/download/300/mod-pre_2.0.0.zip\" href=\"/download/299/mod_1.9.0.zip\"";
    assert_eq!(
        resolve_mod_update(page, Some("1"), true),
        Ok(ModDecision::Update(release(299, "mod_1.9.0.zip")))
    );
}

#[test]
fn installed_file_as_new_as_the_listing_needs_no_update() {
    assert_eq!(resolve_mod_update(PAGE, Some("205"), false), Ok(ModDecision::UpToDate));
    assert_eq!(resolve_mod_update(PAGE, Some("9000"), false), Ok(ModDecision::UpToDate));
}

#[test]
fn listing_without_candidates_fails() {
    assert_eq!(resolve_mod_update("<html></html>", Some("1"), false), Err(ModError::NoCandidateFound));
    assert_eq!(
        resolve_mod_update("href=\"/download/abc/mod.zip\" href=\"/download/\"", Some("1"), false),
        Err(ModError::NoCandidateFound)
    );
    assert_eq!(
        resolve_mod_update("href=\"/download/8/mod-rc1.zip\"", Some("1"), true),
        Err(ModError::NoCandidateFound)
    );
    assert_eq!(resolve_from_links(&Vec::new(), Some("1"), false), Err(ModError::NoCandidateFound));
}

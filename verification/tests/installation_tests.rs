use std::cell::RefCell;
use vs_updater::installation::{
    download_url, mod_download_url, mod_page_url, resolve_game_update, version_from_marker,
    GameResolution, BASE_URL, MARKER_PREFIX, MODS_URL,
};
use vs_updater::orchestrator::Finding;
use vs_updater::prober::ProbeError;
use vs_updater::utils::Utils;
use vs_updater::version::GameVersion;

fn strings(items: &[&str]) -> Vec<String> {
    items.iter().map(|s| s.to_string()).collect()
}

#[test]
fn marker_gives_the_version_text() {
    assert_eq!(version_from_marker("version-1.19.3.txt"), Some("1.19.3.txt".to_string()));
    assert_eq!(version_from_marker("version-1.19.3"), Some("1.19.3".to_string()));
    assert_eq!(version_from_marker("version-"), Some("".to_string()));
    assert_eq!(version_from_marker("version-version-1.0.0"), Some("1.0.0".to_string()));
    assert_eq!(version_from_marker("version-version"), Some("version".to_string()));
    assert_eq!(version_from_marker("Version-1.0.0"), None);
    assert_eq!(version_from_marker("version"), None);
    assert_eq!(version_from_marker("a-version-1.0.0"), None);
    assert_eq!(version_from_marker(""), None);
    assert_eq!(MARKER_PREFIX, "version-");
}

#[test]
fn installed_version_is_read_from_the_first_marker() {
    let names = strings(&["game", "version-1.19.3.txt", "survival", "version-2.0.0"]);
    assert_eq!(Utils::get_game_version(&names), Some("1.19.3.txt".to_string()));
    assert_eq!(
        GameVersion::from_str(&Utils::get_game_version(&names).unwrap()),
        Some(GameVersion { major: 1, minor: 19, patch: 3 })
    );
    assert_eq!(Utils::get_game_version(&strings(&["game", "survival"])), None);
    assert_eq!(Utils::get_game_version(&Vec::new()), None);
}

#[test]
fn only_a_yes_confirms_the_deletion() {
    assert!(Utils::check_temp_folder("y"));
    assert!(Utils::check_temp_folder("Y"));
    assert!(Utils::check_temp_folder("  y \r\n"));
    assert!(Utils::check_temp_folder("\u{2003}Y\t"));
    assert!(!Utils::check_temp_folder("n"));
    assert!(!Utils::check_temp_folder(""));
    assert!(!Utils::check_temp_folder("\n"));
    assert!(!Utils::check_temp_folder("yes"));
    assert!(!Utils::check_temp_folder("y y"));
}

#[test]
fn game_addresses() {
    let v = GameVersion { major: 1, minor: 19, patch: 3 };
    assert_eq!(
        download_url("vs_server_linux-x64_", &v, ".tar.gz"),
        "https://cdn.vintagestory.at/gamefiles/stable/vs_server_linux-x64_1.19.3.tar.gz"
    );
    assert_eq!(download_url("", &GameVersion::zero(), ""), format!("{}0.0.0", BASE_URL));
    assert_eq!(BASE_URL, "https://cdn.vintagestory.at/gamefiles/stable/");
    assert_eq!(MODS_URL, "https://mods.vintagestory.at/");
}

fn ver(major: u32, minor: u32, patch: u32) -> GameVersion {
    GameVersion { major, minor, patch }
}

fn artifact(v: GameVersion) -> String {
    download_url("vs_server_linux-x64_", &v, ".tar.gz")
}

#[test]
fn newer_release_is_resolved_at_the_address_it_is_downloaded_from() {
    let there = [artifact(ver(1, 19, 2)), artifact(ver(1, 19, 3))];
    let out = resolve_game_update(ver(1, 19, 2), "vs_server_linux-x64_", ".tar.gz", |url| {
        there.contains(&url)
    });
    assert_eq!(
        out,
        Ok(GameResolution::Update { version: ver(1, 19, 3), url: artifact(ver(1, 19, 3)) })
    );
    assert_eq!(
        artifact(ver(1, 19, 3)),
        "https://cdn.vintagestory.at/gamefiles/stable/vs_server_linux-x64_1.19.3.tar.gz"
    );
    assert_eq!(out.unwrap().finding(), Finding::Update);
}

#[test]
fn every_version_is_asked_about_at_its_own_archive() {
    let asked: RefCell<Vec<String>> = RefCell::new(Vec::new());
    let out = resolve_game_update(ver(1, 0, 0), "vs_client_linux-x64_", ".tar.gz", |url| {
        asked.borrow_mut().push(url.clone());
        url.ends_with("_1.0.0.tar.gz") || url.ends_with("_1.1.0.tar.gz")
    });
    let expected: Vec<String> = [
        ver(1, 0, 0),
        ver(1, 0, 1),
        ver(1, 1, 0),
        ver(1, 1, 1),
        ver(2, 0, 0),
        ver(2, 1, 0),
    ]
    .iter()
    .map(|v| download_url("vs_client_linux-x64_", v, ".tar.gz"))
    .collect();
    assert_eq!(asked.into_inner(), expected);
    assert_eq!(
        out,
        Ok(GameResolution::Update {
            version: ver(1, 1, 0),
            url: download_url("vs_client_linux-x64_", &ver(1, 1, 0), ".tar.gz"),
        })
    );
}

#[test]
fn installed_latest_resolves_to_nothing_to_do() {
    let only = artifact(ver(1, 19, 2));
    let out =
        resolve_game_update(ver(1, 19, 2), "vs_server_linux-x64_", ".tar.gz", |url| url == only);
    assert_eq!(out, Ok(GameResolution::UpToDate));
    assert_eq!(GameResolution::UpToDate.finding(), Finding::UpToDate);
}

#[test]
fn no_release_resolves_to_not_found() {
    let out = resolve_game_update(ver(2, 0, 0), "vs_server_win-x64_", ".zip", |_| false);
    assert_eq!(out, Ok(GameResolution::NotFound));
    assert_eq!(GameResolution::NotFound.finding(), Finding::NotFound);
}

#[test]
fn a_release_at_another_address_is_not_found() {
    let elsewhere = format!("{}vs_server_linux-x64_1.19.3.tar.gz", MODS_URL);
    let out = resolve_game_update(ver(1, 19, 2), "vs_server_linux-x64_", ".tar.gz", |url| {
        url == elsewhere
    });
    assert_eq!(out, Ok(GameResolution::NotFound));
}

#[test]
fn a_search_past_the_largest_number_is_an_error() {
    let out = resolve_game_update(ver(1, 0, u32::MAX), "a", "b", |_| true);
    assert_eq!(out, Err(ProbeError::OutOfRange));
}

#[test]
fn mod_addresses() {
    assert_eq!(mod_page_url("carrycapacity"), "https://mods.vintagestory.at/carrycapacity");
    assert_eq!(
        mod_download_url(205, "mod_1.1.0.zip"),
        "https://mods.vintagestory.at/download/205/mod_1.1.0.zip"
    );
    assert_eq!(mod_download_url(-1, ""), "https://mods.vintagestory.at/download/-1/");
}

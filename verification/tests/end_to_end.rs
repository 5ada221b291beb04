use vs_updater::installation::{download_url, resolve_game_update, GameResolution};
use vs_updater::names::NameSet;
use vs_updater::orchestrator::{exit_code, Action, Event, Outcome, Phase, Run, Target};
use vs_updater::platform::file_name_from_url;
use vs_updater::quarantine::Workspace;
use vs_updater::utils::Utils;
use vs_updater::version::GameVersion;

fn strings(items: &[&str]) -> Vec<String> {
    items.iter().map(|s| s.to_string()).collect()
}

fn sorted(set: &NameSet) -> Vec<String> {
    let mut names = set.names.clone();
    names.sort();
    names
}

struct Installation {
    workspace: Workspace,
    assets: Vec<String>,
    ignored: Vec<String>,
    available: Vec<GameVersion>,
    target_url: Option<String>,
    archive: Option<String>,
    actions: Vec<Action>,
}

impl Installation {
    fn perform(&mut self, action: Action) -> Event {
        self.actions.push(action);
        match action {
            Action::Quarantine => match self.workspace.quarantine(&self.ignored) {
                Ok(_) => Event::Succeeded,
                Err(_) => Event::Failed,
            },
            Action::Resolve => {
                let installed = match Utils::get_game_version(&self.assets)
                    .and_then(|text| GameVersion::from_str(&text))
                {
                    Some(v) => v,
                    None => return Event::Failed,
                };
                let there: Vec<String> = self
                    .available
                    .iter()
                    .map(|v| download_url("vs_server_linux-x64_", v, ".tar.gz"))
                    .collect();
                let resolved = resolve_game_update(
                    installed,
                    "vs_server_linux-x64_",
                    ".tar.gz",
                    |url| there.contains(&url),
                );
                match resolved {
                    Ok(resolution) => {
                        let finding = resolution.finding();
                        if let GameResolution::Update { url, .. } = resolution {
                            self.target_url = Some(url);
                        }
                        Event::Resolved(finding)
                    }
                    Err(_) => Event::Failed,
                }
            }
            Action::Wipe => {
                self.workspace.wipe(&Some("updater".to_string()));
                self.assets.clear();
                Event::Succeeded
            }
            Action::Download => {
                let name = file_name_from_url(self.target_url.as_ref().unwrap());
                self.workspace.working.insert(name.clone());
                self.archive = Some(name);
                Event::Succeeded
            }
            Action::Extract => {
                let archive = self.archive.clone().unwrap();
                let version = archive
                    .trim_start_matches("vs_server_linux-x64_")
                    .trim_end_matches(".tar.gz")
                    .to_string();
                for name in ["assets", "Lib", "Mods"] {
                    self.workspace.working.insert(name.to_string());
                }
                self.assets = vec!["game".to_string(), format!("version-{}", version)];
                Event::Succeeded
            }
            Action::Restore => {
                self.workspace.restore();
                if let Some(archive) = self.archive.take() {
                    self.workspace.working.remove(&archive);
                }
                Event::Succeeded
            }
            Action::Finalize => Event::Succeeded,
        }
    }

    fn run(&mut self) -> Run {
        let mut run = Run::new(Target::Installation);
        while let Some(action) = run.pending_action() {
            let event = self.perform(action);
            run = run.advance(event);
        }
        run
    }
}

fn installation(available: &[GameVersion]) -> Installation {
    Installation {
        workspace: Workspace::new(&strings(&["assets", "Mods", "serverconfig.json", "Lib", "updater"])),
        assets: strings(&["game", "version-1.19.2.txt"]),
        ignored: strings(&["Mods", "serverconfig.json"]),
        available: available.to_vec(),
        target_url: None,
        archive: None,
        actions: Vec::new(),
    }
}

#[test]
fn newer_patch_is_installed_and_ignored_entries_come_back() {
    let v2 = GameVersion { major: 1, minor: 19, patch: 2 };
    let v3 = GameVersion { major: 1, minor: 19, patch: 3 };
    let mut site = installation(&[v2, v3]);
    let run = site.run();
    assert_eq!(run.phase, Phase::Done);
    assert_eq!(run.outcome(), Some(Outcome::Updated));
    assert_eq!(exit_code(run.outcome().unwrap()), 0);
    assert_eq!(
        site.actions,
        vec![
            Action::Quarantine,
            Action::Resolve,
            Action::Wipe,
            Action::Download,
            Action::Extract,
            Action::Restore,
            Action::Finalize,
        ]
    );
    assert_eq!(
        site.target_url,
        Some(
            "https://cdn.vintagestory.at/gamefiles/stable/vs_server_linux-x64_1.19.3.tar.gz"
                .to_string()
        )
    );
    assert_eq!(
        sorted(&site.workspace.working),
        strings(&["Lib", "Mods", "assets", "serverconfig.json", "updater"])
    );
    assert!(site.workspace.holding.names.is_empty());
    assert_eq!(Utils::get_game_version(&site.assets), Some("1.19.3".to_string()));
    assert_eq!(GameVersion::from_str(&Utils::get_game_version(&site.assets).unwrap()), Some(v3));
}

#[test]
fn installed_latest_means_no_wipe_and_no_download() {
    let v2 = GameVersion { major: 1, minor: 19, patch: 2 };
    let mut site = installation(&[v2]);
    let run = site.run();
    assert_eq!(run.phase, Phase::Done);
    assert_eq!(run.outcome(), Some(Outcome::UpToDate));
    assert_eq!(exit_code(run.outcome().unwrap()), 0);
    assert_eq!(site.actions, vec![Action::Quarantine, Action::Resolve, Action::Restore]);
    assert_eq!(
        sorted(&site.workspace.working),
        strings(&["Lib", "Mods", "assets", "serverconfig.json", "updater"])
    );
    assert!(site.workspace.holding.names.is_empty());
    assert_eq!(site.assets, strings(&["game", "version-1.19.2.txt"]));
}

#[test]
fn no_release_at_all_means_no_wipe_either() {
    let mut site = installation(&[]);
    let run = site.run();
    assert_eq!(run.outcome(), Some(Outcome::NotFound));
    assert_eq!(site.actions, vec![Action::Quarantine, Action::Resolve, Action::Restore]);
    assert!(site.workspace.holding.names.is_empty());
}

#[test]
fn unmovable_ignored_path_aborts_before_anything_changes() {
    let v2 = GameVersion { major: 1, minor: 19, patch: 2 };
    let v3 = GameVersion { major: 1, minor: 19, patch: 3 };
    let mut site = installation(&[v2, v3]);
    site.ignored = strings(&["Mods", "Saves"]);
    let run = site.run();
    assert_eq!(run.outcome(), Some(Outcome::AbortedSafely));
    assert_eq!(exit_code(run.outcome().unwrap()), 1);
    assert_eq!(site.actions, vec![Action::Quarantine]);
    assert_eq!(
        sorted(&site.workspace.working),
        strings(&["Lib", "Mods", "assets", "serverconfig.json", "updater"])
    );
}

#[test]
fn unreadable_installed_version_aborts_before_the_wipe() {
    let mut site = installation(&[]);
    site.assets = strings(&["game", "version-one.two"]);
    let run = site.run();
    assert_eq!(run.outcome(), Some(Outcome::AbortedSafely));
    assert_eq!(site.actions, vec![Action::Quarantine, Action::Resolve]);
}

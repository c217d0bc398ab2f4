use std::collections::BTreeMap;

use gitpic::models::{
    AppError, Profiles, Provider, RepositoryProfile, SettingsBootstrap, StoredSettings, Visibility,
};
use gitpic::procedure::Step;
use gitpic::settings::{
    credential_entry, load_bootstrap, load_settings, load_token, save_profile, save_token,
    Bootstrapping, ProfileSave, SettingsFile, StoreReply, StoreRequest, TokenLookup, TokenSave,
};

fn profile(provider: Provider, name: &str) -> RepositoryProfile {
    RepositoryProfile {
        provider,
        username: "octocat".into(),
        repository_name: name.into(),
        visibility: Visibility::Private,
    }
}

fn bootstrapped(
    replies: Vec<StoreReply>,
) -> (Vec<String>, Option<Result<SettingsBootstrap, String>>) {
    let mut machine: Bootstrapping = load_bootstrap();
    let mut requests = Vec::new();
    for reply in replies {
        requests.push(match machine.request() {
            StoreRequest::ReadSettings { file } => file,
            StoreRequest::ReadToken { entry } => entry.account,
            other => panic!("{other:?}"),
        });
        match machine.resume(reply) {
            Step::Continue(next) => machine = next,
            Step::Finish(result) => return (requests, Some(result.map_err(|error| error.text()))),
        }
    }
    (requests, None)
}

#[test]
fn tokens_are_kept_by_provider() {
    let entry = credential_entry(Provider::Github);
    assert_eq!(entry.service, "com.gitpic.crossplatform");
    assert_eq!(entry.account, "github");
    assert_eq!(credential_entry(Provider::Gitlab).account, "gitlab");
}

#[test]
fn saved_tokens_are_found_again() {
    let mut store: BTreeMap<(String, String), String> = BTreeMap::new();
    for (provider, token) in [(Provider::Github, "a"), (Provider::Gitlab, "b")] {
        let entry = credential_entry(provider);
        store.insert((entry.service, entry.account), token.into());
        assert!(save_token(provider, TokenSave::Saved).is_ok());
    }
    for (provider, token) in [(Provider::Github, "a"), (Provider::Gitlab, "b")] {
        let entry = credential_entry(provider);
        let found = store[&(entry.service, entry.account)].clone();
        let loaded = load_token(provider, TokenLookup::Found(found)).unwrap();
        assert_eq!(loaded.as_deref(), Some(token));
    }
}

#[test]
fn token_lookups_are_understood() {
    let load = |lookup| load_token(Provider::Github, lookup).map_err(|error| error.text());
    assert_eq!(load(TokenLookup::Found("t".into())), Ok(Some("t".into())));
    assert_eq!(load(TokenLookup::Missing), Ok(None));
    assert_eq!(
        load(TokenLookup::Failed("locked".into())),
        Err("Could not read the GitHub token from the operating system credential store: locked"
            .into())
    );
    assert_eq!(
        load(TokenLookup::Unavailable("none".into())),
        Err("The operating system credential store is unavailable: none".into())
    );
}

#[test]
fn token_saves_are_understood() {
    let save = |outcome| save_token(Provider::Gitlab, outcome).map_err(|error| error.text());
    assert_eq!(save(TokenSave::Saved), Ok(()));
    assert_eq!(
        save(TokenSave::Failed("full".into())),
        Err("Could not save the GitLab token in the operating system credential store: full".into())
    );
    assert_eq!(
        save(TokenSave::Unavailable("none".into())),
        Err("The operating system credential store is unavailable: none".into())
    );
}

#[test]
fn settings_are_loaded_or_start_empty() {
    let empty = load_settings(SettingsFile::Missing).unwrap();
    assert_eq!(empty.selected_provider, Provider::Github);
    assert!(empty.profiles.entries().is_empty());

    let mut stored = StoredSettings::default();
    stored.store(&profile(Provider::Gitlab, "lab"));
    let loaded = load_settings(SettingsFile::Read(stored)).unwrap();
    assert_eq!(loaded.selected_provider, Provider::Gitlab);
    assert_eq!(loaded.profiles.entries().len(), 1);

    assert_eq!(
        load_settings(SettingsFile::Unlocated("no home".into())).unwrap_err().text(),
        "Could not locate the app settings folder: no home"
    );
    assert_eq!(
        load_settings(SettingsFile::Failed(AppError::Json("EOF".into()))).unwrap_err().text(),
        "Saved settings are invalid: EOF"
    );
}

#[test]
fn bootstraps_list_profiles_by_provider() {
    let mut profiles = Profiles::new();
    profiles.insert("b", profile(Provider::Github, "second"));
    profiles.insert("a", profile(Provider::Gitlab, "third"));
    profiles.insert("c", profile(Provider::Gitlab, "fourth"));
    profiles.insert("aa", profile(Provider::Github, "first"));
    let settings = StoredSettings { selected_provider: Provider::Gitlab, profiles };
    let (requests, result) = bootstrapped(vec![
        StoreReply::Settings(SettingsFile::Read(settings)),
        StoreReply::Token(TokenLookup::Missing),
        StoreReply::Token(TokenLookup::Found("t".into())),
    ]);
    assert_eq!(requests, vec!["settings.json", "github", "gitlab"]);
    let bootstrap = result.unwrap().unwrap();
    assert_eq!(bootstrap.selected_provider, Provider::Gitlab);
    assert_eq!(bootstrap.token_providers, vec![Provider::Gitlab]);
    let names: Vec<&str> = bootstrap
        .profiles
        .iter()
        .map(|profile| profile.repository_name.as_str())
        .collect();
    assert_eq!(names, vec!["first", "second", "third", "fourth"]);
}

#[test]
fn bootstraps_name_the_providers_with_a_token() {
    let (_, result) = bootstrapped(vec![
        StoreReply::Settings(SettingsFile::Missing),
        StoreReply::Exists(true),
        StoreReply::Token(TokenLookup::Found("a".into())),
        StoreReply::Token(TokenLookup::Found("b".into())),
    ]);
    let bootstrap = result.unwrap().unwrap();
    assert_eq!(bootstrap.token_providers, vec![Provider::Github, Provider::Gitlab]);
    assert!(bootstrap.profiles.is_empty());
}

#[test]
fn bootstraps_end_with_the_first_failure() {
    let (requests, result) = bootstrapped(vec![
        StoreReply::Settings(SettingsFile::Missing),
        StoreReply::Token(TokenLookup::Unavailable("none".into())),
    ]);
    assert_eq!(requests.len(), 2);
    assert_eq!(
        result.unwrap().unwrap_err(),
        "The operating system credential store is unavailable: none"
    );
    let (_, result) = bootstrapped(vec![StoreReply::Settings(SettingsFile::Unlocated("x".into()))]);
    assert_eq!(
        result.unwrap().unwrap_err(),
        "Could not locate the app settings folder: x"
    );
}

/// A folder of settings in memory, in which the request of a given number fails.
struct Folder {
    files: BTreeMap<String, StoredSettings>,
    failing: Option<usize>,
    log: Vec<String>,
}

impl Folder {
    fn reply(&mut self, request: StoreRequest) -> StoreReply {
        let number = self.log.len();
        let fails = self.failing == Some(number);
        let failed = || StoreReply::Done(Err(AppError::Io("disk".into())));
        match request {
            StoreRequest::ReadSettings { file } => {
                self.log.push(format!("read {file}"));
                StoreReply::Settings(match self.files.get(&file) {
                    _ if fails => SettingsFile::Failed(AppError::Io("disk".into())),
                    Some(settings) => SettingsFile::Read(settings.clone()),
                    None => SettingsFile::Missing,
                })
            }
            StoreRequest::Locate => {
                self.log.push("locate".into());
                StoreReply::Located(if fails { Some("gone".into()) } else { None })
            }
            StoreRequest::CreateFolder => {
                self.log.push("create".into());
                if fails {
                    return failed();
                }
                StoreReply::Done(Ok(()))
            }
            StoreRequest::Write { file, settings } => {
                self.log.push(format!("write {file}"));
                if fails {
                    self.files.insert(file, StoredSettings::default());
                    return failed();
                }
                self.files.insert(file, settings);
                StoreReply::Done(Ok(()))
            }
            StoreRequest::Probe { file } => {
                self.log.push(format!("probe {file}"));
                StoreReply::Exists(self.files.contains_key(&file))
            }
            StoreRequest::Remove { file } => {
                self.log.push(format!("remove {file}"));
                if fails {
                    return failed();
                }
                self.files.remove(&file).unwrap();
                StoreReply::Done(Ok(()))
            }
            StoreRequest::Rename { from, to } => {
                self.log.push(format!("rename {from} {to}"));
                if fails {
                    return failed();
                }
                let settings = self.files.remove(&from).unwrap();
                assert!(self.files.insert(to, settings).is_none());
                StoreReply::Done(Ok(()))
            }
            other => panic!("{other:?}"),
        }
    }

    fn save(&mut self, profile: &RepositoryProfile) -> Result<(), String> {
        let mut machine: ProfileSave = save_profile(profile);
        loop {
            let reply = self.reply(machine.request());
            match machine.resume(reply) {
                Step::Continue(next) => machine = next,
                Step::Finish(result) => return result.map_err(|error| error.text()),
            }
        }
    }
}

#[test]
fn saved_profiles_replace_the_file() {
    let mut folder = Folder { files: BTreeMap::new(), failing: None, log: vec![] };
    folder.save(&profile(Provider::Gitlab, "lab")).unwrap();
    assert_eq!(
        folder.log,
        vec![
            "read settings.json",
            "locate",
            "create",
            "write settings.json.tmp",
            "probe settings.json",
            "rename settings.json.tmp settings.json",
        ]
    );
    folder.log.clear();
    folder.save(&profile(Provider::Github, "hub")).unwrap();
    assert_eq!(folder.log[5], "remove settings.json");
    assert_eq!(folder.log.len(), 7);

    assert_eq!(folder.files.len(), 1);
    let kept = load_settings(SettingsFile::Read(folder.files["settings.json"].clone())).unwrap();
    assert_eq!(kept.selected().unwrap().repository_name, "hub");
    assert_eq!(kept.profiles.get("gitlab").unwrap().repository_name, "lab");
}

#[test]
fn failures_lose_no_settings() {
    for failing in [0, 1, 2, 3, 5, 6] {
        let mut folder = Folder { files: BTreeMap::new(), failing: None, log: vec![] };
        folder.save(&profile(Provider::Github, "old")).unwrap();
        folder.failing = Some(failing);
        folder.log.clear();
        let error = folder.save(&profile(Provider::Github, "new")).unwrap_err();
        if failing == 1 {
            assert_eq!(error, "Could not locate the app settings folder: gone");
        } else {
            assert_eq!(error, "File operation failed: disk");
        }
        assert_eq!(folder.log.len(), failing + 1);
        if failing == 6 {
            let kept = &folder.files["settings.json.tmp"];
            assert_eq!(kept.selected().unwrap().repository_name, "new");
        } else {
            let kept = &folder.files["settings.json"];
            assert_eq!(kept.selected().unwrap().repository_name, "old");
        }
    }
}

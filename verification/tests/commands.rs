use gitpic::commands::{
    choose_target, repositories_folder, repositories_unlocated, save_settings, CachedRepository,
    CommandReply, CommandRequest, SettingsSave, TargetChoice, UploadTarget,
};
use gitpic::models::{
    AppError, Provider, RepositoryInfo, RepositoryProfile, StoredSettings, Visibility,
};
use gitpic::procedure::Step;
use gitpic::providers::{Content, GitHubRepository, ProviderReply};
use gitpic::settings::{SettingsFile, StoreReply, StoreRequest, TokenLookup, TokenSave};

fn profile(name: &str) -> RepositoryProfile {
    RepositoryProfile {
        provider: Provider::Github,
        username: "octocat".into(),
        repository_name: name.into(),
        visibility: Visibility::Private,
    }
}

fn info(name: &str) -> RepositoryInfo {
    RepositoryInfo {
        provider: Provider::Github,
        owner: "octocat".into(),
        name: name.into(),
        clone_url: "https://github.com/octocat/photos.git".into(),
        web_url: "https://github.com/octocat/photos".into(),
        default_branch: "main".into(),
    }
}

fn user() -> CommandReply {
    CommandReply::Provider(ProviderReply::Response {
        status: 200,
        body: "{}".into(),
        content: Some(Content::User("octocat".into())),
    })
}

fn repository() -> CommandReply {
    CommandReply::Provider(ProviderReply::Response {
        status: 200,
        body: "{}".into(),
        content: Some(Content::GitHub(GitHubRepository {
            name: "photos".into(),
            clone_url: "https://github.com/octocat/photos.git".into(),
            html_url: "https://github.com/octocat/photos".into(),
            default_branch: None,
            owner: "octocat".into(),
        })),
    })
}

fn store(reply: StoreReply) -> CommandReply {
    CommandReply::Store(reply)
}

fn done() -> CommandReply {
    store(StoreReply::Done(Ok(())))
}

fn stored(name: &str) -> CommandReply {
    let mut settings = StoredSettings::default();
    settings.store(&profile(name));
    store(StoreReply::Settings(SettingsFile::Read(settings)))
}

fn found(token: &str) -> CommandReply {
    store(StoreReply::Token(TokenLookup::Found(token.into())))
}

fn described(request: CommandRequest) -> String {
    match request {
        CommandRequest::Store(request) => match request {
            StoreRequest::ReadSettings { file } => format!("read {file}"),
            StoreRequest::ReadToken { entry } => format!("token {}", entry.account),
            StoreRequest::SaveToken { entry, token } => {
                format!("save {} {} {token}", entry.service, entry.account)
            }
            StoreRequest::Write { file, settings } => {
                format!("write {file} {}", settings.selected().unwrap().repository_name)
            }
            other => format!("{other:?}").to_lowercase(),
        },
        CommandRequest::Provider { request, token } => format!("{} {token}", request.url),
        CommandRequest::Recall => "recall".into(),
        CommandRequest::Remember(cached) => {
            format!("remember {} {}", cached.profile.repository_name, cached.repository.name)
        }
    }
}

fn run_save(
    profile: &RepositoryProfile,
    token: Option<&str>,
    replies: Vec<CommandReply>,
) -> (Vec<String>, Result<RepositoryInfo, String>) {
    let mut step: Step<SettingsSave, RepositoryInfo> =
        save_settings(profile, token.map(|text| text.to_owned()));
    let mut requests = Vec::new();
    let mut replies = replies.into_iter();
    loop {
        match step {
            Step::Continue(machine) => {
                requests.push(described(machine.request()));
                step = machine.resume(replies.next().expect("a reply"));
            }
            Step::Finish(result) => return (requests, result.map_err(|error| error.text())),
        }
    }
}

fn run_choice(replies: Vec<CommandReply>) -> (Vec<String>, Result<UploadTarget, String>) {
    let mut machine: TargetChoice = choose_target();
    let mut requests = Vec::new();
    for reply in replies {
        requests.push(described(machine.request()));
        match machine.resume(reply) {
            Step::Continue(next) => machine = next,
            Step::Finish(result) => return (requests, result.map_err(|error| error.text())),
        }
    }
    panic!("it goes on: {machine:?}")
}

fn saving_replies() -> Vec<CommandReply> {
    vec![
        store(StoreReply::Settings(SettingsFile::Missing)),
        store(StoreReply::Located(None)),
        done(),
        done(),
        store(StoreReply::Exists(false)),
        done(),
        CommandReply::Remembered,
    ]
}

#[test]
fn entered_tokens_are_saved_once_they_work() {
    let mut replies = vec![user(), repository(), store(StoreReply::TokenSaved(TokenSave::Saved))];
    replies.extend(saving_replies());
    let (requests, result) = run_save(&profile(" photos "), Some(" secret\n"), replies);
    assert!(result.unwrap() == info("photos"));
    assert_eq!(
        requests,
        vec![
            "https://api.github.com/user secret",
            "https://api.github.com/repos/octocat/photos secret",
            "save com.gitpic.crossplatform github secret",
            "read settings.json",
            "locate",
            "createfolder",
            "write settings.json.tmp photos",
            "probe { file: \"settings.json\" }",
            "rename { from: \"settings.json.tmp\", to: \"settings.json\" }",
            "remember photos photos",
        ]
    );
}

#[test]
fn saved_tokens_are_used_where_none_is_entered() {
    for entered in [None, Some(""), Some(" \t")] {
        let mut replies = vec![found("kept"), user(), repository()];
        replies.extend(saving_replies());
        let (requests, result) = run_save(&profile("photos"), entered, replies);
        assert!(result.is_ok());
        assert_eq!(requests[0], "token github");
        assert_eq!(requests[1], "https://api.github.com/user kept");
        assert_eq!(requests[3], "read settings.json");
        assert!(!requests.iter().any(|request| request.starts_with("save ")));
    }
}

#[test]
fn settings_are_refused_with_a_reason() {
    let (requests, result) = run_save(&profile("-x"), Some("t"), vec![]);
    assert!(requests.is_empty());
    assert!(result.unwrap_err().starts_with("Repository names must start with"));

    let missing = store(StoreReply::Token(TokenLookup::Missing));
    let (_, result) = run_save(&profile("photos"), None, vec![missing]);
    assert_eq!(
        result.unwrap_err(),
        "Enter a personal access token. Account passwords cannot be used for Git uploads."
    );

    let locked = store(StoreReply::Token(TokenLookup::Failed("locked".into())));
    let (_, result) = run_save(&profile("photos"), None, vec![locked]);
    assert_eq!(
        result.unwrap_err(),
        "Could not read the GitHub token from the operating system credential store: locked"
    );
}

#[test]
fn nothing_is_saved_where_the_provider_refuses() {
    let refused = CommandReply::Provider(ProviderReply::Response {
        status: 401,
        body: r#"{"message":"Bad credentials"}"#.into(),
        content: None,
    });
    let (requests, result) = run_save(&profile("photos"), Some("t"), vec![refused]);
    assert_eq!(requests, vec!["https://api.github.com/user t"]);
    assert_eq!(
        result.unwrap_err(),
        "GitHub rejected the credentials or token permissions: Bad credentials"
    );
}

#[test]
fn failures_to_save_end_the_command() {
    let full = store(StoreReply::TokenSaved(TokenSave::Failed("full".into())));
    let (_, result) = run_save(&profile("photos"), Some("t"), vec![user(), repository(), full]);
    assert_eq!(
        result.unwrap_err(),
        "Could not save the GitHub token in the operating system credential store: full"
    );
    let broken = store(StoreReply::Settings(SettingsFile::Failed(AppError::Json("EOF".into()))));
    let replies = vec![found("t"), user(), repository(), broken];
    let (_, result) = run_save(&profile("photos"), None, replies);
    assert_eq!(result.unwrap_err(), "Saved settings are invalid: EOF");
}

#[test]
fn uploads_go_to_the_remembered_repository() {
    let cached = CachedRepository { profile: profile("photos"), repository: info("photos") };
    let (requests, result) = run_choice(vec![
        stored("photos"),
        found("kept"),
        CommandReply::Recalled(Some(cached)),
    ]);
    assert_eq!(requests, vec!["read settings.json", "token github", "recall"]);
    let target = result.unwrap();
    assert!(target.repository == info("photos"));
    assert_eq!(target.credentials.username, "octocat");
    assert_eq!(target.credentials.token, "kept");
}

#[test]
fn uploads_look_for_a_repository_that_is_not_remembered() {
    let other = CachedRepository { profile: profile("other"), repository: info("other") };
    for recalled in [None, Some(other)] {
        let (requests, result) = run_choice(vec![
            stored("photos"),
            found("kept"),
            CommandReply::Recalled(recalled),
            user(),
            repository(),
            CommandReply::Remembered,
        ]);
        assert_eq!(
            requests[2..],
            [
                "recall",
                "https://api.github.com/user kept",
                "https://api.github.com/repos/octocat/photos kept",
                "remember photos photos",
            ]
        );
        assert!(result.unwrap().repository == info("photos"));
    }
}

#[test]
fn uploads_need_a_profile_and_a_token() {
    let nothing = store(StoreReply::Settings(SettingsFile::Missing));
    assert_eq!(
        run_choice(vec![nothing]).1.unwrap_err(),
        "Set up an account and repository before uploading images."
    );
    assert!(run_choice(vec![stored("-x")])
        .1
        .unwrap_err()
        .starts_with("Repository names must start with"));
    let missing = store(StoreReply::Token(TokenLookup::Missing));
    assert_eq!(
        run_choice(vec![stored("photos"), missing]).1.unwrap_err(),
        "The saved personal access token is missing."
    );
    let failed = CommandReply::Provider(ProviderReply::Failed(AppError::Http("offline".into())));
    assert_eq!(
        run_choice(vec![stored("photos"), found("t"), CommandReply::Recalled(None), failed])
            .1
            .unwrap_err(),
        "Network request failed: offline"
    );
}

#[test]
fn replies_of_another_kind_change_nothing() {
    let machine = choose_target().resume(CommandReply::Remembered);
    match machine {
        Step::Continue(next) => assert_eq!(described(next.request()), "read settings.json"),
        Step::Finish(result) => panic!("{result:?}"),
    }
}

#[test]
fn a_missing_data_folder_is_reported() {
    assert_eq!(repositories_folder(), "repositories");
    assert_eq!(
        repositories_unlocated("no home").text(),
        "Could not locate the application data folder: no home"
    );
}

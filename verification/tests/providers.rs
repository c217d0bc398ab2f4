use gitpic::models::{AppError, Provider, RepositoryInfo, RepositoryProfile, Visibility};
use gitpic::procedure::Step;
use gitpic::providers::{
    choose_message, decode_response, ensure_repository, provider_error_message, request_refused,
    Authorization, Content, EnsureRepository, Expected, GitHubRepository, GitLabProject, Method,
    NewRepository, ProviderReply,
};

fn profile(provider: Provider) -> RepositoryProfile {
    RepositoryProfile {
        provider,
        username: "OctoCat".into(),
        repository_name: "photo-lib".into(),
        visibility: Visibility::Private,
    }
}

fn response(status: u16, body: &str, content: Option<Content>) -> ProviderReply {
    ProviderReply::Response { status, body: body.into(), content }
}

fn user(name: &str) -> ProviderReply {
    response(200, "{}", Some(Content::User(name.into())))
}

fn github(default_branch: Option<&str>) -> Content {
    Content::GitHub(GitHubRepository {
        name: "photo-lib".into(),
        clone_url: "https://github.com/octocat/photo-lib.git".into(),
        html_url: "https://github.com/octocat/photo-lib".into(),
        default_branch: default_branch.map(|branch| branch.to_owned()),
        owner: "octocat".into(),
    })
}

fn gitlab(path: &str) -> Content {
    Content::GitLab(GitLabProject {
        path: "photo-lib".into(),
        path_with_namespace: path.into(),
        http_url_to_repo: "https://gitlab.com/octocat/photo-lib.git".into(),
        web_url: "https://gitlab.com/octocat/photo-lib".into(),
        default_branch: None,
    })
}

fn going(step: Step<EnsureRepository, RepositoryInfo>) -> EnsureRepository {
    match step {
        Step::Continue(next) => next,
        Step::Finish(result) => panic!("it ended: {result:?}"),
    }
}

fn ended(step: Step<EnsureRepository, RepositoryInfo>) -> Result<RepositoryInfo, String> {
    match step {
        Step::Continue(next) => panic!("it goes on: {next:?}"),
        Step::Finish(result) => result.map_err(|error| error.text()),
    }
}

#[test]
fn extracts_provider_messages() {
    assert_eq!(
        provider_error_message(r#"{"message":"Bad credentials"}"#).as_deref(),
        Some("Bad credentials")
    );
    assert_eq!(
        provider_error_message(r#"{"error":"invalid_token"}"#).as_deref(),
        Some("invalid_token")
    );
}

#[test]
fn messages_that_are_no_text_are_shown_as_json() {
    assert_eq!(
        provider_error_message(r#"{ "message": {"name": ["is taken"], "a": 1.5} }"#).as_deref(),
        Some(r#"{"a":1.5,"name":["is taken"]}"#)
    );
    assert_eq!(
        provider_error_message(r#"{"message":{"x":1},"error":"e"}"#).as_deref(),
        Some("e")
    );
    assert_eq!(
        provider_error_message(r#"{"message":"m","error":"e"}"#).as_deref(),
        Some("m")
    );
    assert_eq!(provider_error_message(r#"{"message":null}"#).as_deref(), Some("null"));
    assert_eq!(provider_error_message(r#"{"error":7}"#), None);
    assert_eq!(provider_error_message(r#"["message"]"#), None);
    assert_eq!(provider_error_message(r#""message""#), None);
    assert_eq!(provider_error_message("<html>"), None);
    assert_eq!(provider_error_message(""), None);
}

#[test]
fn messages_are_chosen_in_order() {
    let text = |value: &str| Some(value.to_owned());
    assert_eq!(choose_message(text("a"), text("b"), text("c")).as_deref(), Some("a"));
    assert_eq!(choose_message(None, text("b"), text("c")).as_deref(), Some("b"));
    assert_eq!(choose_message(None, None, text("c")).as_deref(), Some("c"));
    assert_eq!(choose_message(None, None, None), None);
}

#[test]
fn refusals_give_the_reason() {
    let refused = |status, message: Option<&str>, reason: Option<&str>| {
        request_refused(
            Provider::Github,
            status,
            message.map(|text| text.to_owned()),
            reason.map(|text| text.to_owned()),
        )
        .text()
    };
    assert_eq!(
        refused(401, Some("Bad credentials"), Some("Unauthorized")),
        "GitHub rejected the credentials or token permissions: Bad credentials"
    );
    assert_eq!(
        refused(403, None, Some("Forbidden")),
        "GitHub rejected the credentials or token permissions: Forbidden"
    );
    assert_eq!(refused(500, None, Some("Oops")), "GitHub request failed: Oops");
    assert_eq!(
        refused(599, None, None),
        "GitHub request failed: The provider rejected the request."
    );
}

#[test]
fn responses_are_decoded() {
    let decoded = |status, body, content: Option<u8>| {
        decode_response(Provider::Gitlab, status, body, content).map_err(|error| error.text())
    };
    assert_eq!(decoded(200, "7", Some(7)), Ok(7));
    assert_eq!(decoded(299, "7", Some(7)), Ok(7));
    assert_eq!(
        decoded(200, "x", None),
        Err("GitLab returned a response GitPic could not understand.".into())
    );
    assert_eq!(
        decoded(404, "", Some(7)),
        Err("GitLab request failed: Not Found".into())
    );
    assert_eq!(
        decoded(418, "?", None),
        Err("GitLab request failed: I'm a teapot".into())
    );
    assert_eq!(
        decoded(599, "?", None),
        Err("GitLab request failed: The provider rejected the request.".into())
    );
    assert_eq!(
        decoded(199, r#"{"error":"early"}"#, Some(7)),
        Err("GitLab request failed: early".into())
    );
    assert_eq!(
        decoded(401, r#"{"message":"401 Unauthorized"}"#, None),
        Err("GitLab rejected the credentials or token permissions: 401 Unauthorized".into())
    );
}

#[test]
fn github_repositories_are_found() {
    let search = ensure_repository(&profile(Provider::Github));
    assert_eq!(search.profile().username, "OctoCat");
    let request = search.request();
    assert_eq!(request.method, Method::Get);
    assert_eq!(request.url, "https://api.github.com/user");
    assert_eq!(request.authorization, Authorization::Bearer);
    assert_eq!(request.expected, Expected::User);
    let headers: Vec<(String, String)> = request
        .headers
        .into_iter()
        .map(|header| (header.name, header.value))
        .collect();
    assert_eq!(
        headers,
        vec![
            ("Accept".to_owned(), "application/vnd.github+json".to_owned()),
            ("X-GitHub-Api-Version".to_owned(), "2022-11-28".to_owned()),
            ("User-Agent".to_owned(), "GitPic/1.0".to_owned()),
        ]
    );

    let search = going(search.resume(user("octocat")));
    let request = search.request();
    assert_eq!(request.method, Method::Get);
    assert_eq!(request.url, "https://api.github.com/repos/octocat/photo-lib");
    assert!(request.body.is_none());
    assert!(!request.expected.reads_body(404) && request.expected.reads_body(200));

    let found = ended(search.resume(response(200, "{}", Some(github(Some("trunk")))))).unwrap();
    assert_eq!(found.provider, Provider::Github);
    assert_eq!(found.owner, "octocat");
    assert_eq!(found.name, "photo-lib");
    assert_eq!(found.clone_url, "https://github.com/octocat/photo-lib.git");
    assert_eq!(found.web_url, "https://github.com/octocat/photo-lib");
    assert_eq!(found.default_branch, "trunk");
}

#[test]
fn missing_github_repositories_are_created() {
    for visibility in [Visibility::Private, Visibility::Public] {
        let mut profile = profile(Provider::Github);
        profile.visibility = visibility;
        let search = going(ensure_repository(&profile).resume(user("octocat")));
        let search = going(search.resume(response(404, "", None)));
        let request = search.request();
        assert_eq!(request.method, Method::Post);
        assert_eq!(request.url, "https://api.github.com/user/repos");
        assert_eq!(request.expected, Expected::CreatedRepository);
        assert!(request.expected.reads_body(404));
        match request.body {
            Some(NewRepository::Github { name, private, auto_init }) => {
                assert_eq!(name, "photo-lib");
                assert_eq!(private, visibility == Visibility::Private);
                assert!(!auto_init);
            }
            other => panic!("{other:?}"),
        }
        let found = ended(search.resume(response(201, "{}", Some(github(None))))).unwrap();
        assert_eq!(found.default_branch, "main");
    }
}

#[test]
fn gitlab_projects_are_found_under_their_encoded_path() {
    let mut spaced = profile(Provider::Gitlab);
    spaced.repository_name = "photo-lib_2.x".into();
    let search = ensure_repository(&spaced);
    let request = search.request();
    assert_eq!(request.url, "https://gitlab.com/api/v4/user");
    assert_eq!(request.authorization, Authorization::PrivateToken);
    let headers: Vec<String> = request.headers.into_iter().map(|header| header.name).collect();
    assert_eq!(headers, vec!["Accept", "User-Agent"]);

    let search = going(search.resume(user("octocat")));
    assert_eq!(
        search.request().url,
        "https://gitlab.com/api/v4/projects/octocat%2Fphoto%2Dlib%5F2%2Ex"
    );
    let found = ended(search.resume(response(
        200,
        "{}",
        Some(gitlab("group/sub/photo-lib")),
    )))
    .unwrap();
    assert_eq!(found.provider, Provider::Gitlab);
    assert_eq!(found.owner, "group/sub");
    assert_eq!(found.name, "photo-lib");
    assert_eq!(found.clone_url, "https://gitlab.com/octocat/photo-lib.git");
    assert_eq!(found.web_url, "https://gitlab.com/octocat/photo-lib");
    assert_eq!(found.default_branch, "main");
}

#[test]
fn other_characters_are_encoded_by_their_bytes() {
    let mut odd = profile(Provider::Gitlab);
    odd.username = "ä~".into();
    let search = going(ensure_repository(&odd).resume(user("ä~")));
    assert_eq!(
        search.request().url,
        "https://gitlab.com/api/v4/projects/%C3%A4%7E%2Fphoto%2Dlib"
    );
}

#[test]
fn missing_gitlab_projects_are_created() {
    let mut public = profile(Provider::Gitlab);
    public.visibility = Visibility::Public;
    let search = going(ensure_repository(&public).resume(user("octocat")));
    let search = going(search.resume(response(404, "", None)));
    let request = search.request();
    assert_eq!(request.url, "https://gitlab.com/api/v4/projects");
    match request.body {
        Some(NewRepository::Gitlab { name, path, visibility, lfs_enabled }) => {
            assert_eq!(name, "photo-lib");
            assert_eq!(path, "photo-lib");
            assert_eq!(visibility, "public");
            assert!(lfs_enabled);
        }
        other => panic!("{other:?}"),
    }
    let found = ended(search.resume(response(201, "{}", Some(gitlab("photo-lib"))))).unwrap();
    assert_eq!(found.owner, "octocat");
}

#[test]
fn tokens_of_other_users_are_refused() {
    assert_eq!(
        ended(ensure_repository(&profile(Provider::Github)).resume(user("hubot"))),
        Err("The GitHub token belongs to “hubot”, not “OctoCat”.".into())
    );
    assert_eq!(
        ended(ensure_repository(&profile(Provider::Gitlab)).resume(user(""))),
        Err("The GitLab token belongs to “”, not “OctoCat”.".into())
    );
}

#[test]
fn refused_requests_end_the_search() {
    let search = || ensure_repository(&profile(Provider::Github));
    assert_eq!(
        ended(search().resume(response(401, r#"{"message":"Bad credentials"}"#, None))),
        Err("GitHub rejected the credentials or token permissions: Bad credentials".into())
    );
    assert_eq!(
        ended(search().resume(response(404, "", None))),
        Err("GitHub request failed: Not Found".into())
    );
    assert_eq!(
        ended(search().resume(ProviderReply::Failed(AppError::Http("timeout".into())))),
        Err("Network request failed: timeout".into())
    );
    assert_eq!(
        ended(search().resume(response(200, "{}", Some(github(None))))),
        Err("GitHub returned a response GitPic could not understand.".into())
    );
    let creating = going(going(search().resume(user("octocat"))).resume(response(404, "", None)));
    assert_eq!(
        ended(creating.resume(response(404, "", None))),
        Err("GitHub request failed: Not Found".into())
    );
}

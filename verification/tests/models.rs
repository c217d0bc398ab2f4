use gitpic::models::{
    AppError, Profiles, Provider, RepositoryInfo, RepositoryProfile, StoredSettings, Visibility,
};

fn profile(provider: Provider, username: &str, name: &str) -> RepositoryProfile {
    RepositoryProfile {
        provider,
        username: username.into(),
        repository_name: name.into(),
        visibility: Visibility::Private,
    }
}

fn failure(profile: &RepositoryProfile) -> String {
    profile.validate().unwrap_err().text()
}

const NO_USER: &str = "Enter the username associated with the personal access token.";
const BAD_NAME: &str = "Repository names must start with a letter or number and contain only letters, numbers, periods, hyphens, or underscores.";

#[test]
fn validates_repository_names() {
    let mut profile = RepositoryProfile {
        provider: Provider::Github,
        username: "octocat".into(),
        repository_name: "photo-library_2".into(),
        visibility: Visibility::Private,
    };
    assert!(profile.validate().is_ok());

    profile.repository_name = "../outside".into();
    assert!(profile.validate().is_err());

    profile.repository_name = "-starts-with-dash".into();
    assert!(profile.validate().is_err());
}

#[test]
fn invalid_profiles_are_refused_with_a_reason() {
    assert_eq!(failure(&profile(Provider::Github, " \t", "photos")), NO_USER);
    assert_eq!(failure(&profile(Provider::Github, "", "")), NO_USER);
    assert_eq!(failure(&profile(Provider::Gitlab, "me", "")), BAD_NAME);
    assert_eq!(failure(&profile(Provider::Gitlab, "me", "a b")), BAD_NAME);
    assert_eq!(failure(&profile(Provider::Gitlab, "me", ".git")), BAD_NAME);
    assert_eq!(failure(&profile(Provider::Gitlab, "me", "ünder")), BAD_NAME);

    let longest = "x".repeat(100);
    assert!(profile(Provider::Github, "me", &longest).validate().is_ok());
    let too_long = "x".repeat(101);
    assert_eq!(failure(&profile(Provider::Github, "me", &too_long)), BAD_NAME);
}

#[test]
fn profiles_are_normalized() {
    let untidy = profile(Provider::Gitlab, "  octocat\n", "\tphotos ");
    let tidy = untidy.normalized();
    assert!(tidy == profile(Provider::Gitlab, "octocat", "photos"));
    assert!(tidy.normalized() == tidy);
    assert!(untidy != tidy);
    assert!(untidy.validate().is_ok() && tidy.validate().is_ok());
}

#[test]
fn profiles_differ_in_every_field() {
    let one = profile(Provider::Github, "a", "b");
    assert!(one == one.clone());
    assert!(one != profile(Provider::Gitlab, "a", "b"));
    assert!(one != profile(Provider::Github, "x", "b"));
    assert!(one != profile(Provider::Github, "a", "x"));
    let mut public = one.clone();
    public.visibility = Visibility::Public;
    assert!(one != public);
}

#[test]
fn repositories_differ_in_every_field() {
    let one = RepositoryInfo {
        provider: Provider::Github,
        owner: "o".into(),
        name: "n".into(),
        clone_url: "c".into(),
        web_url: "w".into(),
        default_branch: "main".into(),
    };
    assert!(one == one.clone());
    let mut other = one.clone();
    other.default_branch = "trunk".into();
    assert!(one != other);
    let mut other = one.clone();
    other.owner = "p".into();
    assert!(one != other);
}

#[test]
fn providers_have_their_own_names() {
    assert_eq!(Provider::Github.key(), "github");
    assert_eq!(Provider::Gitlab.key(), "gitlab");
    assert_eq!(Provider::Github.display_name(), "GitHub");
    assert_eq!(Provider::Gitlab.display_name(), "GitLab");
    assert_eq!(Provider::Github.host(), "github.com");
    assert_eq!(Provider::Gitlab.host(), "gitlab.com");
    assert_ne!(Provider::Github.key(), Provider::Gitlab.key());
    assert_eq!(Provider::default(), Provider::Github);
    assert_eq!(Visibility::default(), Visibility::Private);
}

#[test]
fn errors_are_reported_in_words() {
    assert_eq!(AppError::message("No.").text(), "No.");
    assert_eq!(
        AppError::Io("denied".into()).text(),
        "File operation failed: denied"
    );
    assert_eq!(
        AppError::Json("EOF".into()).text(),
        "Saved settings are invalid: EOF"
    );
    assert_eq!(
        AppError::Http("timeout".into()).text(),
        "Network request failed: timeout"
    );
}

#[test]
fn stored_profiles_are_read_back_in_the_order_of_their_keys() {
    let mut profiles = Profiles::new();
    assert!(profiles.get("github").is_none());
    profiles.insert("gitlab", profile(Provider::Gitlab, "me", "lab"));
    profiles.insert("github", profile(Provider::Github, "me", "old"));
    profiles.insert("zzz", profile(Provider::Github, "you", "last"));
    profiles.insert("github", profile(Provider::Github, "me", "hub"));

    assert_eq!(profiles.get("github").unwrap().repository_name, "hub");
    assert_eq!(profiles.get("gitlab").unwrap().repository_name, "lab");
    assert!(profiles.get("").is_none());
    let keys: Vec<String> = profiles.clone().entries().into_iter().map(|entry| entry.0).collect();
    assert_eq!(keys, vec!["github", "gitlab", "zzz"]);
}

#[test]
fn a_stored_profile_is_the_selected_one() {
    let mut settings = StoredSettings::default();
    assert_eq!(settings.selected_provider, Provider::Github);
    assert!(settings.selected().is_none());

    settings.store(&profile(Provider::Github, "me", "hub"));
    settings.store(&profile(Provider::Gitlab, "me", "lab"));
    assert_eq!(settings.selected_provider, Provider::Gitlab);
    assert_eq!(settings.selected().unwrap().repository_name, "lab");
    assert_eq!(settings.profiles.get("github").unwrap().repository_name, "hub");

    let copy = settings.clone();
    settings.store(&profile(Provider::Github, "me", "new"));
    assert_eq!(copy.selected().unwrap().repository_name, "lab");
    assert_eq!(settings.selected().unwrap().repository_name, "new");
}

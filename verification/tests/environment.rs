use gitpic::git::environment::{
    chosen_git_variable, git_environment, git_executable, git_path_environment,
    platform_git_executable, windows_git_path, windows_install_variables, AskPass,
    Environment, GitExecutable, Platform, SearchFolder, VariableValue,
};
use gitpic::models::Credentials;

fn credentials(token: &str) -> Credentials {
    Credentials { username: "octocat".into(), token: token.into() }
}

fn helper(token: &str) -> AskPass {
    AskPass::new(Platform::Other, &credentials(token))
}

fn listed(environment: Environment) -> Vec<(String, String)> {
    environment
        .variables
        .into_iter()
        .map(|variable| {
            let value = match variable.value {
                VariableValue::Text(text) => text,
                VariableValue::AskPassPath => "<helper>".to_owned(),
                VariableValue::SearchPath => "<folders>".to_owned(),
            };
            (variable.name, value)
        })
        .collect()
}

fn named(executable: GitExecutable) -> String {
    match executable {
        GitExecutable::Chosen => "<chosen>".to_owned(),
        GitExecutable::Named(name) => name,
        GitExecutable::Installed(number) => format!("<installed {number}>"),
    }
}

#[test]
fn git_is_given_the_credentials_through_the_helper() {
    let pairs = listed(git_environment(&helper("secret")));
    let expected = [
        ("GIT_ASKPASS", "<helper>"),
        ("GIT_ASKPASS_REQUIRE", "force"),
        ("GIT_TERMINAL_PROMPT", "0"),
        ("GITPIC_USERNAME", "octocat"),
        ("GITPIC_TOKEN", "secret"),
        ("PATH", "<folders>"),
    ];
    assert_eq!(pairs.len(), expected.len());
    for (pair, (name, value)) in pairs.iter().zip(expected) {
        assert_eq!((pair.0.as_str(), pair.1.as_str()), (name, value));
    }
}

#[test]
fn another_token_changes_one_variable() {
    let first = listed(git_environment(&helper("one")));
    let second = listed(git_environment(&helper("two")));
    for (a, b) in first.iter().zip(&second) {
        assert_eq!(a.0, b.0);
        assert_eq!(a.1 == b.1, a.0 != "GITPIC_TOKEN");
    }
}

#[test]
fn helpers_answer_from_their_environment() {
    let helper = AskPass::new(Platform::Windows, &credentials("secret"));
    assert_eq!(helper.file_name, "askpass.cmd");
    assert_eq!(helper.username, "octocat");
    assert_eq!(helper.token, "secret");
    assert_eq!(
        helper.script,
        "@echo off\r\necho %~1 | findstr /I \"Username\" >nul\r\nif %errorlevel%==0 (echo %GITPIC_USERNAME%) else (echo %GITPIC_TOKEN%)\r\n"
    );
    for platform in [Platform::Macos, Platform::Other] {
        let helper = AskPass::new(platform, &credentials("secret"));
        assert_eq!(helper.file_name, "askpass.sh");
        assert_eq!(
            helper.script,
            "#!/bin/sh\ncase \"$1\" in\n  *sername*) printf '%s\\n' \"$GITPIC_USERNAME\" ;;\n  *) printf '%s\\n' \"$GITPIC_TOKEN\" ;;\nesac\n"
        );
    }
}

#[test]
fn helpers_are_the_same_for_all_credentials() {
    for platform in [Platform::Macos, Platform::Windows, Platform::Other] {
        let first = AskPass::new(platform, &credentials("token-a"));
        let other = Credentials { username: "somebody".into(), token: "token-b".into() };
        let second = AskPass::new(platform, &other);
        assert_eq!(first.file_name, second.file_name);
        assert_eq!(first.script, second.script);
        assert!(!first.script.contains("token-a") && !first.script.contains("octocat"));
        assert_eq!((second.username.as_str(), second.token.as_str()), ("somebody", "token-b"));
    }
}

#[test]
fn git_is_found_by_platform() {
    assert_eq!(
        windows_install_variables(),
        vec!["ProgramFiles", "ProgramFiles(x86)", "LOCALAPPDATA"]
    );
    assert_eq!(windows_git_path(), vec!["Git", "cmd", "git.exe"]);
    assert_eq!(chosen_git_variable(), "GITPIC_GIT_PATH");
    let nowhere = vec![false, false, false];
    let later = vec![false, true, true];
    assert_eq!(named(platform_git_executable(Platform::Macos, &nowhere)), "/usr/bin/git");
    assert_eq!(named(platform_git_executable(Platform::Other, &nowhere)), "git");
    assert_eq!(named(platform_git_executable(Platform::Windows, &nowhere)), "git.exe");
    assert_eq!(named(platform_git_executable(Platform::Windows, &later)), "<installed 1>");
    assert_eq!(named(git_executable(true, Platform::Windows, &later)), "<chosen>");
    assert_eq!(named(git_executable(false, Platform::Windows, &later)), "<installed 1>");
}

#[test]
fn programs_are_looked_for_near_git_first() {
    let folders = |platform, in_folder, inherited| -> Vec<String> {
        git_path_environment(platform, in_folder, inherited)
            .folders
            .into_iter()
            .map(|folder| match folder {
                SearchFolder::Executable => "<git>".to_owned(),
                SearchFolder::Fixed(path) => path,
                SearchFolder::Inherited => "<path>".to_owned(),
            })
            .collect()
    };
    assert_eq!(folders(Platform::Other, true, true), vec!["<git>", "<path>"]);
    assert_eq!(folders(Platform::Windows, false, true), vec!["<path>"]);
    assert!(folders(Platform::Other, false, false).is_empty());
    assert_eq!(
        folders(Platform::Macos, true, true),
        vec!["<git>", "/opt/homebrew/bin", "/usr/local/bin", "/usr/bin", "/bin", "<path>"]
    );
}

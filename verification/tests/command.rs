use gitpic::git::command::{
    command_failure, command_output, is_lfs_related, launch_failure, push_arguments,
    run_git_checked, CommandOutput,
};
use gitpic::models::AppError;

fn output(status: i32, stdout: &str, stderr: &str) -> CommandOutput {
    CommandOutput { status, stdout: stdout.into(), stderr: stderr.into() }
}

fn arguments(list: &[&str]) -> Vec<String> {
    list.iter().map(|part| part.to_string()).collect()
}

#[test]
fn recognizes_lfs_failures_without_matching_auth_errors() {
    assert!(is_lfs_related(
        "remote: error: GH001: Large files detected."
    ));
    assert!(is_lfs_related(
        "batch response: LFS is not enabled for this project"
    ));
    assert!(!is_lfs_related("fatal: Authentication failed"));
}

#[test]
fn every_sign_of_lfs_is_recognized_in_any_case() {
    for marker in [
        "git lfs",
        "git-lfs",
        "large files detected",
        "file size limit",
        "exceeds github's file size limit",
        "exceeds gitlab's maximum allowed size",
        "file is larger than the allowed size",
        "lfs is not enabled",
        "lfs objects are missing",
        "batch response:",
        "gh001:",
    ] {
        assert!(is_lfs_related(marker));
        assert!(is_lfs_related(&marker.to_uppercase()));
        assert!(is_lfs_related(&format!("remote: {marker}!\nhint: retry")));
        assert!(!is_lfs_related(&marker[1..]) || marker.contains("file size limit"));
    }
    assert!(!is_lfs_related(""));
    assert!(!is_lfs_related("lfs"));
}

#[test]
fn outputs_are_combined() {
    assert_eq!(output(0, "out", "err").combined(), "err\nout");
    assert_eq!(output(0, "out", "").combined(), "out");
    assert_eq!(output(0, "", "err").combined(), "err");
    assert_eq!(output(0, "", "").combined(), "");
    assert!(output(0, "", "").success());
    assert!(!output(1, "", "").success());
    assert!(!output(-1, "", "").success());
}

#[test]
fn bytes_become_an_output() {
    let r = command_output(Some(3), &b"h\xc3\xa4\n".to_vec(), &b"".to_vec());
    assert_eq!((r.status, r.stdout.as_str(), r.stderr.as_str()), (3, "hä\n", ""));

    let r = command_output(None, &vec![], &vec![b'a', 0xff, b'b']);
    assert_eq!((r.status, r.stdout.as_str(), r.stderr.as_str()), (-1, "", "a\u{fffd}b"));
}

#[test]
fn failures_are_reported_in_the_words_of_the_command() {
    assert_eq!(
        command_failure("git push", &output(1, "more", "  fatal: no\n")).text(),
        "fatal: no\n\nmore"
    );
    assert_eq!(
        command_failure("git push", &output(128, " \n", "")).text(),
        "git push failed with status 128."
    );
    assert_eq!(
        command_failure("git fetch", &output(-1, "", "")).text(),
        "git fetch failed with status -1."
    );
    assert_eq!(
        launch_failure("/usr/bin/git", "not found").text(),
        "Could not launch Git at /usr/bin/git: not found"
    );
}

#[test]
fn commands_that_have_to_succeed_are_checked() {
    let fetch = arguments(&["fetch", "--prune", "origin"]);
    assert_eq!(run_git_checked(&fetch, Ok(output(0, "ok", ""))).unwrap().stdout, "ok");
    assert_eq!(
        run_git_checked(&fetch, Ok(output(2, "", ""))).unwrap_err().text(),
        "git fetch --prune origin failed with status 2."
    );
    assert_eq!(
        run_git_checked(&fetch, Err(AppError::message("no Git"))).unwrap_err().text(),
        "no Git"
    );
}

#[test]
fn pushes_name_the_branch() {
    assert_eq!(push_arguments("main"), vec!["push", "origin", "HEAD:refs/heads/main"]);
}

use std::collections::{BTreeMap, BTreeSet};

use gitpic::git::command::CommandOutput;
use gitpic::git::components::last_name;
use gitpic::git::environment::Platform;
use gitpic::git::images::{copy_images, CopiedImage, CopiedImages, Copying};
use gitpic::git::lfs::tracked_patterns;
use gitpic::git::prepare::repository_location;
use gitpic::git::protocol::{Place, Reply, Request, Source};
use gitpic::git::synchronize::synchronize;
use gitpic::git::upload::upload_images;
use gitpic::models::{AppError, Credentials, Provider, RepositoryInfo, UploadResult};
use gitpic::procedure::Step;

fn repository() -> RepositoryInfo {
    RepositoryInfo {
        provider: Provider::Github,
        owner: "local-user".into(),
        name: "pictures".into(),
        clone_url: "https://example.invalid/local-user/pictures.git".into(),
        web_url: "https://example.invalid/local-user/pictures".into(),
        default_branch: "main".into(),
    }
}

fn credentials() -> Credentials {
    Credentials { username: "local-user".into(), token: "unused".into() }
}

fn output(status: i32, stdout: &str, stderr: &str) -> CommandOutput {
    CommandOutput { status, stdout: stdout.into(), stderr: stderr.into() }
}

/// Surroundings in memory: a local repository, the files that paths lead to, and a Git whose
/// answers to certain commands are given.
#[derive(Default)]
struct World {
    has_git: bool,
    has_directory: bool,
    listing: Vec<String>,
    local: BTreeMap<String, String>,
    files: BTreeMap<String, (String, String)>,
    answers: Vec<(String, CommandOutput)>,
    unstartable: BTreeSet<String>,
    uncopyable: BTreeSet<String>,
    log: Vec<String>,
}

impl World {
    fn git(&mut self, place: Place, arguments: Vec<String>) -> Reply {
        let line = arguments.join(" ");
        self.log.push(match place {
            Place::Parent => format!("above: git {line}"),
            Place::Repository => format!("git {line}"),
        });
        if self.unstartable.contains(&line) {
            return Reply::Git(Err(AppError::message("no Git")));
        }
        for i in 0..self.answers.len() {
            if self.answers[i].0 == line {
                return Reply::Git(Ok(self.answers.remove(i).1));
            }
        }
        Reply::Git(Ok(output(0, "", "")))
    }

    fn reply(&mut self, request: Request) -> Reply {
        match request {
            Request::CreateParent => {
                self.log.push("create".into());
                Reply::Done(Ok(()))
            }
            Request::ProbeGitDirectory => Reply::Exists(self.has_git),
            Request::ProbeDirectory => Reply::Exists(self.has_directory),
            Request::OpenDirectory => Reply::Done(Ok(())),
            Request::NextEntry => Reply::Entry(Ok(if self.listing.is_empty() {
                None
            } else {
                Some(self.listing.remove(0))
            })),
            Request::Git { place, arguments } => self.git(place, arguments),
            Request::Resolve { path } => {
                let target = self.files.get(&path).cloned();
                Reply::Resolved(target.map(|(canonical, _)| Source {
                    canonical: canonical.clone().into_bytes(),
                    is_file: !canonical.ends_with('/'),
                    file_name: last_name(Platform::Other, &canonical).map(|name| name.to_owned()),
                }))
            }
            Request::ProbeDestination { name } => Reply::Exists(self.local.contains_key(&name)),
            Request::Copy { source, name } => {
                if self.uncopyable.contains(&name) {
                    return Reply::Done(Err(AppError::Io("full".into())));
                }
                let canonical = String::from_utf8(source).unwrap();
                let file = self.files.values().find(|file| file.0 == canonical);
                let contents = file.unwrap().1.clone();
                assert!(self.local.insert(name, contents).is_none());
                Reply::Done(Ok(()))
            }
            Request::Remove { name } => {
                self.log.push(format!("remove {name}"));
                match self.local.remove(&name) {
                    Some(_) => Reply::Done(Ok(())),
                    None => Reply::Done(Err(AppError::Io("busy".into()))),
                }
            }
        }
    }

    fn upload(&mut self, paths: &[&str]) -> Result<UploadResult, String> {
        let paths = paths.iter().map(|path| path.to_string()).collect();
        let mut step = upload_images(Platform::Other, &repository(), &credentials(), "/data/pictures", paths);
        loop {
            match step {
                Step::Continue(machine) => {
                    let reply = self.reply(machine.request());
                    assert!(!machine.exhausted(&reply));
                    step = machine.resume(reply);
                }
                Step::Finish(result) => return result.map_err(|error| error.text()),
            }
        }
    }

    fn copy(&mut self, paths: &[&str]) -> Result<CopiedImages, String> {
        let mut step: Step<Copying, CopiedImages> =
            copy_images(Platform::Other, paths.iter().map(|path| path.to_string()).collect());
        loop {
            match step {
                Step::Continue(machine) => {
                    let reply = self.reply(machine.request());
                    assert!(!machine.exhausted(&reply));
                    step = machine.resume(reply);
                }
                Step::Finish(result) => return result.map_err(|error| error.text()),
            }
        }
    }

    fn file(mut self, path: &str, canonical: &str, contents: &str) -> World {
        self.files.insert(path.into(), (canonical.into(), contents.into()));
        self
    }

    fn answer(mut self, line: &str, answer: CommandOutput) -> World {
        self.answers.push((line.into(), answer));
        self
    }
}

fn two_images() -> World {
    World::default()
        .file("/pics/one.png", "/pics/one.png", "png")
        .file("/pics/two.jpg", "/pics/two.jpg", "jpeg")
        .answer("rev-parse --short HEAD", output(0, "abc1234\n", ""))
}

const SYNCHRONIZATION: [&str; 7] = [
    "git config --local user.name local-user",
    "git config --local user.email local-user@users.noreply.github.com",
    "git fetch --prune origin",
    "git show-ref --verify --quiet refs/heads/main",
    "git show-ref --verify --quiet refs/remotes/origin/main",
    "git checkout main",
    "git pull --rebase origin main",
];

#[test]
fn commits_and_pushes_a_batch() {
    let mut world = two_images();
    let result = world.upload(&["/pics/one.png", "/pics/two.jpg"]).unwrap();
    assert_eq!(result.image_count, 2);
    assert_eq!(result.commit, "abc1234");
    assert_eq!(result.repository_url, "https://example.invalid/local-user/pictures");

    let mut expected = vec![
        "create",
        "above: git clone --origin origin https://example.invalid/local-user/pictures.git /data/pictures",
    ];
    expected.extend(SYNCHRONIZATION);
    expected.extend([
        "git add -- one.png two.jpg",
        "git commit -m Add 2 images via GitPic",
        "git push origin HEAD:refs/heads/main",
        "git rev-parse --short HEAD",
    ]);
    assert_eq!(world.log, expected);
    assert_eq!(world.local["one.png"], "png");
    assert_eq!(world.local["two.jpg"], "jpeg");
}

#[test]
fn one_image_has_a_subject_of_its_own() {
    let mut world = two_images();
    world.upload(&["/pics/one.png"]).unwrap();
    assert!(world.log.contains(&"git commit -m Add image via GitPic".to_owned()));
}

#[test]
fn nothing_is_done_without_a_selection() {
    let mut world = World::default();
    assert_eq!(world.upload(&[]).unwrap_err(), "No images were selected.");
    assert!(world.log.is_empty());
}

#[test]
fn existing_repositories_are_connected_to_their_remote() {
    for (status, verb) in [(0, "set-url"), (2, "add")] {
        let mut world = two_images().answer("remote get-url origin", output(status, "", ""));
        world.has_git = true;
        world.upload(&["/pics/one.png"]).unwrap();
        assert_eq!(world.log[1], "git remote get-url origin");
        assert_eq!(
            world.log[2],
            format!("git remote {verb} origin https://example.invalid/local-user/pictures.git")
        );
        assert_eq!(world.log[3], SYNCHRONIZATION[0]);
    }
}

#[test]
fn folders_in_the_way_are_left_alone() {
    let mut world = two_images();
    world.has_directory = true;
    world.listing = vec![".DS_Store".into(), "notes.txt".into(), ".DS_Store".into()];
    assert_eq!(
        world.upload(&["/pics/one.png"]).unwrap_err(),
        "The local repository folder is not empty: /data/pictures"
    );
    assert_eq!(world.log, vec!["create", "remove .DS_Store", "remove .DS_Store"]);

    let mut world = two_images();
    world.has_directory = true;
    world.listing = vec![".DS_Store".into()];
    world.upload(&["/pics/one.png"]).unwrap();
    assert_eq!(world.log[1], "remove .DS_Store");
    assert!(world.log[2].starts_with("above: git clone"));
}

#[test]
fn failed_preparations_end_the_upload() {
    let mut world = two_images().answer(
        "clone --origin origin https://example.invalid/local-user/pictures.git /data/pictures",
        output(128, "", "fatal: not found\n"),
    );
    assert_eq!(world.upload(&["/pics/one.png"]).unwrap_err(), "fatal: not found");
    let mut world = two_images();
    world.unstartable.insert("fetch --prune origin".into());
    assert_eq!(world.upload(&["/pics/one.png"]).unwrap_err(), "no Git");
    assert!(world.local.is_empty());
}

fn synchronized(branch: &str, local: bool, remote: bool) -> Vec<String> {
    let mut machine = synchronize(branch);
    let mut log = Vec::new();
    loop {
        let line = match machine.request() {
            Request::Git { place: Place::Repository, arguments } => arguments.join(" "),
            other => panic!("{other:?}"),
        };
        let exists = if line.contains("refs/heads/") { local } else { remote };
        let status = if line.starts_with("show-ref") && !exists { 1 } else { 0 };
        log.push(line);
        match machine.resume(Reply::Git(Ok(output(status, "", "")))) {
            Step::Continue(next) => machine = next,
            Step::Finish(result) => {
                result.unwrap();
                return log;
            }
        }
    }
}

#[test]
fn branches_are_checked_out_as_they_exist() {
    let rest = |local, remote| synchronized("dev", local, remote)[3..].to_vec();
    assert_eq!(rest(true, true), vec!["checkout dev", "pull --rebase origin dev"]);
    assert_eq!(rest(true, false), vec!["checkout dev"]);
    assert_eq!(
        rest(false, true),
        vec!["checkout -B dev origin/dev", "pull --rebase origin dev"]
    );
    assert_eq!(rest(false, false), vec!["checkout -B dev"]);
}

#[test]
fn images_are_copied_once_and_under_free_names() {
    let mut world = World::default()
        .file("a", "/x/photo.png", "first")
        .file("b", "/link/../x/photo.png", "other")
        .file("again", "/x/photo.png", "first")
        .file("folder", "/x/dir.png/", "")
        .file("text", "/x/notes.txt", "")
        .file("capital", "/x/BIG.PNG", "big");
    world.local.insert("photo.png".into(), "old".into());
    let copied = world.copy(&["a", "gone", "again", "folder", "text", "b", "capital"]).unwrap();
    assert_eq!(copied.paths(), vec!["photo-1.png", "photo-2.png", "BIG.PNG"]);
    let extensions: Vec<&str> =
        copied.images.iter().map(|image| image.extension.as_str()).collect();
    assert_eq!(extensions, vec!["png", "png", "png"]);
    assert_eq!(world.local["photo.png"], "old");
    assert_eq!(world.local["photo-1.png"], "first");
    assert_eq!(world.local["photo-2.png"], "other");
}

#[test]
fn copying_adds_the_copies_and_nothing_else() {
    let mut world = World::default();
    for (path, canonical) in [("a", "/x/p.png"), ("b", "/y/p.png"), ("c", "/z/p-1.png")] {
        world = world.file(path, canonical, canonical);
    }
    for name in ["p.png", "p-2.png", "q.txt"] {
        world.local.insert(name.into(), "old".into());
    }
    let before = world.local.clone();
    let copied = world.copy(&["a", "b", "c", "a"]).unwrap();
    assert_eq!(copied.paths(), vec!["p-1.png", "p-3.png", "p-1-1.png"]);
    assert_eq!(world.local.len(), before.len() + copied.images.len());
    for name in copied.paths() {
        assert!(!before.contains_key(&name));
    }
    for (name, contents) in before {
        assert_eq!(world.local[&name], contents);
    }
}

#[test]
fn names_that_are_paths_are_passed_over() {
    for (platform, name, taken) in [
        (Platform::Other, "a/b.png", false),
        (Platform::Other, "a\\b.png", true),
        (Platform::Windows, "a\\b.png", false),
        (Platform::Windows, "b.png", true),
    ] {
        let machine = match copy_images(platform, vec!["p".to_owned()]) {
            Step::Continue(machine) => machine,
            Step::Finish(result) => panic!("{result:?}"),
        };
        let source = Source {
            canonical: b"/a/b.png".to_vec(),
            is_file: true,
            file_name: Some(name.into()),
        };
        match machine.resume(Reply::Resolved(Some(source))) {
            Step::Continue(_) => assert!(taken),
            Step::Finish(result) => {
                assert!(!taken);
                assert_eq!(
                    result.unwrap_err().text(),
                    "The selected items do not contain any supported image files."
                );
            }
        }
    }
}

#[test]
fn selections_without_images_are_refused() {
    let message = "The selected items do not contain any supported image files.";
    let mut world = World::default().file("text", "/x/notes.txt", "");
    assert_eq!(world.copy(&["text", "gone"]).unwrap_err(), message);
    assert_eq!(world.copy(&[]).unwrap_err(), message);
}

#[test]
fn failed_copies_are_undone() {
    let mut world = World::default()
        .file("a", "/x/a.png", "1")
        .file("b", "/x/b.png", "2")
        .file("c", "/x/c.png", "3");
    world.uncopyable.insert("c.png".into());
    assert_eq!(world.copy(&["a", "b", "c"]).unwrap_err(), "File operation failed: full");
    assert_eq!(world.log, vec!["remove a.png", "remove b.png"]);
    assert!(world.local.is_empty());
}

#[test]
fn failed_commits_are_undone() {
    for line in ["add -- one.png two.jpg", "commit -m Add 2 images via GitPic"] {
        let mut world = two_images().answer(line, output(1, "", "fatal: locked"));
        world.unstartable.insert("reset -- one.png two.jpg".into());
        let result = world.upload(&["/pics/one.png", "/pics/two.jpg"]);
        assert_eq!(result.unwrap_err(), "fatal: locked");
        let end = world.log.len();
        assert_eq!(
            world.log[end - 3..],
            ["git reset -- one.png two.jpg", "remove one.png", "remove two.jpg"]
        );
        assert!(world.local.is_empty());
    }
}

const PUSH: &str = "push origin HEAD:refs/heads/main";

#[test]
fn refused_pushes_are_reported() {
    let mut world = two_images().answer(PUSH, output(1, "", "fatal: Authentication failed"));
    assert_eq!(world.upload(&["/pics/one.png"]).unwrap_err(), "fatal: Authentication failed");
    assert_eq!(world.log.last().unwrap(), &format!("git {PUSH}"));
    let mut world = two_images().answer(PUSH, output(3, "", ""));
    assert_eq!(world.upload(&["/pics/one.png"]).unwrap_err(), "git push failed with status 3.");
}

#[test]
fn large_files_are_pushed_again_with_lfs() {
    let mut world = two_images().answer(PUSH, output(1, "", "remote: GH001: Large files detected."));
    let result = world.upload(&["/pics/one.png", "/pics/two.jpg"]).unwrap();
    assert_eq!(result.image_count, 2);
    let end = world.log.len();
    assert_eq!(
        world.log[end - 8..],
        [
            "git push origin HEAD:refs/heads/main",
            "git lfs version",
            "git lfs install --local",
            "git lfs track *.jpg *.png",
            "git add -- .gitattributes one.png two.jpg",
            "git commit --amend --no-edit",
            "git push origin HEAD:refs/heads/main",
            "git rev-parse --short HEAD",
        ]
    );
}

#[test]
fn failures_of_lfs_are_reported() {
    let refused = || output(1, "", "batch response: no");
    let mut world = two_images().answer(PUSH, refused()).answer("lfs version", output(1, "", ""));
    assert_eq!(
        world.upload(&["/pics/one.png"]).unwrap_err(),
        "Git LFS is required for this upload but is not installed. Install Git LFS, then try again."
    );
    let mut world = two_images().answer(PUSH, refused());
    world.unstartable.insert("lfs version".into());
    assert_eq!(world.upload(&["/pics/one.png"]).unwrap_err(), "no Git");
    let mut world = two_images().answer(PUSH, refused()).answer(PUSH, output(1, "", "quota"));
    assert_eq!(
        world.upload(&["/pics/one.png"]).unwrap_err(),
        "Git LFS recovery did not complete: quota"
    );
    let mut world = two_images().answer(PUSH, refused());
    world.unstartable.insert("lfs install --local".into());
    assert_eq!(
        world.upload(&["/pics/one.png"]).unwrap_err(),
        "Git LFS recovery did not complete: no Git"
    );
}

#[test]
fn patterns_are_sorted_and_come_once() {
    let image = |path: &str, extension: &str| CopiedImage {
        relative_path: path.into(),
        extension: extension.into(),
    };
    let copied = CopiedImages {
        images: vec![
            image("b.png", "png"),
            image("x", ""),
            image("a.PNG", "png"),
            image("c.gif", "gif"),
        ],
    };
    assert_eq!(tracked_patterns(&copied), vec!["*.gif", "*.png", "x"]);
}

#[test]
fn repositories_are_kept_by_provider_and_owner() {
    let mut info = repository();
    assert_eq!(repository_location(&info), vec!["github", "local-user", "pictures"]);
    info.provider = Provider::Gitlab;
    info.owner = "group/sub".into();
    assert_eq!(repository_location(&info), vec!["gitlab", "group_sub", "pictures"]);
}

#[test]
fn blank_branches_become_main() {
    let mut info = repository();
    info.default_branch = " \n".into();
    let mut world = two_images();
    let mut step =
        upload_images(
            Platform::Other,
            &info,
            &credentials(),
            "/data/pictures",
            vec!["/pics/one.png".to_owned()],
        );
    while let Step::Continue(machine) = step {
        let reply = world.reply(machine.request());
        step = machine.resume(reply);
    }
    assert!(world.log.contains(&"git checkout main".to_owned()));
    assert!(world.log.contains(&format!("git {PUSH}")));
}

#[test]
fn another_token_changes_no_request() {
    let mut logs = Vec::new();
    for token in ["token-a", "token-b"] {
        let credentials = Credentials { username: "local-user".into(), token: token.into() };
        let mut world = two_images();
        let mut step = upload_images(
            Platform::Other,
            &repository(),
            &credentials,
            "/data/pictures",
            vec!["/pics/one.png".to_owned()],
        );
        while let Step::Continue(machine) = step {
            let reply = world.reply(machine.request());
            step = machine.resume(reply);
        }
        assert!(!world.log.iter().any(|line| line.contains(token)));
        logs.push(world.log);
    }
    assert_eq!(logs[0], logs[1]);
}

//! Uploading a selection of images: the whole procedure, from the selection to the pushed commit.
use vstd::prelude::*;

use crate::git::command::{OutputView, checked, command_failure, command_line, failure_of};
use crate::git::command::{is_lfs_related, lfs_related, push_arguments, push_command, run_git_checked};
use crate::git::environment::Platform;
use crate::git::images::{CopiedImages, CopyView, Copying, ImageView, all_images, copy_images};
use crate::git::images::{copying_starts_sound, copying_stays_sound, paths, removals};
use crate::git::lfs::{Recovery, RecoveryStage, RecoveryView, incomplete, lfs_missing, patterns};
use crate::git::lfs::recover_with_lfs;
use crate::git::prepare::{Preparation, PrepareView, prepare_repository};
use crate::git::protocol::{Place, Reply, ReplyView, Request, RequestView};
use crate::git::protocol::{answers, in_repository};
use crate::models::{AppError, Credentials, CredentialsView, Failure, RepositoryInfo};
use crate::models::{RepositoryView, UploadResult, UploadResultView};
use crate::procedure::{Step, StepView};
use crate::text::{append_all, decimal, decimal_text, trim, trimmed, words};

verus! {

// ---------------------------------------------------------------------------------------------
// The procedure, as a model
// ---------------------------------------------------------------------------------------------
/// What the procedure is doing.
#[verifier::ext_equal]
pub enum PhaseView {
    /// It prepares the local repository.
    Preparing { platform: Platform, preparation: PrepareView, sources: Seq<Seq<char>> },
    /// It copies the images into it.
    Copying { branch: Seq<char>, copying: CopyView },
    /// It adds the images.
    Adding { branch: Seq<char>, images: Seq<ImageView> },
    /// It commits them.
    Committing { branch: Seq<char>, images: Seq<ImageView> },
    /// It pushes the commit.
    Pushing { branch: Seq<char>, images: Seq<ImageView> },
    /// It repeats the push with Git LFS.
    Recovering(RecoveryView),
    /// It asks for the name of the commit, which was pushed and adds so many images.
    Resolving { count: nat },
    /// The images could not be committed, and it takes them back out of the index.
    Resetting { images: Seq<ImageView>, failure: Failure },
    /// It deletes the images again, of which these remain.
    Removing { names: Seq<Seq<char>>, failure: Failure },
}

/// The model of an [`Upload`].
#[verifier::ext_equal]
pub struct UploadView {
    pub web_url: Seq<char>,
    pub phase: PhaseView,
}

/// Where an upload stands after a reply.
pub type UploadStep = StepView<UploadView, UploadResultView>;

/// The command that adds the images.
pub open spec fn add_command(images: Seq<ImageView>) -> Seq<Seq<char>> {
    seq!["add"@, "--"@] + paths(images)
}

/// The command that takes the images back out of the index.
pub open spec fn reset_command(images: Seq<ImageView>) -> Seq<Seq<char>> {
    seq!["reset"@, "--"@] + paths(images)
}

/// The subject of the commit that adds so many images.
pub open spec fn commit_subject(count: nat) -> Seq<char> {
    if count == 1 {
        "Add image via GitPic"@
    } else {
        "Add "@ + decimal(count) + " images via GitPic"@
    }
}

/// The command that commits the images.
pub open spec fn commit_command(count: nat) -> Seq<Seq<char>> {
    seq!["commit"@, "-m"@, commit_subject(count)]
}

/// The command that asks for the short name of the current commit.
pub open spec fn revision_command() -> Seq<Seq<char>> {
    seq!["rev-parse"@, "--short"@, "HEAD"@]
}

impl UploadView {
    /// The procedure at its start. Where nothing was selected, it fails at once.
    pub open spec fn start(
        platform: Platform,
        repository: RepositoryView,
        credentials: CredentialsView,
        directory: Seq<char>,
        sources: Seq<Seq<char>>,
    ) -> UploadStep {
        if sources.len() == 0 {
            StepView::Finish(Err(Failure::Message("No images were selected."@)))
        } else {
            let preparation = PrepareView::start(repository, credentials.username, directory);
            StepView::Continue(
                UploadView {
                    web_url: repository.web_url,
                    phase: PhaseView::Preparing { platform, preparation, sources },
                },
            )
        }
    }

    /// The pending request.
    pub open spec fn request(self) -> RequestView {
        match self.phase {
            PhaseView::Preparing { platform, preparation, sources } => preparation.request(),
            PhaseView::Copying { branch, copying } => copying.request(),
            PhaseView::Adding { branch, images } => in_repository(add_command(images)),
            PhaseView::Committing { branch, images } => in_repository(commit_command(images.len())),
            PhaseView::Pushing { branch, images } => in_repository(push_command(branch)),
            PhaseView::Recovering(recovery) => recovery.request(),
            PhaseView::Resolving { count } => in_repository(revision_command()),
            PhaseView::Resetting { images, failure } => in_repository(reset_command(images)),
            PhaseView::Removing { names, failure } => RequestView::Remove { name: names[0] },
        }
    }

    /// The procedure in another phase.
    pub open spec fn at(self, phase: PhaseView) -> UploadStep {
        StepView::Continue(UploadView { phase, ..self })
    }

    /// The procedure after a further step of the preparation.
    pub open spec fn prepared(
        self,
        platform: Platform,
        step: StepView<PrepareView, Seq<char>>,
        sources: Seq<Seq<char>>,
    ) -> UploadStep {
        match step {
            StepView::Continue(preparation) => self.at(PhaseView::Preparing { platform, preparation, sources }),
            StepView::Finish(Ok(branch)) => UploadView::copied(
                self.web_url,
                branch,
                CopyView::start(platform, sources),
            ),
            StepView::Finish(Err(failure)) => StepView::Finish(Err(failure)),
        }
    }

    /// The procedure after a further step of the copying.
    pub open spec fn copied(
        web_url: Seq<char>,
        branch: Seq<char>,
        step: StepView<CopyView, Seq<ImageView>>,
    ) -> UploadStep {
        match step {
            StepView::Continue(copying) => StepView::Continue(
                UploadView { web_url, phase: PhaseView::Copying { branch, copying } },
            ),
            StepView::Finish(Ok(images)) => StepView::Continue(
                UploadView { web_url, phase: PhaseView::Adding { branch, images } },
            ),
            StepView::Finish(Err(failure)) => StepView::Finish(Err(failure)),
        }
    }

    /// The procedure after the push ended. A push that was refused because it needs Git LFS is
    /// repeated with it.
    pub open spec fn pushed(
        self,
        branch: Seq<char>,
        images: Seq<ImageView>,
        reply: Result<OutputView, Failure>,
    ) -> UploadStep {
        match reply {
            Ok(output) => if output.success() {
                self.at(PhaseView::Resolving { count: images.len() })
            } else if lfs_related(output.combined()) {
                self.at(PhaseView::Recovering(RecoveryView::start(branch, images)))
            } else {
                StepView::Finish(Err(failure_of("git push"@, output)))
            },
            Err(failure) => StepView::Finish(Err(failure)),
        }
    }

    /// The procedure after a further step of the repetition.
    pub open spec fn recovered(
        self,
        step: StepView<RecoveryView, ()>,
        count: nat,
    ) -> UploadStep {
        match step {
            StepView::Continue(recovery) => self.at(PhaseView::Recovering(recovery)),
            StepView::Finish(Ok(_)) => self.at(PhaseView::Resolving { count }),
            StepView::Finish(Err(failure)) => StepView::Finish(Err(failure)),
        }
    }

    /// The procedure while it deletes the named files because of a failure.
    pub open spec fn undo(
        web_url: Seq<char>,
        names: Seq<Seq<char>>,
        failure: Failure,
    ) -> UploadStep {
        if names.len() == 0 {
            StepView::Finish(Err(failure))
        } else {
            StepView::Continue(
                UploadView { web_url, phase: PhaseView::Removing { names, failure } },
            )
        }
    }

    /// The result once the name of the commit is known.
    pub open spec fn resolved(self, count: nat, output: OutputView) -> UploadResultView {
        UploadResultView {
            image_count: count,
            commit: trimmed(output.stdout),
            repository_url: self.web_url,
        }
    }

    /// The procedure after a reply.
    pub open spec fn resume(self, reply: ReplyView) -> UploadStep {
        match (self.phase, reply) {
            (PhaseView::Preparing { platform, preparation, sources }, _) => self.prepared(
                platform,
                preparation.resume(reply),
                sources,
            ),
            (PhaseView::Copying { branch, copying }, _) => UploadView::copied(
                self.web_url,
                branch,
                copying.resume(reply),
            ),
            (PhaseView::Adding { branch, images }, ReplyView::Git(result)) => match checked(
                add_command(images),
                result,
            ) {
                Ok(_) => self.at(PhaseView::Committing { branch, images }),
                Err(failure) => self.at(PhaseView::Resetting { images, failure }),
            },
            (PhaseView::Committing { branch, images }, ReplyView::Git(result)) => match checked(
                commit_command(images.len()),
                result,
            ) {
                Ok(_) => self.at(PhaseView::Pushing { branch, images }),
                Err(failure) => self.at(PhaseView::Resetting { images, failure }),
            },
            (PhaseView::Pushing { branch, images }, ReplyView::Git(result)) => self.pushed(
                branch,
                images,
                result,
            ),
            (PhaseView::Recovering(recovery), _) => self.recovered(
                recovery.resume(reply),
                recovery.images.len(),
            ),
            (PhaseView::Resolving { count }, ReplyView::Git(result)) => match checked(
                revision_command(),
                result,
            ) {
                Ok(output) => StepView::Finish(Ok(self.resolved(count, output))),
                Err(failure) => StepView::Finish(Err(failure)),
            },
            (PhaseView::Resetting { images, failure }, ReplyView::Git(_)) => UploadView::undo(
                self.web_url,
                paths(images),
                failure,
            ),
            (PhaseView::Removing { names, failure }, ReplyView::Done(_)) => UploadView::undo(
                self.web_url,
                names.drop_first(),
                failure,
            ),
            _ => StepView::Continue(self),
        }
    }

    /// No further name can be tried for an image: the reply says that the last one is taken.
    pub open spec fn exhausted(self, reply: ReplyView) -> bool {
        self.phase matches PhaseView::Copying { branch, copying } && copying.exhausted(reply)
    }
}

// ---------------------------------------------------------------------------------------------
// The procedure
// ---------------------------------------------------------------------------------------------
#[derive(Debug)]
enum Phase {
    Preparing { platform: Platform, preparation: Preparation, sources: Vec<String> },
    Copying { branch: String, copying: Copying },
    Adding { branch: String, copied: CopiedImages },
    Committing { branch: String, copied: CopiedImages },
    Pushing { branch: String, copied: CopiedImages },
    Recovering(Recovery),
    Resolving { count: usize },
    Resetting { copied: CopiedImages, error: AppError },
    Removing { names: Vec<String>, position: usize, error: AppError },
}

impl View for Phase {
    type V = PhaseView;

    closed spec fn view(&self) -> PhaseView {
        match self {
            Phase::Preparing { platform, preparation, sources } => PhaseView::Preparing {
                platform: *platform,
                preparation: preparation@,
                sources: sources.deep_view(),
            },
            Phase::Copying { branch, copying } => PhaseView::Copying {
                branch: branch@,
                copying: copying@,
            },
            Phase::Adding { branch, copied } => PhaseView::Adding {
                branch: branch@,
                images: copied@,
            },
            Phase::Committing { branch, copied } => PhaseView::Committing {
                branch: branch@,
                images: copied@,
            },
            Phase::Pushing { branch, copied } => PhaseView::Pushing {
                branch: branch@,
                images: copied@,
            },
            Phase::Recovering(recovery) => PhaseView::Recovering(recovery@),
            Phase::Resolving { count } => PhaseView::Resolving { count: *count as nat },
            Phase::Resetting { copied, error } => PhaseView::Resetting {
                images: copied@,
                failure: error@,
            },
            Phase::Removing { names, position, error } => PhaseView::Removing {
                names: names.deep_view().skip(*position as int),
                failure: error@,
            },
        }
    }
}

/// The upload of a selection of images.
#[derive(Debug)]
pub struct Upload {
    web_url: String,
    phase: Phase,
}

impl View for Upload {
    type V = UploadView;

    closed spec fn view(&self) -> UploadView {
        UploadView { web_url: self.web_url@, phase: self.phase@ }
    }
}

/// Starts to upload the images that the given paths lead to. The local copy of the repository is
/// to be found in `directory`. The platform says how paths are divided.
pub fn upload_images(
    platform: Platform,
    repository: &RepositoryInfo,
    credentials: &Credentials,
    directory: &str,
    source_paths: Vec<String>,
) -> (r: Step<Upload, UploadResult>)
    ensures
        r@ == UploadView::start(
            platform,
            repository@,
            credentials@,
            directory@,
            source_paths.deep_view(),
        ),
{
    if source_paths.len() == 0 {
        return Step::Finish(Err(AppError::message("No images were selected.")));
    }
    let preparation = prepare_repository(repository, credentials, directory);
    Step::Continue(
        Upload {
            web_url: repository.web_url.clone(),
            phase: Phase::Preparing { platform, preparation, sources: source_paths },
        },
    )
}

fn add_arguments(copied: &CopiedImages) -> (r: Vec<String>)
    ensures
        r.deep_view() == add_command(copied@),
{
    let mut r = words(&["add", "--"]);
    assert(r.deep_view() =~= seq!["add"@, "--"@]);
    append_all(&mut r, &copied.paths());
    r
}

fn reset_arguments(copied: &CopiedImages) -> (r: Vec<String>)
    ensures
        r.deep_view() == reset_command(copied@),
{
    let mut r = words(&["reset", "--"]);
    assert(r.deep_view() =~= seq!["reset"@, "--"@]);
    append_all(&mut r, &copied.paths());
    r
}

fn commit_arguments(count: usize) -> (r: Vec<String>)
    ensures
        r.deep_view() == commit_command(count as nat),
{
    let subject = if count == 1 {
        "Add image via GitPic".to_owned()
    } else {
        "Add ".to_owned().concat(decimal_text(count as u64).as_str()).concat(" images via GitPic")
    };
    let r = words(&["commit", "-m", subject.as_str()]);
    assert(r.deep_view() =~= commit_command(count as nat));
    r
}

fn revision_arguments() -> (r: Vec<String>)
    ensures
        r.deep_view() == revision_command(),
{
    let r = words(&["rev-parse", "--short", "HEAD"]);
    assert(r.deep_view() =~= revision_command());
    r
}

fn run_in_repository(arguments: Vec<String>) -> (r: Request)
    ensures
        r@ == in_repository(arguments.deep_view()),
{
    Request::Git { place: Place::Repository, arguments }
}

impl Upload {
    #[verifier::type_invariant]
    closed spec fn inv(self) -> bool {
        self.phase matches Phase::Removing { names, position, error } ==> position < names@.len()
    }

    /// The pending request.
    pub fn request(&self) -> (r: Request)
        ensures
            r@ == self@.request(),
    {
        proof {
            use_type_invariant(&*self);
        }
        match &self.phase {
            Phase::Preparing { platform, preparation, sources } => preparation.request(),
            Phase::Copying { branch, copying } => copying.request(),
            Phase::Adding { branch, copied } => run_in_repository(add_arguments(copied)),
            Phase::Committing { branch, copied } => run_in_repository(
                commit_arguments(copied.images.len()),
            ),
            Phase::Pushing { branch, copied } => run_in_repository(push_arguments(branch.as_str())),
            Phase::Recovering(recovery) => recovery.request(),
            Phase::Resolving { count } => run_in_repository(revision_arguments()),
            Phase::Resetting { copied, error } => run_in_repository(reset_arguments(copied)),
            Phase::Removing { names, position, error } => Request::Remove {
                name: names[*position].clone(),
            },
        }
    }

    /// Whether the reply says that the last name that can be tried for an image is taken.
    pub fn exhausted(&self, reply: &Reply) -> (r: bool)
        ensures
            r == self@.exhausted(reply@),
    {
        match &self.phase {
            Phase::Copying { branch, copying } => copying.exhausted(reply),
            _ => false,
        }
    }

    /// Goes on with the reply to the pending request.
    pub fn resume(self, reply: Reply) -> (r: Step<Upload, UploadResult>)
        requires
            !self@.exhausted(reply@),
        ensures
            r@ == self@.resume(reply@),
    {
        proof {
            use_type_invariant(&self);
        }
        let Upload { web_url, phase } = self;
        match (phase, reply) {
            (Phase::Preparing { platform, preparation, sources }, reply) => match preparation.resume(reply) {
                Step::Continue(preparation) => Step::Continue(
                    Upload { web_url, phase: Phase::Preparing { platform, preparation, sources } },
                ),
                Step::Finish(Ok(branch)) => copied_step(
                    web_url,
                    branch,
                    copy_images(platform, sources),
                ),
                Step::Finish(Err(error)) => Step::Finish(Err(error)),
            },
            (Phase::Copying { branch, copying }, reply) => copied_step(
                web_url,
                branch,
                copying.resume(reply),
            ),
            (Phase::Adding { branch, copied }, Reply::Git(result)) => {
                let arguments = add_arguments(&copied);
                match run_git_checked(&arguments, result) {
                    Ok(_) => Step::Continue(
                        Upload { web_url, phase: Phase::Committing { branch, copied } },
                    ),
                    Err(error) => Step::Continue(
                        Upload { web_url, phase: Phase::Resetting { copied, error } },
                    ),
                }
            },
            (Phase::Committing { branch, copied }, Reply::Git(result)) => {
                let arguments = commit_arguments(copied.images.len());
                match run_git_checked(&arguments, result) {
                    Ok(_) => Step::Continue(
                        Upload { web_url, phase: Phase::Pushing { branch, copied } },
                    ),
                    Err(error) => Step::Continue(
                        Upload { web_url, phase: Phase::Resetting { copied, error } },
                    ),
                }
            },
            (Phase::Pushing { branch, copied }, Reply::Git(result)) => match result {
                Ok(output) => if output.success() {
                    Step::Continue(
                        Upload {
                            web_url,
                            phase: Phase::Resolving { count: copied.images.len() },
                        },
                    )
                } else if is_lfs_related(output.combined().as_str()) {
                    Step::Continue(
                        Upload {
                            web_url,
                            phase: Phase::Recovering(recover_with_lfs(branch, copied)),
                        },
                    )
                } else {
                    Step::Finish(Err(command_failure("git push", &output)))
                },
                Err(error) => Step::Finish(Err(error)),
            },
            (Phase::Recovering(recovery), reply) => {
                let count = recovery.image_count();
                match recovery.resume(reply) {
                    Step::Continue(recovery) => Step::Continue(
                        Upload { web_url, phase: Phase::Recovering(recovery) },
                    ),
                    Step::Finish(Ok(_)) => Step::Continue(
                        Upload { web_url, phase: Phase::Resolving { count } },
                    ),
                    Step::Finish(Err(error)) => Step::Finish(Err(error)),
                }
            },
            (Phase::Resolving { count }, Reply::Git(result)) => {
                let arguments = revision_arguments();
                match run_git_checked(&arguments, result) {
                    Ok(output) => Step::Finish(
                        Ok(
                            UploadResult {
                                image_count: count,
                                commit: trim(output.stdout.as_str()).to_owned(),
                                repository_url: web_url,
                            },
                        ),
                    ),
                    Err(error) => Step::Finish(Err(error)),
                }
            },
            (Phase::Resetting { copied, error }, Reply::Git(_)) => {
                let names = copied.paths();
                assert(names.deep_view().skip(0) =~= names.deep_view());
                undo_step(web_url, names, 0, error)
            },
            (Phase::Removing { names, position, error }, Reply::Done(_)) => {
                assert(position < names.len());
                assert(names.deep_view().skip(position as int).drop_first()
                    =~= names.deep_view().skip(position + 1));
                undo_step(web_url, names, position + 1, error)
            },
            (phase, _) => Step::Continue(Upload { web_url, phase }),
        }
    }
}

fn copied_step(web_url: String, branch: String, step: Step<Copying, CopiedImages>) -> (r: Step<
    Upload,
    UploadResult,
>)
    ensures
        r@ == UploadView::copied(web_url@, branch@, step@),
{
    match step {
        Step::Continue(copying) => Step::Continue(
            Upload { web_url, phase: Phase::Copying { branch, copying } },
        ),
        Step::Finish(Ok(copied)) => Step::Continue(
            Upload { web_url, phase: Phase::Adding { branch, copied } },
        ),
        Step::Finish(Err(error)) => Step::Finish(Err(error)),
    }
}

fn undo_step(web_url: String, names: Vec<String>, position: usize, error: AppError) -> (r: Step<
    Upload,
    UploadResult,
>)
    requires
        position <= names@.len(),
    ensures
        r@ == UploadView::undo(web_url@, names.deep_view().skip(position as int), error@),
{
    if position < names.len() {
        Step::Continue(Upload { web_url, phase: Phase::Removing { names, position, error } })
    } else {
        Step::Finish(Err(error))
    }
}

// ---------------------------------------------------------------------------------------------
// Whole runs
// ---------------------------------------------------------------------------------------------
/// The procedure after a series of replies.
pub open spec fn upload_after(step: UploadStep, replies: Seq<ReplyView>) -> UploadStep
    decreases replies.len(),
{
    match step {
        StepView::Continue(machine) => if replies.len() == 0 {
            step
        } else {
            upload_after(machine.resume(replies[0]), replies.drop_first())
        },
        StepView::Finish(_) => step,
    }
}

/// The requests that a series of replies answers.
pub open spec fn upload_requests(step: UploadStep, replies: Seq<ReplyView>) -> Seq<RequestView>
    decreases replies.len(),
{
    match step {
        StepView::Continue(machine) => if replies.len() == 0 {
            Seq::empty()
        } else {
            seq![machine.request()] + upload_requests(
                machine.resume(replies[0]),
                replies.drop_first(),
            )
        },
        StepView::Finish(_) => Seq::empty(),
    }
}

/// Every reply is of the kind that the request asks for to which it is given.
pub open spec fn upload_answered(step: UploadStep, replies: Seq<ReplyView>) -> bool
    decreases replies.len(),
{
    match step {
        StepView::Continue(machine) => replies.len() > 0 ==> answers(
            machine.request(),
            replies[0],
        ) && upload_answered(machine.resume(replies[0]), replies.drop_first()),
        StepView::Finish(_) => true,
    }
}

/// The request is to make a new commit.
pub open spec fn makes_commit(request: RequestView) -> bool {
    request matches RequestView::Git { place, arguments } && arguments.len() >= 2 && arguments[0]
        == "commit"@ && arguments[1] != "--amend"@
}

/// The request is to push to the remote.
pub open spec fn makes_push(request: RequestView) -> bool {
    request matches RequestView::Git { place, arguments } && arguments.len() >= 1 && arguments[0]
        == "push"@
}

/// How many of the requests are to make a new commit.
pub open spec fn commits(requests: Seq<RequestView>) -> nat
    decreases requests.len(),
{
    if requests.len() == 0 {
        0
    } else {
        let rest = commits(requests.drop_first());
        if makes_commit(requests[0]) {
            rest + 1
        } else {
            rest
        }
    }
}

/// How many of the requests are to push to the remote.
pub open spec fn pushes(requests: Seq<RequestView>) -> nat
    decreases requests.len(),
{
    if requests.len() == 0 {
        0
    } else {
        let rest = pushes(requests.drop_first());
        if makes_push(requests[0]) {
            rest + 1
        } else {
            rest
        }
    }
}

/// The credentials' token has no influence on what an upload asks for: no argument of a Git command
/// and no file name depends on it, nor does the result.
pub proof fn uploads_do_not_depend_on_the_token(
    platform: Platform,
    repository: RepositoryView,
    a: CredentialsView,
    b: CredentialsView,
    directory: Seq<char>,
    sources: Seq<Seq<char>>,
    replies: Seq<ReplyView>,
)
    requires
        a.username == b.username,
    ensures
        ({
            let with_a = UploadView::start(platform, repository, a, directory, sources);
            let with_b = UploadView::start(platform, repository, b, directory, sources);
            &&& upload_requests(with_a, replies) == upload_requests(with_b, replies)
            &&& upload_after(with_a, replies) == upload_after(with_b, replies)
        }),
{
}

proof fn lemma_distinct_commands()
    ensures
        "commit"@ != "push"@,
        "commit"@ != "clone"@,
        "commit"@ != "remote"@,
        "commit"@ != "config"@,
        "commit"@ != "fetch"@,
        "commit"@ != "show-ref"@,
        "commit"@ != "checkout"@,
        "commit"@ != "pull"@,
        "commit"@ != "lfs"@,
        "commit"@ != "add"@,
        "commit"@ != "reset"@,
        "commit"@ != "rev-parse"@,
        "push"@ != "clone"@,
        "push"@ != "remote"@,
        "push"@ != "config"@,
        "push"@ != "fetch"@,
        "push"@ != "show-ref"@,
        "push"@ != "checkout"@,
        "push"@ != "pull"@,
        "push"@ != "lfs"@,
        "push"@ != "add"@,
        "push"@ != "reset"@,
        "push"@ != "rev-parse"@,
        "-m"@ != "--amend"@,
{
    reveal_strlit("commit");
    reveal_strlit("push");
    reveal_strlit("clone");
    reveal_strlit("remote");
    reveal_strlit("config");
    reveal_strlit("fetch");
    reveal_strlit("show-ref");
    reveal_strlit("checkout");
    reveal_strlit("pull");
    reveal_strlit("lfs");
    reveal_strlit("add");
    reveal_strlit("reset");
    reveal_strlit("rev-parse");
    reveal_strlit("-m");
    reveal_strlit("--amend");
    assert("-m"@.len() == 2);
    assert("--amend"@.len() == 7);
    assert("commit"@[0] == 'c');
    assert("commit"@[2] == 'm');
    assert("remote"@[0] == 'r');
    assert("config"@[2] == 'n');
    assert("push"@[1] == 'u');
    assert("push"@[2] == 's');
    assert("pull"@[2] == 'l');
}

impl UploadView {
    /// How many commits are still to be made for the upload to succeed.
    pub open spec fn commits_due(self) -> nat {
        match self.phase {
            PhaseView::Preparing { platform, preparation, sources } => 1,
            PhaseView::Copying { branch, copying } => 1,
            PhaseView::Adding { branch, images } => 1,
            PhaseView::Committing { branch, images } => 1,
            _ => 0,
        }
    }

    /// The fewest and the most pushes that are still to be made for the upload to succeed.
    pub open spec fn pushes_due(self) -> (nat, nat) {
        match self.phase {
            PhaseView::Recovering(recovery) => (1, 1),
            PhaseView::Pushing { branch, images } => (1, 2),
            _ => if self.commits_due() == 1 {
                (1, 2)
            } else {
                (0, 0)
            },
        }
    }
}

/// A selection is uploaded with one commit and one push, which is repeated at most once: whatever
/// the replies, no more than one commit is made and no more than two pushes, and where the upload
/// succeeds, exactly one commit and at least one push.
pub proof fn uploads_make_one_commit(
    platform: Platform,
    repository: RepositoryView,
    credentials: CredentialsView,
    directory: Seq<char>,
    sources: Seq<Seq<char>>,
    replies: Seq<ReplyView>,
)
    requires
        upload_answered(
            UploadView::start(platform, repository, credentials, directory, sources),
            replies,
        ),
    ensures
        ({
            let start = UploadView::start(platform, repository, credentials, directory, sources);
            let requests = upload_requests(start, replies);
            &&& commits(requests) <= 1
            &&& pushes(requests) <= 2
            &&& upload_after(start, replies) matches StepView::Finish(Ok(_)) ==> commits(requests)
                == 1 && pushes(requests) >= 1
        }),
{
    let start = UploadView::start(platform, repository, credentials, directory, sources);
    if let StepView::Continue(machine) = start {
        lemma_commits_and_pushes(machine, replies);
    }
}

proof fn lemma_commit_request(machine: UploadView)
    ensures
        makes_commit(machine.request()) <==> machine.phase is Committing,
        makes_push(machine.request()) <==> (machine.phase is Pushing || (
        machine.phase matches PhaseView::Recovering(recovery) && recovery.stage
            == RecoveryStage::Push)),
{
    lemma_distinct_commands();
}

/// How a reply changes the number of commits and of pushes that are due.
proof fn lemma_due(machine: UploadView, reply: ReplyView)
    requires
        answers(machine.request(), reply),
    ensures
        match machine.resume(reply) {
            StepView::Continue(after) => {
                let commit: nat = if makes_commit(machine.request()) {
                    1
                } else {
                    0
                };
                let push: nat = if makes_push(machine.request()) {
                    1
                } else {
                    0
                };
                &&& after.commits_due() + commit <= machine.commits_due()
                &&& after.pushes_due().1 + push <= machine.pushes_due().1
                &&& {
                    ||| after.phase is Resetting
                    ||| after.phase is Removing
                    ||| {
                        &&& after.commits_due() + commit == machine.commits_due()
                        &&& after.pushes_due().0 + push >= machine.pushes_due().0
                    }
                }
            },
            StepView::Finish(Ok(_)) => machine.phase is Resolving,
            StepView::Finish(Err(_)) => true,
        },
{
    lemma_commit_request(machine);
    match machine.phase {
        PhaseView::Preparing { platform, preparation, sources } => {},
        PhaseView::Copying { branch, copying } => {},
        PhaseView::Adding { branch, images } => {},
        PhaseView::Committing { branch, images } => {},
        PhaseView::Pushing { branch, images } => {},
        PhaseView::Recovering(recovery) => {},
        PhaseView::Resolving { count } => {},
        PhaseView::Resetting { images, failure } => {},
        PhaseView::Removing { names, failure } => {},
    }
}

/// An upload that undoes what it did does not succeed.
proof fn lemma_undone_uploads_fail(machine: UploadView, replies: Seq<ReplyView>)
    requires
        machine.phase is Resetting || machine.phase is Removing,
    ensures
        !(upload_after(StepView::Continue(machine), replies) matches StepView::Finish(Ok(_))),
    decreases replies.len(),
{
    if replies.len() > 0 {
        let next = machine.resume(replies[0]);
        let rest = replies.drop_first();
        if let StepView::Continue(after) = next {
            lemma_undone_uploads_fail(after, rest);
        } else {
            assert(upload_after(next, rest) == next);
        }
    }
}

/// How many commits and pushes a run makes, by how many are due at its start.
proof fn lemma_commits_and_pushes(machine: UploadView, replies: Seq<ReplyView>)
    requires
        upload_answered(StepView::Continue(machine), replies),
    ensures
        ({
            let step = StepView::Continue(machine);
            let requests = upload_requests(step, replies);
            &&& commits(requests) <= machine.commits_due()
            &&& pushes(requests) <= machine.pushes_due().1
            &&& upload_after(step, replies) matches StepView::Finish(Ok(_)) ==> commits(requests)
                == machine.commits_due() && pushes(requests) >= machine.pushes_due().0
        }),
    decreases replies.len(),
{
    lemma_commit_request(machine);
    if replies.len() > 0 {
        let step = StepView::Continue(machine);
        let next = machine.resume(replies[0]);
        let rest = replies.drop_first();
        lemma_due(machine, replies[0]);
        let all = upload_requests(step, replies);
        let later = upload_requests(next, rest);
        assert(all[0] == machine.request());
        assert(all.drop_first() =~= later);
        assert(upload_after(step, replies) == upload_after(next, rest));
        assert(commits(all) == commits(later) + if makes_commit(all[0]) {
            1nat
        } else {
            0nat
        });
        assert(pushes(all) == pushes(later) + if makes_push(all[0]) {
            1nat
        } else {
            0nat
        });
        if let StepView::Continue(after) = next {
            lemma_commits_and_pushes(after, rest);
            if after.phase is Resetting || after.phase is Removing {
                lemma_undone_uploads_fail(after, rest);
            }
        } else {
            assert(upload_after(next, rest) == next);
            assert(later =~= Seq::empty());
        }
    }
}

/// When the images cannot be added or committed, they are taken back out of the index, every one of
/// them is deleted again, whether or not that succeeds, and then the failure is reported.
pub proof fn failed_commits_are_undone(
    machine: UploadView,
    branch: Seq<char>,
    images: Seq<ImageView>,
    command: Seq<Seq<char>>,
    reply: Result<OutputView, Failure>,
    failure: Failure,
    reset: Result<OutputView, Failure>,
    deletions: Seq<ReplyView>,
)
    requires
        ({
            ||| machine.phase == (PhaseView::Adding { branch, images }) && command == add_command(
                images,
            )
            ||| machine.phase == (PhaseView::Committing { branch, images }) && command
                == commit_command(images.len())
        }),
        checked(command, reply) == Err::<OutputView, Failure>(failure),
        deletions.len() == images.len(),
        forall|i: int| 0 <= i < deletions.len() ==> (#[trigger] deletions[i]) is Done,
    ensures
        ({
            let step = StepView::Continue(machine);
            let replies = seq![ReplyView::Git(reply), ReplyView::Git(reset)] + deletions;
            &&& upload_requests(step, replies) == seq![
                in_repository(command),
                in_repository(reset_command(images)),
            ] + removals(paths(images))
            &&& upload_after(step, replies) == UploadStep::Finish(Err(failure))
        }),
{
    let replies = seq![ReplyView::Git(reply), ReplyView::Git(reset)] + deletions;
    let rest = replies.drop_first();
    let resetting = UploadView { phase: PhaseView::Resetting { images, failure }, ..machine };
    assert(rest[0] == ReplyView::Git(reset));
    assert(rest.drop_first() =~= deletions);
    lemma_undoing(machine.web_url, paths(images), failure, deletions);
    let step = StepView::Continue(machine);
    let second = StepView::Continue(resetting);
    assert(machine.resume(replies[0]) == second);
    assert(upload_requests(second, rest) =~= seq![in_repository(reset_command(images))] + removals(
        paths(images),
    ));
    assert(upload_after(second, rest) == UploadStep::Finish(Err(failure)));
    assert(upload_requests(step, replies) =~= seq![
        in_repository(command),
        in_repository(reset_command(images)),
    ] + removals(paths(images)));
}

proof fn lemma_undoing(
    web_url: Seq<char>,
    names: Seq<Seq<char>>,
    failure: Failure,
    replies: Seq<ReplyView>,
)
    requires
        replies.len() == names.len(),
        forall|i: int| 0 <= i < replies.len() ==> (#[trigger] replies[i]) is Done,
    ensures
        upload_requests(UploadView::undo(web_url, names, failure), replies) == removals(names),
        upload_after(UploadView::undo(web_url, names, failure), replies) == UploadStep::Finish(
            Err(failure),
        ),
    decreases names.len(),
{
    if names.len() > 0 {
        let next = UploadView { web_url, phase: PhaseView::Removing { names, failure } };
        let rest = replies.drop_first();
        assert forall|i: int| 0 <= i < rest.len() implies (#[trigger] rest[i]) is Done by {
            assert(rest[i] == replies[i + 1]);
        }
        lemma_undoing(web_url, names.drop_first(), failure, rest);
        assert(next.resume(replies[0]) == UploadView::undo(web_url, names.drop_first(), failure));
        assert(removals(names) =~= seq![next.request()] + removals(names.drop_first()));
    } else {
        assert(removals(names) =~= Seq::empty());
    }
}

impl UploadView {
    /// What holds at every point of the procedure: the copying is sound, and what is added,
    /// committed and pushed is a selection of at least one image, and of images only.
    pub open spec fn sound(self, platform: Platform) -> bool {
        match self.phase {
            PhaseView::Preparing { platform: given, preparation, sources } => given == platform
                && sources.len() > 0,
            PhaseView::Copying { branch, copying } => copying.platform == platform
                && copying.sound(),
            PhaseView::Adding { branch, images } => some_images(platform, images),
            PhaseView::Committing { branch, images } => some_images(platform, images),
            PhaseView::Pushing { branch, images } => some_images(platform, images),
            PhaseView::Recovering(recovery) => some_images(platform, recovery.images),
            PhaseView::Resolving { count } => count > 0,
            PhaseView::Resetting { images, failure } => some_images(platform, images),
            PhaseView::Removing { names, failure } => names.len() > 0,
        }
    }
}

/// At least one image, and images only.
pub open spec fn some_images(platform: Platform, images: Seq<ImageView>) -> bool {
    images.len() > 0 && all_images(platform, images)
}

/// An upload starts sound.
pub proof fn uploads_start_sound(
    platform: Platform,
    repository: RepositoryView,
    credentials: CredentialsView,
    directory: Seq<char>,
    sources: Seq<Seq<char>>,
)
    ensures
        UploadView::start(platform, repository, credentials, directory, sources)
            matches StepView::Continue(machine) ==> machine.sound(platform),
{
}

/// A sound upload stays sound whatever the reply, and where it succeeds, it has uploaded at least
/// one image.
pub proof fn uploads_stay_sound(platform: Platform, machine: UploadView, reply: ReplyView)
    requires
        machine.sound(platform),
    ensures
        match machine.resume(reply) {
            StepView::Continue(next) => next.sound(platform),
            StepView::Finish(Ok(result)) => result.image_count > 0,
            StepView::Finish(Err(_)) => true,
        },
{
    if let PhaseView::Copying { branch, copying } = machine.phase {
        copying_stays_sound(copying, reply);
    }
    if let PhaseView::Preparing { platform: given, preparation, sources } = machine.phase {
        copying_starts_sound(given, sources);
    }
}

/// Where the push of the commit is refused for another reason than that it needs Git LFS, the upload
/// ends with what Git said.
pub proof fn refused_pushes_are_reported(
    machine: UploadView,
    branch: Seq<char>,
    images: Seq<ImageView>,
    output: OutputView,
)
    requires
        machine.phase == (PhaseView::Pushing { branch, images }),
        !output.success(),
        !lfs_related(output.combined()),
    ensures
        machine.resume(ReplyView::Git(Ok(output))) == UploadStep::Finish(
            Err(failure_of("git push"@, output)),
        ),
{
}

/// The replies to commands that ended with the given outputs.
pub open spec fn git_replies(outputs: Seq<OutputView>) -> Seq<ReplyView> {
    outputs.map_values(|output: OutputView| ReplyView::Git(Ok(output)))
}

/// Once the images are copied and as long as no command fails, they are added, committed and pushed,
/// and the result says how many they are, which commit adds them, and where the repository is.
pub proof fn uploads_report_what_was_pushed(
    machine: UploadView,
    branch: Seq<char>,
    images: Seq<ImageView>,
    outputs: Seq<OutputView>,
)
    requires
        machine.phase == (PhaseView::Adding { branch, images }),
        outputs.len() == 4,
        forall|i: int| 0 <= i < outputs.len() ==> (#[trigger] outputs[i]).success(),
    ensures
        ({
            let step = StepView::Continue(machine);
            &&& upload_requests(step, git_replies(outputs)) == seq![
                in_repository(add_command(images)),
                in_repository(commit_command(images.len())),
                in_repository(push_command(branch)),
                in_repository(revision_command()),
            ]
            &&& upload_after(step, git_replies(outputs)) == UploadStep::Finish(
                Ok(machine.resolved(images.len(), outputs[3])),
            )
        }),
{
    reveal_with_fuel(upload_requests, 6);
    reveal_with_fuel(upload_after, 6);
    let replies = git_replies(outputs);
    let second = replies.drop_first();
    let third = second.drop_first();
    let fourth = third.drop_first();
    assert(outputs[0].success() && outputs[1].success());
    assert(outputs[2].success() && outputs[3].success());
    assert(replies[0] == ReplyView::Git(Ok(outputs[0])));
    assert(second[0] == ReplyView::Git(Ok(outputs[1])));
    assert(third[0] == ReplyView::Git(Ok(outputs[2])));
    assert(fourth[0] == ReplyView::Git(Ok(outputs[3])));
    assert(fourth.drop_first() =~= Seq::empty());
    assert(upload_requests(StepView::Continue(machine), replies) =~= seq![
        in_repository(add_command(images)),
        in_repository(commit_command(images.len())),
        in_repository(push_command(branch)),
        in_repository(revision_command()),
    ]);
}

/// A push that is refused because it needs Git LFS is repeated with it. As long as no command fails,
/// Git LFS is set up, the images are added to it, the commit is replaced and pushed again, and the
/// upload succeeds as if it had been pushed at once.
#[verifier::spinoff_prover]
pub proof fn large_images_are_pushed_with_lfs(
    machine: UploadView,
    branch: Seq<char>,
    images: Seq<ImageView>,
    refused: OutputView,
    outputs: Seq<OutputView>,
)
    requires
        machine.phase == (PhaseView::Pushing { branch, images }),
        !refused.success(),
        lfs_related(refused.combined()),
        outputs.len() == 7,
        forall|i: int| 0 <= i < outputs.len() ==> (#[trigger] outputs[i]).success(),
    ensures
        ({
            let step = machine.resume(ReplyView::Git(Ok(refused)));
            &&& upload_requests(step, git_replies(outputs)) == seq![
                in_repository(seq!["lfs"@, "version"@]),
                in_repository(seq!["lfs"@, "install"@, "--local"@]),
                in_repository(seq!["lfs"@, "track"@] + patterns(images)),
                in_repository(seq!["add"@, "--"@, ".gitattributes"@] + paths(images)),
                in_repository(seq!["commit"@, "--amend"@, "--no-edit"@]),
                in_repository(push_command(branch)),
                in_repository(revision_command()),
            ]
            &&& upload_after(step, git_replies(outputs)) == UploadStep::Finish(
                Ok(machine.resolved(images.len(), outputs[6])),
            )
        }),
{
    let step = machine.resume(ReplyView::Git(Ok(refused)));
    let first = UploadView {
        phase: PhaseView::Recovering(RecoveryView::start(branch, images)),
        ..machine
    };
    let tracking = RecoveryView { branch, images, stage: RecoveryStage::Track };
    let second = UploadView { phase: PhaseView::Recovering(tracking), ..machine };
    assert(step == UploadStep::Continue(first));
    let start = outputs.take(2);
    let last = outputs.skip(2);
    assert(start[0] == outputs[0] && start[1] == outputs[1]);
    assert forall|i: int| 0 <= i < last.len() implies (#[trigger] last[i]).success() by {
        assert(last[i] == outputs[i + 2]);
    }
    assert(outputs =~= start + last);
    lemma_lfs_is_set_up(first, start[0], start[1], last);
    lemma_images_join_lfs(second, tracking, last);
    assert(git_replies(outputs) =~= seq![
        ReplyView::Git(Ok(start[0])),
        ReplyView::Git(Ok(start[1])),
    ] + git_replies(last));
    assert(upload_requests(step, git_replies(outputs)) =~= seq![
        in_repository(seq!["lfs"@, "version"@]),
        in_repository(seq!["lfs"@, "install"@, "--local"@]),
        in_repository(seq!["lfs"@, "track"@] + patterns(images)),
        in_repository(seq!["add"@, "--"@, ".gitattributes"@] + paths(images)),
        in_repository(seq!["commit"@, "--amend"@, "--no-edit"@]),
        in_repository(push_command(branch)),
        in_repository(revision_command()),
    ]);
}

/// The first part of the repetition: Git LFS is there, and is set up.
#[verifier::spinoff_prover]
proof fn lemma_lfs_is_set_up(
    machine: UploadView,
    version: OutputView,
    install: OutputView,
    outputs: Seq<OutputView>,
)
    requires
        machine.phase matches PhaseView::Recovering(recovery) && recovery.stage
            == RecoveryStage::Version,
        version.success(),
        install.success(),
    ensures
        ({
            let recovery = machine.phase->Recovering_0;
            let tracking = RecoveryView { stage: RecoveryStage::Track, ..recovery };
            let next = UploadView { phase: PhaseView::Recovering(tracking), ..machine };
            let step = StepView::Continue(machine);
            let replies = seq![ReplyView::Git(Ok(version)), ReplyView::Git(Ok(install))]
                + git_replies(outputs);
            let later = StepView::Continue(next);
            &&& upload_requests(step, replies) == seq![
                in_repository(seq!["lfs"@, "version"@]),
                in_repository(seq!["lfs"@, "install"@, "--local"@]),
            ] + upload_requests(later, git_replies(outputs))
            &&& upload_after(step, replies) == upload_after(later, git_replies(outputs))
        }),
{
    let recovery = machine.phase->Recovering_0;
    let installing = RecoveryView { stage: RecoveryStage::Install, ..recovery };
    let between = UploadView { phase: PhaseView::Recovering(installing), ..machine };
    let tracking = RecoveryView { stage: RecoveryStage::Track, ..recovery };
    let next = UploadView { phase: PhaseView::Recovering(tracking), ..machine };
    let step = StepView::Continue(machine);
    let middle = StepView::Continue(between);
    let later = StepView::Continue(next);
    let rest = git_replies(outputs);
    let replies = seq![ReplyView::Git(Ok(version)), ReplyView::Git(Ok(install))] + rest;
    let second = replies.drop_first();
    assert(second[0] == ReplyView::Git(Ok(install)));
    assert(second.drop_first() =~= rest);
    assert(machine.resume(replies[0]) == middle);
    assert(between.resume(second[0]) == later);
    assert(upload_requests(middle, second) == seq![between.request()] + upload_requests(
        later,
        rest,
    ));
    assert(upload_after(middle, second) == upload_after(later, rest));
    assert(upload_requests(step, replies) =~= seq![machine.request(), between.request()]
        + upload_requests(later, rest));
}

/// The second part of the repetition: the images are moved to Git LFS, and pushed.
#[verifier::spinoff_prover]
proof fn lemma_images_join_lfs(
    machine: UploadView,
    recovery: RecoveryView,
    outputs: Seq<OutputView>,
)
    requires
        machine.phase == PhaseView::Recovering(recovery),
        recovery.stage == RecoveryStage::Track,
        outputs.len() == 5,
        forall|i: int| 0 <= i < outputs.len() ==> (#[trigger] outputs[i]).success(),
    ensures
        ({
            let step = StepView::Continue(machine);
            &&& upload_requests(step, git_replies(outputs)) == seq![
                in_repository(seq!["lfs"@, "track"@] + patterns(recovery.images)),
                in_repository(seq!["add"@, "--"@, ".gitattributes"@] + paths(recovery.images)),
                in_repository(seq!["commit"@, "--amend"@, "--no-edit"@]),
                in_repository(push_command(recovery.branch)),
                in_repository(revision_command()),
            ]
            &&& upload_after(step, git_replies(outputs)) == UploadStep::Finish(
                Ok(machine.resolved(recovery.images.len(), outputs[4])),
            )
        }),
{
    reveal_with_fuel(upload_requests, 7);
    reveal_with_fuel(upload_after, 7);
    let r0 = git_replies(outputs);
    let r1 = r0.drop_first();
    let r2 = r1.drop_first();
    let r3 = r2.drop_first();
    let r4 = r3.drop_first();
    assert(outputs[0].success() && outputs[1].success() && outputs[2].success());
    assert(outputs[3].success() && outputs[4].success());
    assert(r0[0] == ReplyView::Git(Ok(outputs[0])));
    assert(r1[0] == ReplyView::Git(Ok(outputs[1])));
    assert(r2[0] == ReplyView::Git(Ok(outputs[2])));
    assert(r3[0] == ReplyView::Git(Ok(outputs[3])));
    assert(r4[0] == ReplyView::Git(Ok(outputs[4])));
    assert(r4.drop_first() =~= Seq::empty());
    assert(upload_requests(StepView::Continue(machine), r0) =~= seq![
        in_repository(seq!["lfs"@, "track"@] + patterns(recovery.images)),
        in_repository(seq!["add"@, "--"@, ".gitattributes"@] + paths(recovery.images)),
        in_repository(seq!["commit"@, "--amend"@, "--no-edit"@]),
        in_repository(push_command(recovery.branch)),
        in_repository(revision_command()),
    ]);
}

/// A push that needs Git LFS, but where Git LFS is not installed, ends the upload with advice. What
/// goes wrong later on is reported as such.
pub proof fn failures_of_lfs_are_reported(
    machine: UploadView,
    recovery: RecoveryView,
    output: OutputView,
)
    requires
        machine.phase == PhaseView::Recovering(recovery),
        !output.success(),
    ensures
        machine.resume(ReplyView::Git(Ok(output))) == UploadStep::Finish(
            Err(
                if recovery.stage == RecoveryStage::Version {
                    lfs_missing()
                } else {
                    incomplete(failure_of(command_line(recovery.command()), output))
                },
            ),
        ),
{
}

} // verus!

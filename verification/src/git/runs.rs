//! What uploads promise from their beginning to their end: which branch they work on, which commands
//! they run, and that every image of a selection takes part.
use vstd::prelude::*;

use crate::git::command::{OutputView, command_line, failure_of, lfs_related};
use crate::git::environment::Platform;
use crate::git::images::{CopyView, ImageView};
use crate::git::lfs::{RecoveryStage, RecoveryView, every_image_is_tracked, tracks_every_image};
use crate::git::naming::safe_components_keep_what_is_safe;
use crate::git::prepare::{PrepareStageView, PrepareView, foreign_folders_are_left_alone};
use crate::git::prepare::{listing_replies, location, preparing_after, working_branch};
use crate::git::protocol::{Place, ReplyView, RequestView};
use crate::git::synchronize::{SyncStage, SyncView};
use crate::git::upload::{PhaseView, UploadStep, UploadView, failed_commits_are_undone};
use crate::git::upload::{git_replies, large_images_are_pushed_with_lfs, upload_after};
use crate::git::upload::upload_requests;
use crate::models::{CredentialsView, Failure, Provider, RepositoryView, UploadResultView};
use crate::procedure::StepView;
use crate::text::{decimal, is_white_space, numeral_value, numerals_stand_for_their_numbers};
use crate::text::{trimming_empties_blank_texts_alone, trimming_removes_white_space_alone};

verus! {

// ---------------------------------------------------------------------------------------------
// Runs, one after the other
// ---------------------------------------------------------------------------------------------
/// A run goes on from where it was left: what comes of a series of replies comes of its first part
/// and then of the rest.
pub proof fn runs_can_be_divided(step: UploadStep, first: Seq<ReplyView>, rest: Seq<ReplyView>)
    ensures
        upload_after(step, first + rest) == upload_after(upload_after(step, first), rest),
        upload_requests(step, first + rest) == upload_requests(step, first) + upload_requests(
            upload_after(step, first),
            rest,
        ),
    decreases first.len(),
{
    let all = first + rest;
    match step {
        StepView::Continue(machine) => {
            if first.len() == 0 {
                assert(all =~= rest);
                assert(upload_requests(step, first) =~= Seq::empty());
                assert(upload_requests(step, all) =~= upload_requests(step, first)
                    + upload_requests(step, rest));
            } else {
                let next = machine.resume(first[0]);
                let shorter = first.drop_first();
                runs_can_be_divided(next, shorter, rest);
                assert(all[0] == first[0]);
                assert(all.drop_first() =~= shorter + rest);
                assert(upload_requests(step, all) =~= upload_requests(step, first)
                    + upload_requests(upload_after(step, first), rest));
            }
        },
        StepView::Finish(_) => {
            assert(upload_after(step, first) == step);
            assert(upload_requests(step, all) =~= upload_requests(step, first) + upload_requests(
                step,
                rest,
            ));
        },
    }
}

proof fn lemma_first_request(machine: UploadView, next: UploadView, reply: ReplyView)
    requires
        machine.resume(reply) == UploadStep::Continue(next),
    ensures
        upload_requests(StepView::Continue(machine), seq![reply]) == seq![machine.request()],
        upload_after(StepView::Continue(machine), seq![reply]) == UploadStep::Continue(next),
{
    let replies = seq![reply];
    let rest = replies.drop_first();
    assert(rest =~= Seq::empty());
    assert(upload_requests(UploadStep::Continue(next), rest) =~= Seq::empty());
    assert(upload_after(UploadStep::Continue(next), rest) == UploadStep::Continue(next));
    assert(upload_requests(StepView::Continue(machine), replies) =~= seq![machine.request()]);
}

/// One more reply, to a request that is known.
proof fn lemma_next_request(
    step: UploadStep,
    replies: Seq<ReplyView>,
    machine: UploadView,
    reply: ReplyView,
    next: UploadView,
)
    requires
        upload_after(step, replies) == UploadStep::Continue(machine),
        machine.resume(reply) == UploadStep::Continue(next),
    ensures
        upload_after(step, replies.push(reply)) == UploadStep::Continue(next),
        upload_requests(step, replies.push(reply)) == upload_requests(step, replies).push(
            machine.request(),
        ),
{
    runs_can_be_divided(step, replies, seq![reply]);
    lemma_first_request(machine, next, reply);
    assert(replies.push(reply) =~= replies + seq![reply]);
    assert(upload_requests(step, replies).push(machine.request()) =~= upload_requests(
        step,
        replies,
    ) + seq![machine.request()]);
}

// ---------------------------------------------------------------------------------------------
// The branch
// ---------------------------------------------------------------------------------------------
/// The branch that is worked on is the default branch, character for character, where that holds
/// anything but white space, and `main` only where it does not.
pub proof fn the_default_branch_is_worked_on(default_branch: Seq<char>)
    ensures
        working_branch(default_branch) == if exists|i: int|
            0 <= i < default_branch.len() && !is_white_space(#[trigger] default_branch[i]) {
            default_branch
        } else {
            "main"@
        },
{
    trimming_empties_blank_texts_alone(default_branch);
}

/// The replies while a local repository is connected to its remote. Where there is none yet, it is
/// cloned.
pub open spec fn connecting_replies(
    present: bool,
    url: OutputView,
    connected: OutputView,
) -> Seq<ReplyView> {
    if present {
        seq![
            ReplyView::Done(Ok(())),
            ReplyView::Exists(true),
            ReplyView::Git(Ok(url)),
            ReplyView::Git(Ok(connected)),
        ]
    } else {
        seq![
            ReplyView::Done(Ok(())),
            ReplyView::Exists(false),
            ReplyView::Exists(false),
            ReplyView::Git(Ok(connected)),
        ]
    }
}

impl UploadView {
    /// The upload at another stage of its preparation.
    spec fn preparing(self, stage: PrepareStageView) -> UploadView {
        let platform = self.phase->Preparing_platform;
        let preparation = PrepareView { stage, ..self.phase->preparation };
        let sources = self.phase->sources;
        UploadView { phase: PhaseView::Preparing { platform, preparation, sources }, ..self }
    }
}

#[verifier::spinoff_prover]
proof fn lemma_connecting(
    machine: UploadView,
    repository: RepositoryView,
    directory: Seq<char>,
    present: bool,
    url: OutputView,
    connected: OutputView,
)
    requires
        machine.phase matches PhaseView::Preparing { platform, preparation, sources }
            && preparation.stage == PrepareStageView::CreateParent && preparation.repository
            == repository && preparation.directory == directory,
        connected.status == 0,
    ensures
        ({
            let step = StepView::Continue(machine);
            let replies = connecting_replies(present, url, connected);
            &&& upload_requests(step, replies) == connecting_requests(
                repository,
                directory,
                present,
                url,
            )
            &&& upload_after(step, replies) == UploadStep::Continue(
                machine.preparing(PrepareStageView::Name),
            )
        }),
{
    let step = UploadStep::Continue(machine);
    let none = Seq::<ReplyView>::empty();
    let probing = machine.preparing(PrepareStageView::ProbeGit);
    let after = machine.preparing(PrepareStageView::Name);
    let (second, third) = if present {
        (
            machine.preparing(PrepareStageView::GetUrl),
            machine.preparing(PrepareStageView::SetUrl { known: url.status == 0 }),
        )
    } else {
        (
            machine.preparing(PrepareStageView::ProbeDirectory),
            machine.preparing(PrepareStageView::Clone),
        )
    };
    let replies = connecting_replies(present, url, connected);
    let r1 = none.push(replies[0]);
    let r2 = r1.push(replies[1]);
    let r3 = r2.push(replies[2]);
    lemma_next_request(step, none, machine, replies[0], probing);
    lemma_next_request(step, r1, probing, replies[1], second);
    lemma_next_request(step, r2, second, replies[2], third);
    lemma_next_request(step, r3, third, replies[3], after);
    assert(r3.push(replies[3]) =~= replies);
    assert(upload_requests(step, none) =~= Seq::empty());
    assert(upload_requests(step, replies) =~= connecting_requests(
        repository,
        directory,
        present,
        url,
    ));
}

/// The requests while a local repository is connected to its remote.
pub open spec fn connecting_requests(
    repository: RepositoryView,
    directory: Seq<char>,
    present: bool,
    url: OutputView,
) -> Seq<RequestView> {
    if present {
        seq![
            RequestView::CreateParent,
            RequestView::ProbeGitDirectory,
            RequestView::Git {
                place: Place::Repository,
                arguments: seq!["remote"@, "get-url"@, "origin"@],
            },
            RequestView::Git {
                place: Place::Repository,
                arguments: seq![
                    "remote"@,
                    if url.status == 0 {
                        "set-url"@
                    } else {
                        "add"@
                    },
                    "origin"@,
                    repository.clone_url,
                ],
            },
        ]
    } else {
        seq![
            RequestView::CreateParent,
            RequestView::ProbeGitDirectory,
            RequestView::ProbeDirectory,
            RequestView::Git {
                place: Place::Parent,
                arguments: seq![
                    "clone"@,
                    "--origin"@,
                    "origin"@,
                    repository.clone_url,
                    directory,
                ],
            },
        ]
    }
}

/// The commands that configure a local repository and bring its branch up to date: the branch
/// exists here or not, and at the remote or not.
pub open spec fn updating_commands(
    provider: Provider,
    username: Seq<char>,
    branch: Seq<char>,
    local: bool,
    remote: bool,
) -> Seq<Seq<Seq<char>>> {
    let common = seq![
        seq!["config"@, "--local"@, "user.name"@, username],
        seq![
            "config"@,
            "--local"@,
            "user.email"@,
            username + "@users.noreply."@ + match provider {
                Provider::Github => "github.com"@,
                Provider::Gitlab => "gitlab.com"@,
            },
        ],
        seq!["fetch"@, "--prune"@, "origin"@],
        seq!["show-ref"@, "--verify"@, "--quiet"@, "refs/heads/"@ + branch],
        seq!["show-ref"@, "--verify"@, "--quiet"@, "refs/remotes/origin/"@ + branch],
        if local {
            seq!["checkout"@, branch]
        } else if remote {
            seq!["checkout"@, "-B"@, branch, "origin/"@ + branch]
        } else {
            seq!["checkout"@, "-B"@, branch]
        },
    ];
    if remote {
        common.push(seq!["pull"@, "--rebase"@, "origin"@, branch])
    } else {
        common
    }
}

/// The requests to run these commands in the local repository.
pub open spec fn run_there(commands: Seq<Seq<Seq<char>>>) -> Seq<RequestView> {
    Seq::new(
        commands.len(),
        |i: int| RequestView::Git { place: Place::Repository, arguments: commands[i] },
    )
}

#[verifier::spinoff_prover]
#[verifier::rlimit(40)]
proof fn lemma_updating(
    machine: UploadView,
    repository: RepositoryView,
    username: Seq<char>,
    branch: Seq<char>,
    outputs: Seq<OutputView>,
)
    requires
        machine.phase matches PhaseView::Preparing { platform, preparation, sources }
            && preparation.stage == PrepareStageView::Name && preparation.repository == repository
            && preparation.username == username && sources.len() > 0,
        branch == working_branch(repository.default_branch),
        outputs.len() >= 6,
        outputs[4].status == 0 ==> outputs.len() == 7,
        outputs[4].status != 0 ==> outputs.len() == 6,
        forall|i: int|
            0 <= i < outputs.len() && i != 3 && i != 4 ==> (#[trigger] outputs[i]).status == 0,
    ensures
        ({
            let step = StepView::Continue(machine);
            let replies = git_replies(outputs);
            let local = outputs[3].status == 0;
            let remote = outputs[4].status == 0;
            let commands = updating_commands(
                repository.provider,
                username,
                branch,
                local,
                remote,
            );
            &&& upload_requests(step, replies) == run_there(commands)
            &&& upload_after(step, replies) == UploadView::copied(
                machine.web_url,
                branch,
                CopyView::start(machine.phase->Preparing_platform, machine.phase->sources),
            )
        }),
{
    let step = UploadStep::Continue(machine);
    let none = Seq::<ReplyView>::empty();
    let local = outputs[3].status == 0;
    let remote = outputs[4].status == 0;
    let commands = updating_commands(repository.provider, username, branch, local, remote);
    let replies = git_replies(outputs);
    let m1 = machine.preparing(PrepareStageView::Email);
    let m2 = machine.preparing(
        PrepareStageView::Synchronize(SyncView { branch, stage: SyncStage::Fetch }),
    );
    let m3 = machine.preparing(
        PrepareStageView::Synchronize(SyncView { branch, stage: SyncStage::ShowLocal }),
    );
    let m4 = machine.preparing(
        PrepareStageView::Synchronize(SyncView { branch, stage: SyncStage::ShowRemote { local } }),
    );
    let m5 = machine.preparing(
        PrepareStageView::Synchronize(
            SyncView { branch, stage: SyncStage::Checkout { local, remote } },
        ),
    );
    let m6 = machine.preparing(
        PrepareStageView::Synchronize(SyncView { branch, stage: SyncStage::Pull }),
    );
    let last = UploadView::copied(
        machine.web_url,
        branch,
        CopyView::start(machine.phase->Preparing_platform, machine.phase->sources),
    );
    let end = last->Continue_0;
    assert(last == UploadStep::Continue(end));
    assert(outputs[0].status == 0 && outputs[1].status == 0 && outputs[2].status == 0);
    assert(outputs[5].status == 0);
    let r1 = none.push(replies[0]);
    let r2 = r1.push(replies[1]);
    let r3 = r2.push(replies[2]);
    let r4 = r3.push(replies[3]);
    let r5 = r4.push(replies[4]);
    let r6 = r5.push(replies[5]);
    lemma_next_request(step, none, machine, replies[0], m1);
    lemma_next_request(step, r1, m1, replies[1], m2);
    lemma_next_request(step, r2, m2, replies[2], m3);
    lemma_next_request(step, r3, m3, replies[3], m4);
    lemma_next_request(step, r4, m4, replies[4], m5);
    assert(upload_requests(step, none) =~= Seq::empty());
    if remote {
        assert(outputs[6].status == 0);
        lemma_next_request(step, r5, m5, replies[5], m6);
        lemma_next_request(step, r6, m6, replies[6], end);
        assert(r6.push(replies[6]) =~= replies);
    } else {
        lemma_next_request(step, r5, m5, replies[5], end);
        assert(r6 =~= replies);
    }
    assert(upload_requests(step, replies) =~= run_there(commands));
}

/// An upload begins by preparing the local repository. As long as no command fails that has to
/// succeed, the repository is connected to its remote, or cloned where there is none, and its default
/// branch is checked out and brought up to date; then the first path of the selection is followed.
/// Where the default branch is blank, the branch is `main`.
#[verifier::spinoff_prover]
pub proof fn uploads_prepare_the_default_branch(
    platform: Platform,
    repository: RepositoryView,
    credentials: CredentialsView,
    directory: Seq<char>,
    sources: Seq<Seq<char>>,
    present: bool,
    url: OutputView,
    connected: OutputView,
    outputs: Seq<OutputView>,
)
    requires
        sources.len() > 0,
        connected.status == 0,
        outputs.len() >= 6,
        outputs[4].status == 0 ==> outputs.len() == 7,
        outputs[4].status != 0 ==> outputs.len() == 6,
        forall|i: int|
            0 <= i < outputs.len() && i != 3 && i != 4 ==> (#[trigger] outputs[i]).status == 0,
    ensures
        ({
            let start = UploadView::start(platform, repository, credentials, directory, sources);
            let branch = if exists|i: int|
                0 <= i < repository.default_branch.len() && !is_white_space(
                    #[trigger] repository.default_branch[i],
                ) {
                repository.default_branch
            } else {
                "main"@
            };
            let replies = connecting_replies(present, url, connected) + git_replies(outputs);
            &&& upload_requests(start, replies) == connecting_requests(
                repository,
                directory,
                present,
                url,
            ) + run_there(
                updating_commands(
                    repository.provider,
                    credentials.username,
                    branch,
                    outputs[3].status == 0,
                    outputs[4].status == 0,
                ),
            )
            &&& upload_after(start, replies) matches StepView::Continue(next)
            &&& next.web_url == repository.web_url
            &&& next.phase matches PhaseView::Copying { branch: given, copying }
            &&& given == branch
            &&& copying.platform == platform
            &&& copying.pending == sources
            &&& copying.copied.len() == 0
            &&& copying.seen == Set::<Seq<u8>>::empty()
            &&& next.request() == (RequestView::Resolve { path: sources[0] })
        }),
{
    let start = UploadView::start(platform, repository, credentials, directory, sources);
    let machine = start->Continue_0;
    let named = machine.preparing(PrepareStageView::Name);
    let branch = working_branch(repository.default_branch);
    the_default_branch_is_worked_on(repository.default_branch);
    lemma_connecting(machine, repository, directory, present, url, connected);
    lemma_updating(named, repository, credentials.username, branch, outputs);
    runs_can_be_divided(
        start,
        connecting_replies(present, url, connected),
        git_replies(outputs),
    );
}

// ---------------------------------------------------------------------------------------------
// The commands
// ---------------------------------------------------------------------------------------------
/// The commands that an upload to a repository runs in the folder of the local repository: those that
/// connect and configure it, those that work on the branch, and those that add and commit images.
pub open spec fn serves(
    arguments: Seq<Seq<char>>,
    repository: RepositoryView,
    username: Seq<char>,
    branch: Seq<char>,
) -> bool {
    ||| arguments == seq!["remote"@, "get-url"@, "origin"@]
    ||| arguments == seq!["remote"@, "set-url"@, "origin"@, repository.clone_url]
    ||| arguments == seq!["remote"@, "add"@, "origin"@, repository.clone_url]
    ||| arguments == seq!["config"@, "--local"@, "user.name"@, username]
    ||| arguments == seq![
        "config"@,
        "--local"@,
        "user.email"@,
        username + "@users.noreply."@ + match repository.provider {
            Provider::Github => "github.com"@,
            Provider::Gitlab => "gitlab.com"@,
        },
    ]
    ||| arguments == seq!["fetch"@, "--prune"@, "origin"@]
    ||| arguments == seq!["show-ref"@, "--verify"@, "--quiet"@, "refs/heads/"@ + branch]
    ||| arguments == seq!["show-ref"@, "--verify"@, "--quiet"@, "refs/remotes/origin/"@ + branch]
    ||| arguments == seq!["checkout"@, branch]
    ||| arguments == seq!["checkout"@, "-B"@, branch, "origin/"@ + branch]
    ||| arguments == seq!["checkout"@, "-B"@, branch]
    ||| arguments == seq!["pull"@, "--rebase"@, "origin"@, branch]
    ||| arguments == seq!["push"@, "origin"@, "HEAD:refs/heads/"@ + branch]
    ||| arguments == seq!["rev-parse"@, "--short"@, "HEAD"@]
    ||| arguments == seq!["commit"@, "--amend"@, "--no-edit"@]
    ||| arguments == seq!["lfs"@, "version"@]
    ||| arguments == seq!["lfs"@, "install"@, "--local"@]
    ||| arguments.len() == 3 && arguments[0] == "commit"@ && arguments[1] == "-m"@
    ||| arguments.len() >= 2 && arguments[0] == "lfs"@ && arguments[1] == "track"@
    ||| arguments.len() >= 2 && arguments[0] == "add"@ && arguments[1] == "--"@
    ||| arguments.len() >= 2 && arguments[0] == "reset"@ && arguments[1] == "--"@
}

/// The request is not for a command, or for one of an upload to the repository. A command that is not
/// run in the folder of the local repository is the one that clones it there.
pub open spec fn proper(
    request: RequestView,
    repository: RepositoryView,
    username: Seq<char>,
    directory: Seq<char>,
    branch: Seq<char>,
) -> bool {
    match request {
        RequestView::Git { place: Place::Repository, arguments } => serves(
            arguments,
            repository,
            username,
            branch,
        ),
        RequestView::Git { place: Place::Parent, arguments } => arguments == seq![
            "clone"@,
            "--origin"@,
            "origin"@,
            repository.clone_url,
            directory,
        ],
        _ => true,
    }
}

impl UploadView {
    /// The upload is one to the repository, and works on the branch.
    spec fn devoted(
        self,
        repository: RepositoryView,
        username: Seq<char>,
        directory: Seq<char>,
        branch: Seq<char>,
    ) -> bool {
        &&& self.web_url == repository.web_url
        &&& match self.phase {
            PhaseView::Preparing { platform, preparation, sources } => {
                &&& preparation.repository == repository
                &&& preparation.username == username
                &&& preparation.directory == directory
                &&& preparation.stage matches PrepareStageView::Synchronize(inner) ==> inner.branch
                    == branch
            },
            PhaseView::Copying { branch: given, copying } => given == branch,
            PhaseView::Adding { branch: given, images } => given == branch,
            PhaseView::Committing { branch: given, images } => given == branch,
            PhaseView::Pushing { branch: given, images } => given == branch,
            PhaseView::Recovering(recovery) => recovery.branch == branch,
            _ => true,
        }
    }
}

#[verifier::spinoff_prover]
proof fn lemma_devoted_requests(
    machine: UploadView,
    repository: RepositoryView,
    username: Seq<char>,
    directory: Seq<char>,
    branch: Seq<char>,
)
    requires
        machine.devoted(repository, username, directory, branch),
    ensures
        proper(machine.request(), repository, username, directory, branch),
{
    match machine.phase {
        PhaseView::Preparing { platform, preparation, sources } => {
            match preparation.stage {
                PrepareStageView::Synchronize(inner) => {},
                _ => {},
            }
        },
        PhaseView::Copying { branch: given, copying } => {},
        PhaseView::Recovering(recovery) => {},
        _ => {},
    }
}

#[verifier::spinoff_prover]
proof fn lemma_devotion_lasts(
    machine: UploadView,
    reply: ReplyView,
    repository: RepositoryView,
    username: Seq<char>,
    directory: Seq<char>,
    branch: Seq<char>,
)
    requires
        machine.devoted(repository, username, directory, branch),
        branch == working_branch(repository.default_branch),
    ensures
        match machine.resume(reply) {
            StepView::Continue(next) => next.devoted(repository, username, directory, branch),
            StepView::Finish(Ok(result)) => result.repository_url == repository.web_url,
            StepView::Finish(Err(_)) => true,
        },
{
    match machine.phase {
        PhaseView::Preparing { platform, preparation, sources } => {
            match preparation.stage {
                PrepareStageView::Synchronize(inner) => {},
                _ => {},
            }
        },
        PhaseView::Copying { branch: given, copying } => {},
        PhaseView::Recovering(recovery) => {},
        _ => {},
    }
}

/// Whatever the replies, an upload runs no command but those of its repository and its branch: what is
/// cloned and connected is the repository, what is checked out, pulled and pushed is its default
/// branch, or `main` where that is blank, and where the upload succeeds, it reports the repository's
/// own address.
pub proof fn uploads_keep_to_their_repository(
    platform: Platform,
    repository: RepositoryView,
    credentials: CredentialsView,
    directory: Seq<char>,
    sources: Seq<Seq<char>>,
    replies: Seq<ReplyView>,
)
    ensures
        ({
            let start = UploadView::start(platform, repository, credentials, directory, sources);
            let requests = upload_requests(start, replies);
            let branch = if exists|i: int|
                0 <= i < repository.default_branch.len() && !is_white_space(
                    #[trigger] repository.default_branch[i],
                ) {
                repository.default_branch
            } else {
                "main"@
            };
            &&& forall|i: int|
                0 <= i < requests.len() ==> proper(
                    #[trigger] requests[i],
                    repository,
                    credentials.username,
                    directory,
                    branch,
                )
            &&& upload_after(start, replies) matches StepView::Finish(Ok(result))
                ==> result.repository_url == repository.web_url
        }),
{
    let start = UploadView::start(platform, repository, credentials, directory, sources);
    let branch = working_branch(repository.default_branch);
    the_default_branch_is_worked_on(repository.default_branch);
    if let StepView::Continue(machine) = start {
        lemma_devoted_run(machine, replies, repository, credentials.username, directory, branch);
    }
}

proof fn lemma_devoted_run(
    machine: UploadView,
    replies: Seq<ReplyView>,
    repository: RepositoryView,
    username: Seq<char>,
    directory: Seq<char>,
    branch: Seq<char>,
)
    requires
        machine.devoted(repository, username, directory, branch),
        branch == working_branch(repository.default_branch),
    ensures
        ({
            let step = StepView::Continue(machine);
            let requests = upload_requests(step, replies);
            &&& forall|i: int|
                0 <= i < requests.len() ==> proper(
                    #[trigger] requests[i],
                    repository,
                    username,
                    directory,
                    branch,
                )
            &&& upload_after(step, replies) matches StepView::Finish(Ok(result))
                ==> result.repository_url == repository.web_url
        }),
    decreases replies.len(),
{
    if replies.len() > 0 {
        let step = StepView::Continue(machine);
        let next = machine.resume(replies[0]);
        let rest = replies.drop_first();
        let requests = upload_requests(step, replies);
        let later = upload_requests(next, rest);
        assert(requests =~= seq![machine.request()] + later);
        assert(upload_after(step, replies) == upload_after(next, rest));
        lemma_devoted_requests(machine, repository, username, directory, branch);
        lemma_devotion_lasts(machine, replies[0], repository, username, directory, branch);
        if let StepView::Continue(after) = next {
            lemma_devoted_run(after, rest, repository, username, directory, branch);
        }
        assert forall|i: int| 0 <= i < requests.len() implies proper(
            #[trigger] requests[i],
            repository,
            username,
            directory,
            branch,
        ) by {
            if i > 0 {
                assert(requests[i] == later[i - 1]);
            }
        }
    }
}

// ---------------------------------------------------------------------------------------------
// The images
// ---------------------------------------------------------------------------------------------
/// A command on images: after its first words, it names every image, each by its name in the local
/// repository, in their order, and nothing else.
pub open spec fn names_every_image(
    request: RequestView,
    first: Seq<Seq<char>>,
    images: Seq<ImageView>,
) -> bool {
    &&& request matches RequestView::Git { place, arguments }
    &&& place == Place::Repository
    &&& arguments.len() == first.len() + images.len()
    &&& forall|i: int| 0 <= i < first.len() ==> arguments[i] == #[trigger] first[i]
    &&& forall|i: int|
        0 <= i < images.len() ==> arguments[first.len() + i] == (#[trigger] images[i]).relative_path
}

/// Once the repository is prepared, the whole selection is handed on to be copied, and what was copied
/// is handed on to be added, all of it, with the branch as it was.
pub proof fn the_whole_selection_is_taken_over(machine: UploadView, reply: ReplyView)
    ensures
        machine.phase matches PhaseView::Preparing { platform, preparation, sources } ==> (
        preparation.resume(reply) matches StepView::Finish(Ok(branch)) ==> sources.len() > 0 ==> {
            &&& machine.resume(reply) matches StepView::Continue(next)
            &&& next.phase matches PhaseView::Copying { branch: given, copying }
            &&& given == branch
            &&& copying.platform == platform
            &&& copying.pending == sources
            &&& copying.copied.len() == 0
        }),
        machine.phase matches PhaseView::Copying { branch, copying } ==> (copying.resume(reply)
            matches StepView::Finish(Ok(images)) ==> {
            &&& machine.resume(reply) matches StepView::Continue(next)
            &&& next.phase == (PhaseView::Adding { branch, images })
            &&& names_every_image(next.request(), seq!["add"@, "--"@], images)
        }),
{
}

/// Once the images are copied and as long as no command fails, every one of them is added by its name,
/// in their order; the commit says in its subject how many they are; it is pushed to the branch; and
/// the result says how many images were uploaded, where, and with which commit, whose name is what the
/// last command printed, without the white space around it.
#[verifier::spinoff_prover]
pub proof fn every_image_is_added_committed_and_pushed(
    machine: UploadView,
    branch: Seq<char>,
    images: Seq<ImageView>,
    outputs: Seq<OutputView>,
    before: Seq<char>,
    commit: Seq<char>,
    after: Seq<char>,
)
    requires
        machine.phase == (PhaseView::Adding { branch, images }),
        outputs.len() == 4,
        forall|i: int| 0 <= i < outputs.len() ==> (#[trigger] outputs[i]).status == 0,
        outputs[3].stdout == before + commit + after,
        forall|i: int| 0 <= i < before.len() ==> is_white_space(#[trigger] before[i]),
        forall|i: int| 0 <= i < after.len() ==> is_white_space(#[trigger] after[i]),
        commit.len() > 0 ==> !is_white_space(commit[0]) && !is_white_space(commit.last()),
    ensures
        ({
            let step = StepView::Continue(machine);
            let replies = git_replies(outputs);
            let requests = upload_requests(step, replies);
            &&& requests.len() == 4
            &&& names_every_image(requests[0], seq!["add"@, "--"@], images)
            &&& requests[1] matches RequestView::Git { place, arguments }
            &&& place == Place::Repository
            &&& arguments.len() == 3
            &&& arguments[0] == "commit"@
            &&& arguments[1] == "-m"@
            &&& says_how_many(arguments[2], images.len())
            &&& requests[2] == (RequestView::Git {
                place: Place::Repository,
                arguments: seq!["push"@, "origin"@, "HEAD:refs/heads/"@ + branch],
            })
            &&& requests[3] == (RequestView::Git {
                place: Place::Repository,
                arguments: seq!["rev-parse"@, "--short"@, "HEAD"@],
            })
            &&& upload_after(step, replies) == UploadStep::Finish(
                Ok(
                    UploadResultView {
                        image_count: images.len(),
                        commit,
                        repository_url: machine.web_url,
                    },
                ),
            )
        }),
{
    let step = UploadStep::Continue(machine);
    let none = Seq::<ReplyView>::empty();
    let replies = git_replies(outputs);
    let m1 = UploadView { phase: PhaseView::Committing { branch, images }, ..machine };
    let m2 = UploadView { phase: PhaseView::Pushing { branch, images }, ..machine };
    let m3 = UploadView { phase: PhaseView::Resolving { count: images.len() }, ..machine };
    assert(outputs[0].status == 0 && outputs[1].status == 0);
    assert(outputs[2].status == 0 && outputs[3].status == 0);
    let r1 = none.push(replies[0]);
    let r2 = r1.push(replies[1]);
    let r3 = r2.push(replies[2]);
    lemma_next_request(step, none, machine, replies[0], m1);
    lemma_next_request(step, r1, m1, replies[1], m2);
    lemma_next_request(step, r2, m2, replies[2], m3);
    assert(upload_requests(step, none) =~= Seq::empty());
    trimming_removes_white_space_alone(before, commit, after);
    lemma_last_request(step, r3, m3, replies[3]);
    assert(r3.push(replies[3]) =~= replies);
    numerals_stand_for_their_numbers(images.len());
    assert(stands_for(decimal(images.len()), images.len()));
}

/// The subject of a commit says how many images it adds: one image is spoken of as one, and several
/// by the numeral of their number.
pub open spec fn says_how_many(subject: Seq<char>, count: nat) -> bool {
    if count == 1 {
        subject == "Add image via GitPic"@
    } else {
        exists|digits: Seq<char>| #[trigger]
            stands_for(digits, count) && subject == "Add "@ + digits + " images via GitPic"@
    }
}

/// The digits are the numeral of a number, without needless zeros.
pub open spec fn stands_for(digits: Seq<char>, number: nat) -> bool {
    &&& numeral_value(digits) == number
    &&& digits.len() > 0
    &&& number > 0 ==> digits[0] != '0'
    &&& forall|i: int| 0 <= i < digits.len() ==> '0' <= #[trigger] digits[i] <= '9'
}

/// One more reply, with which the run ends.
proof fn lemma_last_request(
    step: UploadStep,
    replies: Seq<ReplyView>,
    machine: UploadView,
    reply: ReplyView,
)
    requires
        upload_after(step, replies) == UploadStep::Continue(machine),
        machine.resume(reply) is Finish,
    ensures
        upload_after(step, replies.push(reply)) == machine.resume(reply),
        upload_requests(step, replies.push(reply)) == upload_requests(step, replies).push(
            machine.request(),
        ),
{
    runs_can_be_divided(step, replies, seq![reply]);
    let here = UploadStep::Continue(machine);
    let rest = seq![reply].drop_first();
    assert(rest =~= Seq::empty());
    assert(upload_requests(machine.resume(reply), rest) =~= Seq::empty());
    assert(upload_after(machine.resume(reply), rest) == machine.resume(reply));
    assert(upload_requests(here, seq![reply]) =~= seq![machine.request()]);
    assert(upload_after(here, seq![reply]) == machine.resume(reply));
    assert(replies.push(reply) =~= replies + seq![reply]);
    assert(upload_requests(step, replies).push(machine.request()) =~= upload_requests(
        step,
        replies,
    ) + seq![machine.request()]);
}

/// A push that is refused because it needs Git LFS is repeated with it. As long as no command fails,
/// Git LFS is set up, told of every image, and every image is added again, by its name; the commit is
/// replaced and pushed to the same branch, and the result is as if it had been pushed at once.
#[verifier::spinoff_prover]
pub proof fn every_large_image_is_moved_to_lfs(
    machine: UploadView,
    branch: Seq<char>,
    images: Seq<ImageView>,
    refused: OutputView,
    outputs: Seq<OutputView>,
    before: Seq<char>,
    commit: Seq<char>,
    after: Seq<char>,
)
    requires
        machine.phase == (PhaseView::Pushing { branch, images }),
        refused.status != 0,
        lfs_related(refused.combined()),
        outputs.len() == 7,
        forall|i: int| 0 <= i < outputs.len() ==> (#[trigger] outputs[i]).status == 0,
        outputs[6].stdout == before + commit + after,
        forall|i: int| 0 <= i < before.len() ==> is_white_space(#[trigger] before[i]),
        forall|i: int| 0 <= i < after.len() ==> is_white_space(#[trigger] after[i]),
        commit.len() > 0 ==> !is_white_space(commit[0]) && !is_white_space(commit.last()),
    ensures
        ({
            let step = machine.resume(ReplyView::Git(Ok(refused)));
            let requests = upload_requests(step, git_replies(outputs));
            &&& requests.len() == 7
            &&& requests[0] == (RequestView::Git {
                place: Place::Repository,
                arguments: seq!["lfs"@, "version"@],
            })
            &&& requests[1] == (RequestView::Git {
                place: Place::Repository,
                arguments: seq!["lfs"@, "install"@, "--local"@],
            })
            &&& tracks_every_image(requests[2], images)
            &&& names_every_image(requests[3], seq!["add"@, "--"@, ".gitattributes"@], images)
            &&& requests[4] == (RequestView::Git {
                place: Place::Repository,
                arguments: seq!["commit"@, "--amend"@, "--no-edit"@],
            })
            &&& requests[5] == (RequestView::Git {
                place: Place::Repository,
                arguments: seq!["push"@, "origin"@, "HEAD:refs/heads/"@ + branch],
            })
            &&& requests[6] == (RequestView::Git {
                place: Place::Repository,
                arguments: seq!["rev-parse"@, "--short"@, "HEAD"@],
            })
            &&& upload_after(step, git_replies(outputs)) == UploadStep::Finish(
                Ok(
                    UploadResultView {
                        image_count: images.len(),
                        commit,
                        repository_url: machine.web_url,
                    },
                ),
            )
        }),
{
    large_images_are_pushed_with_lfs(machine, branch, images, refused, outputs);
    every_image_is_tracked(RecoveryView { branch, images, stage: RecoveryStage::Track });
    trimming_removes_white_space_alone(before, commit, after);
}

/// When the images cannot be added or committed, the index is reset by the name of every image, and
/// then every one of them is deleted, in their order, whatever comes of that; at last the failure is
/// reported, as it was.
pub proof fn failed_uploads_remove_every_image(
    machine: UploadView,
    branch: Seq<char>,
    images: Seq<ImageView>,
    reply: Result<OutputView, Failure>,
    reset: Result<OutputView, Failure>,
    deletions: Seq<ReplyView>,
)
    requires
        machine.phase == (PhaseView::Adding { branch, images }) || machine.phase
            == (PhaseView::Committing { branch, images }),
        reply matches Ok(output) ==> output.status != 0,
        deletions.len() == images.len(),
        forall|i: int| 0 <= i < deletions.len() ==> (#[trigger] deletions[i]) is Done,
    ensures
        ({
            let step = StepView::Continue(machine);
            let replies = seq![ReplyView::Git(reply), ReplyView::Git(reset)] + deletions;
            let requests = upload_requests(step, replies);
            &&& requests.len() == images.len() + 2
            &&& requests[0] == machine.request()
            &&& names_every_image(requests[1], seq!["reset"@, "--"@], images)
            &&& forall|i: int|
                0 <= i < images.len() ==> requests[i + 2] == (RequestView::Remove {
                    name: (#[trigger] images[i]).relative_path,
                })
            &&& upload_after(step, replies) == UploadStep::Finish(
                Err(
                    match reply {
                        Ok(output) => failure_of(
                            command_line(machine.request()->arguments),
                            output,
                        ),
                        Err(failure) => failure,
                    },
                ),
            )
        }),
{
    let command = machine.request()->arguments;
    let failure = match reply {
        Ok(output) => failure_of(command_line(command), output),
        Err(failure) => failure,
    };
    failed_commits_are_undone(
        machine,
        branch,
        images,
        command,
        reply,
        failure,
        reset,
        deletions,
    );
}

/// A push that Git could not run, or that is refused for another reason than that it needs Git LFS,
/// ends the upload; so does a commit whose name cannot be found out, and a preparation or a copying
/// that fails. The failure is reported as it was.
pub proof fn later_failures_end_the_upload(
    machine: UploadView,
    reply: ReplyView,
    output: OutputView,
    failure: Failure,
)
    ensures
        machine.phase is Pushing && reply == ReplyView::Git(Err(failure)) ==> machine.resume(reply)
            == UploadStep::Finish(Err(failure)),
        machine.phase is Pushing && reply == ReplyView::Git(Ok(output)) && output.status != 0
            && !lfs_related(output.combined()) ==> machine.resume(reply) == UploadStep::Finish(
            Err(failure_of("git push"@, output)),
        ),
        machine.phase is Resolving && reply == ReplyView::Git(Err(failure)) ==> machine.resume(reply)
            == UploadStep::Finish(Err(failure)),
        machine.phase is Resolving && reply == ReplyView::Git(Ok(output)) && output.status != 0
            ==> machine.resume(reply) == UploadStep::Finish(
            Err(failure_of(command_line(seq!["rev-parse"@, "--short"@, "HEAD"@]), output)),
        ),
        machine.phase matches PhaseView::Preparing { platform, preparation, sources } ==> (
        preparation.resume(reply) matches StepView::Finish(Err(failure)) ==> machine.resume(reply)
            == UploadStep::Finish(Err(failure))),
        machine.phase matches PhaseView::Copying { branch, copying } ==> (copying.resume(reply)
            matches StepView::Finish(Err(failure)) ==> machine.resume(reply) == UploadStep::Finish(
            Err(failure),
        )),
        machine.phase matches PhaseView::Recovering(recovery) ==> (recovery.resume(reply)
            matches StepView::Finish(Err(failure)) ==> machine.resume(reply) == UploadStep::Finish(
            Err(failure),
        )),
{
}

/// An upload of nothing fails at once, and an upload of anything does not.
pub proof fn an_upload_needs_a_selection(
    platform: Platform,
    repository: RepositoryView,
    credentials: CredentialsView,
    directory: Seq<char>,
    sources: Seq<Seq<char>>,
)
    ensures
        ({
            let start = UploadView::start(platform, repository, credentials, directory, sources);
            &&& sources.len() == 0 ==> start == UploadStep::Finish(
                Err(Failure::Message("No images were selected."@)),
            )
            &&& sources.len() > 0 ==> (start matches StepView::Continue(machine)
                && machine.request() == RequestView::CreateParent)
        }),
{
}

// ---------------------------------------------------------------------------------------------
// The preparation
// ---------------------------------------------------------------------------------------------
/// A preparation ends with the first command that fails. Only two questions may be answered by a
/// status other than zero: whether there is a remote, and whether a branch exists.
pub proof fn failed_preparations_are_reported(
    machine: PrepareView,
    output: OutputView,
    failure: Failure,
)
    ensures
        machine.request() is Git ==> machine.resume(ReplyView::Git(Err(failure))) == StepView::<
            PrepareView,
            Seq<char>,
        >::Finish(Err(failure)),
        machine.request() is Git && output.status != 0 && machine.stage !is GetUrl && !(machine.stage
            matches PrepareStageView::Synchronize(inner) && (inner.stage is ShowLocal || inner.stage
            is ShowRemote)) ==> machine.resume(ReplyView::Git(Ok(output))) == StepView::<
            PrepareView,
            Seq<char>,
        >::Finish(Err(failure_of(command_line(machine.request()->arguments), output))),
        machine.stage is CreateParent || machine.stage is OpenDirectory ==> machine.resume(
            ReplyView::Done(Err(failure)),
        ) == StepView::<PrepareView, Seq<char>>::Finish(Err(failure)),
        machine.stage is NextEntry ==> machine.resume(ReplyView::Entry(Err(failure))) == StepView::<
            PrepareView,
            Seq<char>,
        >::Finish(Err(failure)),
{
}

/// A folder in the place of the local repository that holds anything but what the macOS Finder leaves
/// behind is not cloned into: the preparation fails, and says which folder it is.
pub proof fn foreign_folders_are_named(
    machine: PrepareView,
    names: Seq<Seq<char>>,
    deletion: Result<(), Failure>,
)
    requires
        machine.stage == PrepareStageView::OpenDirectory,
    ensures
        ({
            let replies = listing_replies(names, deletion);
            let after = preparing_after(machine.resume(ReplyView::Done(Ok(()))), replies);
            if exists|i: int| 0 <= i < names.len() && #[trigger] names[i] != ".DS_Store"@ {
                after == StepView::<PrepareView, Seq<char>>::Finish(
                    Err(
                        Failure::Message(
                            "The local repository folder is not empty: "@ + machine.directory,
                        ),
                    ),
                )
            } else {
                &&& after matches StepView::Continue(next)
                &&& next.request() == (RequestView::Git {
                    place: Place::Parent,
                    arguments: seq![
                        "clone"@,
                        "--origin"@,
                        "origin"@,
                        machine.repository.clone_url,
                        machine.directory,
                    ],
                })
            }
        }),
{
    foreign_folders_are_left_alone(machine, names, deletion);
}

/// The local repository is found below a folder of the provider and one of the owner. In the owner's
/// name, an underscore takes the place of every character but ASCII letters, digits, periods, hyphens
/// and underscores; the repository's own name is kept.
pub proof fn repositories_are_found_by_provider_and_owner(repository: RepositoryView)
    ensures
        ({
            let folders = location(repository);
            &&& folders.len() == 3
            &&& folders[0] == match repository.provider {
                Provider::Github => "github"@,
                Provider::Gitlab => "gitlab"@,
            }
            &&& folders[1].len() == repository.owner.len()
            &&& forall|i: int|
                0 <= i < repository.owner.len() ==> {
                    let c = #[trigger] repository.owner[i];
                    folders[1][i] == if 'a' <= c <= 'z' || 'A' <= c <= 'Z' || '0' <= c <= '9' || c
                        == '.' || c == '-' || c == '_' {
                        c
                    } else {
                        '_'
                    }
                }
            &&& folders[2] == repository.name
        }),
{
    safe_components_keep_what_is_safe(repository.owner);
}

/// A reply that is not of the kind that the pending request asks for has no effect.
pub proof fn other_replies_have_no_effect(machine: UploadView, reply: ReplyView)
    requires
        match machine.request() {
            RequestView::Git { place, arguments } => !(reply is Git),
            RequestView::Resolve { path } => !(reply is Resolved),
            RequestView::NextEntry => !(reply is Entry),
            RequestView::ProbeGitDirectory => !(reply is Exists),
            RequestView::ProbeDirectory => !(reply is Exists),
            RequestView::ProbeDestination { name } => !(reply is Exists),
            _ => !(reply is Done),
        },
    ensures
        machine.resume(reply) == UploadStep::Continue(machine),
{
    match machine.phase {
        PhaseView::Preparing { platform, preparation, sources } => {
            match preparation.stage {
                PrepareStageView::Synchronize(inner) => {},
                _ => {},
            }
        },
        PhaseView::Copying { branch, copying } => {},
        PhaseView::Recovering(recovery) => {},
        _ => {},
    }
}

} // verus!

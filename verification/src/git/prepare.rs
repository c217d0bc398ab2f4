//! Preparing the local repository: it is cloned where it is missing, connected to its remote,
//! configured, and brought up to date.
use vstd::prelude::*;

use crate::git::command::{CommandOutput, OutputView, checked, run_git_checked};
use crate::git::naming::{safe_component, safe_path_component};
use crate::git::protocol::{Place, Reply, ReplyView, Request, RequestView};
use crate::git::protocol::in_repository;
use crate::git::synchronize::{SyncView, Synchronization, synchronize};
use crate::models::{AppError, AppResult, Credentials, Failure, RepositoryInfo, RepositoryView};
use crate::models::outcome;
use crate::procedure::{Step, StepView};
use crate::text::{same, trim, trimmed, words};

verus! {

// ---------------------------------------------------------------------------------------------
// Where the local repository is
// ---------------------------------------------------------------------------------------------
/// The folders that lead to a local repository: the provider's, the owner's, and its own.
pub open spec fn location(repository: RepositoryView) -> Seq<Seq<char>> {
    seq![repository.provider.spec_key(), safe_component(repository.owner), repository.name]
}

/// The folders, one within the other, that lead to a local repository; all but the last make up
/// the folder above it.
pub fn repository_location(repository: &RepositoryInfo) -> (r: Vec<String>)
    ensures
        r.deep_view() == location(repository@),
{
    let owner = safe_path_component(repository.owner.as_str());
    let r = words(&[repository.provider.key(), owner.as_str(), repository.name.as_str()]);
    assert(r.deep_view() =~= location(repository@));
    r
}

/// The branch that is worked on: the default branch of the repository, or `main` where it has none.
pub open spec fn working_branch(default_branch: Seq<char>) -> Seq<char> {
    if trimmed(default_branch).len() == 0 {
        "main"@
    } else {
        default_branch
    }
}

// ---------------------------------------------------------------------------------------------
// The procedure, as a model
// ---------------------------------------------------------------------------------------------
/// What the procedure is doing.
#[verifier::ext_equal]
pub enum PrepareStageView {
    /// It creates the folder above the local repository.
    CreateParent,
    /// It asks whether there is a local repository.
    ProbeGit,
    /// It asks whether there is a folder in the place of one.
    ProbeDirectory,
    /// It begins to list that folder.
    OpenDirectory,
    /// It lists that folder; it has met an entry that stands in the way, or not.
    NextEntry { conflict: bool },
    /// It deletes an entry that does not matter.
    RemoveEntry { conflict: bool },
    /// It clones the remote repository.
    Clone,
    /// It asks whether the local repository has a remote.
    GetUrl,
    /// It sets the address of the remote, which is known to the local repository or not.
    SetUrl { known: bool },
    /// It sets the author's name.
    Name,
    /// It sets the author's address.
    Email,
    /// It brings the branch up to date.
    Synchronize(SyncView),
}

/// The model of a [`Preparation`].
#[verifier::ext_equal]
pub struct PrepareView {
    pub repository: RepositoryView,
    pub username: Seq<char>,
    pub directory: Seq<char>,
    pub stage: PrepareStageView,
}

impl PrepareView {
    /// The procedure at its start.
    pub open spec fn start(
        repository: RepositoryView,
        username: Seq<char>,
        directory: Seq<char>,
    ) -> PrepareView {
        PrepareView { repository, username, directory, stage: PrepareStageView::CreateParent }
    }

    /// The arguments of the command that is to be run now, if it is one of this procedure's own.
    pub open spec fn command(self) -> Seq<Seq<char>> {
        match self.stage {
            PrepareStageView::Clone => seq![
                "clone"@,
                "--origin"@,
                "origin"@,
                self.repository.clone_url,
                self.directory,
            ],
            PrepareStageView::GetUrl => seq!["remote"@, "get-url"@, "origin"@],
            PrepareStageView::SetUrl { known } => seq![
                "remote"@,
                if known {
                    "set-url"@
                } else {
                    "add"@
                },
                "origin"@,
                self.repository.clone_url,
            ],
            PrepareStageView::Name => seq!["config"@, "--local"@, "user.name"@, self.username],
            PrepareStageView::Email => seq![
                "config"@,
                "--local"@,
                "user.email"@,
                self.username + "@users.noreply."@ + self.repository.provider.spec_host(),
            ],
            _ => Seq::empty(),
        }
    }

    /// The pending request.
    pub open spec fn request(self) -> RequestView {
        match self.stage {
            PrepareStageView::CreateParent => RequestView::CreateParent,
            PrepareStageView::ProbeGit => RequestView::ProbeGitDirectory,
            PrepareStageView::ProbeDirectory => RequestView::ProbeDirectory,
            PrepareStageView::OpenDirectory => RequestView::OpenDirectory,
            PrepareStageView::NextEntry { conflict } => RequestView::NextEntry,
            PrepareStageView::RemoveEntry { conflict } => RequestView::Remove {
                name: ".DS_Store"@,
            },
            PrepareStageView::Clone => RequestView::Git {
                place: Place::Parent,
                arguments: self.command(),
            },
            PrepareStageView::Synchronize(inner) => inner.request(),
            _ => in_repository(self.command()),
        }
    }

    /// The procedure at another stage.
    pub open spec fn at(self, stage: PrepareStageView) -> StepView<PrepareView, Seq<char>> {
        StepView::Continue(PrepareView { stage, ..self })
    }

    /// The failure of a folder that stands in the way of the local repository.
    pub open spec fn not_empty(self) -> Failure {
        Failure::Message("The local repository folder is not empty: "@ + self.directory)
    }

    /// The branch that is worked on.
    pub open spec fn branch(self) -> Seq<char> {
        working_branch(self.repository.default_branch)
    }

    /// The procedure after a further step of the synchronization.
    pub open spec fn synchronizing(self, step: StepView<SyncView, ()>) -> StepView<
        PrepareView,
        Seq<char>,
    > {
        match step {
            StepView::Continue(inner) => self.at(PrepareStageView::Synchronize(inner)),
            StepView::Finish(Ok(_)) => StepView::Finish(Ok(self.branch())),
            StepView::Finish(Err(failure)) => StepView::Finish(Err(failure)),
        }
    }

    /// The procedure after the next entry of the folder became known. The file that the macOS
    /// Finder leaves behind does not matter; any other entry stands in the way.
    pub open spec fn listed(self, conflict: bool, entry: Option<Seq<char>>) -> StepView<
        PrepareView,
        Seq<char>,
    > {
        match entry {
            Some(name) => if name == ".DS_Store"@ {
                self.at(PrepareStageView::RemoveEntry { conflict })
            } else {
                self.at(PrepareStageView::NextEntry { conflict: true })
            },
            None => if conflict {
                StepView::Finish(Err(self.not_empty()))
            } else {
                self.at(PrepareStageView::Clone)
            },
        }
    }

    /// The procedure after a command of its own ended. All but the question for the remote have to
    /// succeed.
    pub open spec fn ended(self, reply: Result<OutputView, Failure>) -> StepView<
        PrepareView,
        Seq<char>,
    > {
        match self.stage {
            PrepareStageView::GetUrl => match reply {
                Ok(output) => self.at(PrepareStageView::SetUrl { known: output.success() }),
                Err(failure) => StepView::Finish(Err(failure)),
            },
            _ => match checked(self.command(), reply) {
                Ok(_) => match self.stage {
                    PrepareStageView::Clone => self.at(PrepareStageView::Name),
                    PrepareStageView::SetUrl { known } => self.at(PrepareStageView::Name),
                    PrepareStageView::Name => self.at(PrepareStageView::Email),
                    _ => self.at(PrepareStageView::Synchronize(SyncView::start(self.branch()))),
                },
                Err(failure) => StepView::Finish(Err(failure)),
            },
        }
    }

    /// The procedure after a reply.
    pub open spec fn resume(self, reply: ReplyView) -> StepView<PrepareView, Seq<char>> {
        match (self.stage, reply) {
            (PrepareStageView::CreateParent, ReplyView::Done(result)) => match result {
                Ok(_) => self.at(PrepareStageView::ProbeGit),
                Err(failure) => StepView::Finish(Err(failure)),
            },
            (PrepareStageView::ProbeGit, ReplyView::Exists(present)) => if present {
                self.at(PrepareStageView::GetUrl)
            } else {
                self.at(PrepareStageView::ProbeDirectory)
            },
            (PrepareStageView::ProbeDirectory, ReplyView::Exists(present)) => if present {
                self.at(PrepareStageView::OpenDirectory)
            } else {
                self.at(PrepareStageView::Clone)
            },
            (PrepareStageView::OpenDirectory, ReplyView::Done(result)) => match result {
                Ok(_) => self.at(PrepareStageView::NextEntry { conflict: false }),
                Err(failure) => StepView::Finish(Err(failure)),
            },
            (PrepareStageView::NextEntry { conflict }, ReplyView::Entry(result)) => match result {
                Ok(entry) => self.listed(conflict, entry),
                Err(failure) => StepView::Finish(Err(failure)),
            },
            (PrepareStageView::RemoveEntry { conflict }, ReplyView::Done(_)) => self.at(
                PrepareStageView::NextEntry { conflict },
            ),
            (PrepareStageView::Synchronize(inner), _) => self.synchronizing(inner.resume(reply)),
            (PrepareStageView::Clone, ReplyView::Git(result)) => self.ended(result),
            (PrepareStageView::GetUrl, ReplyView::Git(result)) => self.ended(result),
            (PrepareStageView::SetUrl { known }, ReplyView::Git(result)) => self.ended(result),
            (PrepareStageView::Name, ReplyView::Git(result)) => self.ended(result),
            (PrepareStageView::Email, ReplyView::Git(result)) => self.ended(result),
            _ => StepView::Continue(self),
        }
    }
}

// ---------------------------------------------------------------------------------------------
// The procedure
// ---------------------------------------------------------------------------------------------
#[derive(Debug)]
enum PrepareStage {
    CreateParent,
    ProbeGit,
    ProbeDirectory,
    OpenDirectory,
    NextEntry { conflict: bool },
    RemoveEntry { conflict: bool },
    Clone,
    GetUrl,
    SetUrl { known: bool },
    Name,
    Email,
    Synchronize(Synchronization),
}

impl View for PrepareStage {
    type V = PrepareStageView;

    closed spec fn view(&self) -> PrepareStageView {
        match self {
            PrepareStage::CreateParent => PrepareStageView::CreateParent,
            PrepareStage::ProbeGit => PrepareStageView::ProbeGit,
            PrepareStage::ProbeDirectory => PrepareStageView::ProbeDirectory,
            PrepareStage::OpenDirectory => PrepareStageView::OpenDirectory,
            PrepareStage::NextEntry { conflict } => PrepareStageView::NextEntry {
                conflict: *conflict,
            },
            PrepareStage::RemoveEntry { conflict } => PrepareStageView::RemoveEntry {
                conflict: *conflict,
            },
            PrepareStage::Clone => PrepareStageView::Clone,
            PrepareStage::GetUrl => PrepareStageView::GetUrl,
            PrepareStage::SetUrl { known } => PrepareStageView::SetUrl { known: *known },
            PrepareStage::Name => PrepareStageView::Name,
            PrepareStage::Email => PrepareStageView::Email,
            PrepareStage::Synchronize(inner) => PrepareStageView::Synchronize(inner@),
        }
    }
}

/// What stays the same while a repository is prepared.
#[derive(Debug)]
struct Target {
    repository: RepositoryInfo,
    username: String,
    directory: String,
}

/// The preparation of a local repository.
#[derive(Debug)]
pub struct Preparation {
    target: Target,
    stage: PrepareStage,
}

impl View for Preparation {
    type V = PrepareView;

    closed spec fn view(&self) -> PrepareView {
        PrepareView {
            repository: self.target.repository@,
            username: self.target.username@,
            directory: self.target.directory@,
            stage: self.stage@,
        }
    }
}

/// Starts to prepare the local copy of a repository, which is to be found in `directory`. Of the
/// credentials only the user's name is taken.
pub fn prepare_repository(
    repository: &RepositoryInfo,
    credentials: &Credentials,
    directory: &str,
) -> (r: Preparation)
    ensures
        r@ == PrepareView::start(repository@, credentials@.username, directory@),
{
    Preparation {
        target: Target {
            repository: repository.clone(),
            username: credentials.username.clone(),
            directory: directory.to_owned(),
        },
        stage: PrepareStage::CreateParent,
    }
}

impl Preparation {
    fn command(&self) -> (r: Vec<String>)
        ensures
            r.deep_view() == self@.command(),
    {
        let url = self.target.repository.clone_url.as_str();
        let username = self.target.username.as_str();
        let r = match &self.stage {
            PrepareStage::Clone => words(
                &["clone", "--origin", "origin", url, self.target.directory.as_str()],
            ),
            PrepareStage::GetUrl => words(&["remote", "get-url", "origin"]),
            PrepareStage::SetUrl { known } => {
                let verb = if *known {
                    "set-url"
                } else {
                    "add"
                };
                words(&["remote", verb, "origin", url])
            },
            PrepareStage::Name => words(&["config", "--local", "user.name", username]),
            PrepareStage::Email => {
                let address = username.to_owned().concat("@users.noreply.").concat(
                    self.target.repository.provider.host(),
                );
                words(&["config", "--local", "user.email", address.as_str()])
            },
            _ => Vec::new(),
        };
        assert(r.deep_view() =~= self@.command());
        r
    }

    /// The pending request.
    pub fn request(&self) -> (r: Request)
        ensures
            r@ == self@.request(),
    {
        match &self.stage {
            PrepareStage::CreateParent => Request::CreateParent,
            PrepareStage::ProbeGit => Request::ProbeGitDirectory,
            PrepareStage::ProbeDirectory => Request::ProbeDirectory,
            PrepareStage::OpenDirectory => Request::OpenDirectory,
            PrepareStage::NextEntry { conflict } => Request::NextEntry,
            PrepareStage::RemoveEntry { conflict } => Request::Remove {
                name: ".DS_Store".to_owned(),
            },
            PrepareStage::Clone => Request::Git {
                place: Place::Parent,
                arguments: self.command(),
            },
            PrepareStage::Synchronize(inner) => inner.request(),
            _ => Request::Git { place: Place::Repository, arguments: self.command() },
        }
    }

    fn branch(&self) -> (r: String)
        ensures
            r@ == self@.branch(),
    {
        if trim(self.target.repository.default_branch.as_str()).is_empty() {
            "main".to_owned()
        } else {
            self.target.repository.default_branch.clone()
        }
    }

    fn at(self, stage: PrepareStage) -> (r: Step<Preparation, String>)
        ensures
            r@ == self@.at(stage@),
    {
        Step::Continue(Preparation { target: self.target, stage })
    }

    fn listed(self, conflict: bool, entry: Option<String>) -> (r: Step<Preparation, String>)
        ensures
            r@ == self@.listed(
                conflict,
                match entry {
                    Some(name) => Some(name@),
                    None => None,
                },
            ),
    {
        match entry {
            Some(name) => if same(name.as_str(), ".DS_Store") {
                self.at(PrepareStage::RemoveEntry { conflict })
            } else {
                self.at(PrepareStage::NextEntry { conflict: true })
            },
            None => if conflict {
                let text = "The local repository folder is not empty: ".to_owned().concat(
                    self.target.directory.as_str(),
                );
                Step::Finish(Err(AppError::message(text.as_str())))
            } else {
                self.at(PrepareStage::Clone)
            },
        }
    }

    fn ended(self, result: AppResult<CommandOutput>) -> (r: Step<Preparation, String>)
        ensures
            r@ == self@.ended(outcome(result)),
    {
        match &self.stage {
            PrepareStage::GetUrl => match result {
                Ok(output) => {
                    let known = output.success();
                    self.at(PrepareStage::SetUrl { known })
                },
                Err(error) => Step::Finish(Err(error)),
            },
            _ => {
                let arguments = self.command();
                match run_git_checked(&arguments, result) {
                    Ok(_) => match &self.stage {
                        PrepareStage::Clone => self.at(PrepareStage::Name),
                        PrepareStage::SetUrl { known } => self.at(PrepareStage::Name),
                        PrepareStage::Name => self.at(PrepareStage::Email),
                        _ => {
                            let branch = self.branch();
                            self.at(PrepareStage::Synchronize(synchronize(branch.as_str())))
                        },
                    },
                    Err(error) => Step::Finish(Err(error)),
                }
            },
        }
    }

    /// Goes on with the reply to the pending request.
    pub fn resume(self, reply: Reply) -> (r: Step<Preparation, String>)
        ensures
            r@ == self@.resume(reply@),
    {
        let ghost before = self@;
        let Preparation { target, stage } = self;
        match (stage, reply) {
            (PrepareStage::CreateParent, Reply::Done(result)) => match result {
                Ok(_) => Step::Continue(Preparation { target, stage: PrepareStage::ProbeGit }),
                Err(error) => Step::Finish(Err(error)),
            },
            (PrepareStage::ProbeGit, Reply::Exists(present)) => {
                let stage = if present {
                    PrepareStage::GetUrl
                } else {
                    PrepareStage::ProbeDirectory
                };
                Step::Continue(Preparation { target, stage })
            },
            (PrepareStage::ProbeDirectory, Reply::Exists(present)) => {
                let stage = if present {
                    PrepareStage::OpenDirectory
                } else {
                    PrepareStage::Clone
                };
                Step::Continue(Preparation { target, stage })
            },
            (PrepareStage::OpenDirectory, Reply::Done(result)) => match result {
                Ok(_) => Step::Continue(
                    Preparation { target, stage: PrepareStage::NextEntry { conflict: false } },
                ),
                Err(error) => Step::Finish(Err(error)),
            },
            (PrepareStage::NextEntry { conflict }, Reply::Entry(result)) => match result {
                Ok(entry) => {
                    let current = Preparation {
                        target,
                        stage: PrepareStage::NextEntry { conflict },
                    };
                    assert(current@ == before);
                    current.listed(conflict, entry)
                },
                Err(error) => Step::Finish(Err(error)),
            },
            (PrepareStage::RemoveEntry { conflict }, Reply::Done(_)) => Step::Continue(
                Preparation { target, stage: PrepareStage::NextEntry { conflict } },
            ),
            (PrepareStage::Synchronize(inner), reply) => match inner.resume(reply) {
                Step::Continue(inner) => Step::Continue(
                    Preparation { target, stage: PrepareStage::Synchronize(inner) },
                ),
                Step::Finish(Ok(_)) => {
                    let current = Preparation { target, stage: PrepareStage::CreateParent };
                    let branch = current.branch();
                    Step::Finish(Ok(branch))
                },
                Step::Finish(Err(error)) => Step::Finish(Err(error)),
            },
            (PrepareStage::Clone, Reply::Git(result)) => {
                let current = Preparation { target, stage: PrepareStage::Clone };
                assert(current@ == before);
                current.ended(result)
            },
            (PrepareStage::GetUrl, Reply::Git(result)) => {
                let current = Preparation { target, stage: PrepareStage::GetUrl };
                assert(current@ == before);
                current.ended(result)
            },
            (PrepareStage::SetUrl { known }, Reply::Git(result)) => {
                let current = Preparation { target, stage: PrepareStage::SetUrl { known } };
                assert(current@ == before);
                current.ended(result)
            },
            (PrepareStage::Name, Reply::Git(result)) => {
                let current = Preparation { target, stage: PrepareStage::Name };
                assert(current@ == before);
                current.ended(result)
            },
            (PrepareStage::Email, Reply::Git(result)) => {
                let current = Preparation { target, stage: PrepareStage::Email };
                assert(current@ == before);
                current.ended(result)
            },
            (stage, _) => Step::Continue(Preparation { target, stage }),
        }
    }
}

// ---------------------------------------------------------------------------------------------
// Whole runs
// ---------------------------------------------------------------------------------------------
/// A local repository that exists is kept, and only connected to its remote anew. The remote
/// repository is cloned only where there is no folder, or where its listing met nothing that stands
/// in the way; and a folder is looked at only where it holds no repository.
pub proof fn existing_repositories_are_kept(machine: PrepareView, reply: ReplyView)
    ensures
        machine.stage is ProbeGit && reply == ReplyView::Exists(true) ==> machine.resume(reply)
            == machine.at(PrepareStageView::GetUrl),
        machine.resume(reply) == machine.at(PrepareStageView::Clone) && machine.stage !is Clone ==> {
            ||| machine.stage is ProbeDirectory && reply == ReplyView::Exists(false)
            ||| machine.stage == (PrepareStageView::NextEntry { conflict: false }) && reply
                == ReplyView::Entry(Ok(None))
        },
        machine.resume(reply) == machine.at(PrepareStageView::ProbeDirectory) && machine.stage
            !is ProbeDirectory ==> machine.stage is ProbeGit && reply == ReplyView::Exists(false),
        machine.resume(reply) matches StepView::Continue(next) ==> {
            &&& next.repository == machine.repository
            &&& next.username == machine.username
            &&& next.directory == machine.directory
        },
{
}

/// The procedure after a series of replies.
pub open spec fn preparing_after(
    step: StepView<PrepareView, Seq<char>>,
    replies: Seq<ReplyView>,
) -> StepView<PrepareView, Seq<char>>
    decreases replies.len(),
{
    match step {
        StepView::Continue(machine) => if replies.len() == 0 {
            step
        } else {
            preparing_after(machine.resume(replies[0]), replies.drop_first())
        },
        StepView::Finish(_) => step,
    }
}

/// Preparing deletes nothing from the folder but the file that the macOS Finder leaves behind, and
/// that only once the listing has met it.
pub proof fn preparing_deletes_nothing_else(machine: PrepareView, reply: ReplyView)
    ensures
        machine.request() matches RequestView::Remove { name } ==> machine.stage is RemoveEntry
            && name == ".DS_Store"@,
        machine.resume(reply) matches StepView::Continue(next) ==> (next.stage is RemoveEntry
            && machine.stage !is RemoveEntry ==> {
            &&& machine.stage is NextEntry
            &&& machine.request() == RequestView::NextEntry
            &&& reply == ReplyView::Entry(Ok(Some(".DS_Store"@)))
        }),
{
}

/// The replies while a folder with entries of the given names is listed; what comes of the
/// deletion of a file is given too.
pub open spec fn listing_replies(
    names: Seq<Seq<char>>,
    deletion: Result<(), Failure>,
) -> Seq<ReplyView>
    decreases names.len(),
{
    if names.len() == 0 {
        seq![ReplyView::Entry(Ok(None))]
    } else if names[0] == ".DS_Store"@ {
        seq![ReplyView::Entry(Ok(Some(names[0]))), ReplyView::Done(deletion)] + listing_replies(
            names.drop_first(),
            deletion,
        )
    } else {
        seq![ReplyView::Entry(Ok(Some(names[0])))] + listing_replies(names.drop_first(), deletion)
    }
}

/// Every name is that of a file that does not matter.
pub open spec fn all_negligible(names: Seq<Seq<char>>) -> bool {
    forall|i: int| 0 <= i < names.len() ==> #[trigger] names[i] == ".DS_Store"@
}

/// A folder in the place of the local repository is cloned into where it holds nothing but a file
/// that does not matter, whether or not that could be deleted; a folder that holds anything else is
/// left as it is, and the preparation fails.
pub proof fn foreign_folders_are_left_alone(
    machine: PrepareView,
    names: Seq<Seq<char>>,
    deletion: Result<(), Failure>,
)
    requires
        machine.stage == PrepareStageView::OpenDirectory,
    ensures
        preparing_after(
            machine.resume(ReplyView::Done(Ok(()))),
            listing_replies(names, deletion),
        ) == if all_negligible(names) {
            machine.at(PrepareStageView::Clone)
        } else {
            StepView::Finish(Err(machine.not_empty()))
        },
{
    lemma_listing(machine, false, names, deletion);
}

proof fn lemma_listing(
    machine: PrepareView,
    conflict: bool,
    names: Seq<Seq<char>>,
    deletion: Result<(), Failure>,
)
    ensures
        preparing_after(
            machine.at(PrepareStageView::NextEntry { conflict }),
            listing_replies(names, deletion),
        ) == if !conflict && all_negligible(names) {
            machine.at(PrepareStageView::Clone)
        } else {
            StepView::Finish(Err(machine.not_empty()))
        },
    decreases names.len(),
{
    reveal_with_fuel(preparing_after, 3);
    let replies = listing_replies(names, deletion);
    if names.len() > 0 {
        let rest = names.drop_first();
        let more = listing_replies(rest, deletion);
        assert(all_negligible(names) == (names[0] == ".DS_Store"@ && all_negligible(rest))) by {
            if names[0] == ".DS_Store"@ && all_negligible(rest) {
                assert forall|i: int| 0 <= i < names.len() implies #[trigger] names[i]
                    == ".DS_Store"@ by {
                    if i > 0 {
                        assert(names[i] == rest[i - 1]);
                    }
                }
            }
            if all_negligible(names) {
                assert forall|i: int| 0 <= i < rest.len() implies #[trigger] rest[i]
                    == ".DS_Store"@ by {
                    assert(rest[i] == names[i + 1]);
                }
            }
        }
        if names[0] == ".DS_Store"@ {
            lemma_listing(machine, conflict, rest, deletion);
            assert(replies.drop_first().drop_first() =~= more);
            assert(replies.drop_first()[0] == ReplyView::Done(deletion));
        } else {
            lemma_listing(machine, true, rest, deletion);
            assert(replies.drop_first() =~= more);
        }
    }
}

} // verus!

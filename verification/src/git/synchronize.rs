//! Bringing the local repository up to date with its remote.
use vstd::prelude::*;

use crate::git::command::{OutputView, checked, run_git_checked};
use crate::git::protocol::{Place, Reply, ReplyView, Request, RequestView};
use crate::git::protocol::in_repository;
use crate::models::Failure;
use crate::procedure::{Step, StepView};
use crate::text::words;

verus! {

/// What the procedure is doing.
#[derive(Clone, Copy, Debug, PartialEq, Eq, Structural)]
pub enum SyncStage {
    /// It fetches what is new at the remote.
    Fetch,
    /// It asks whether the branch exists here.
    ShowLocal,
    /// It asks whether the branch exists at the remote.
    ShowRemote { local: bool },
    /// It checks the branch out.
    Checkout { local: bool, remote: bool },
    /// It puts the commits made here on top of those of the remote.
    Pull,
}

/// The model of a [`Synchronization`].
#[verifier::ext_equal]
pub struct SyncView {
    pub branch: Seq<char>,
    pub stage: SyncStage,
}

/// The command that asks quietly whether a reference exists.
pub open spec fn show_reference(reference: Seq<char>) -> Seq<Seq<char>> {
    seq!["show-ref"@, "--verify"@, "--quiet"@, reference]
}

/// The command that checks a branch out: as it is here, or as it is at the remote, or as a new
/// branch.
pub open spec fn checkout_command(branch: Seq<char>, local: bool, remote: bool) -> Seq<Seq<char>> {
    if local {
        seq!["checkout"@, branch]
    } else if remote {
        seq!["checkout"@, "-B"@, branch, "origin/"@ + branch]
    } else {
        seq!["checkout"@, "-B"@, branch]
    }
}

impl SyncView {
    /// The procedure at its start.
    pub open spec fn start(branch: Seq<char>) -> SyncView {
        SyncView { branch, stage: SyncStage::Fetch }
    }

    /// The arguments of the command that is to be run now.
    pub open spec fn command(self) -> Seq<Seq<char>> {
        match self.stage {
            SyncStage::Fetch => seq!["fetch"@, "--prune"@, "origin"@],
            SyncStage::ShowLocal => show_reference("refs/heads/"@ + self.branch),
            SyncStage::ShowRemote { local } => show_reference(
                "refs/remotes/origin/"@ + self.branch,
            ),
            SyncStage::Checkout { local, remote } => checkout_command(self.branch, local, remote),
            SyncStage::Pull => seq!["pull"@, "--rebase"@, "origin"@, self.branch],
        }
    }

    /// The pending request.
    pub open spec fn request(self) -> RequestView {
        in_repository(self.command())
    }

    /// The procedure at another stage.
    pub open spec fn at(self, stage: SyncStage) -> StepView<SyncView, ()> {
        StepView::Continue(SyncView { stage, ..self })
    }

    /// The procedure after its command ended. Only the two questions may be answered by a status
    /// other than zero.
    pub open spec fn ended(self, reply: Result<OutputView, Failure>) -> StepView<SyncView, ()> {
        match self.stage {
            SyncStage::ShowLocal => match reply {
                Ok(output) => self.at(SyncStage::ShowRemote { local: output.success() }),
                Err(failure) => StepView::Finish(Err(failure)),
            },
            SyncStage::ShowRemote { local } => match reply {
                Ok(output) => self.at(SyncStage::Checkout { local, remote: output.success() }),
                Err(failure) => StepView::Finish(Err(failure)),
            },
            _ => match checked(self.command(), reply) {
                Ok(_) => match self.stage {
                    SyncStage::Fetch => self.at(SyncStage::ShowLocal),
                    SyncStage::Checkout { local, remote: true } => self.at(SyncStage::Pull),
                    _ => StepView::Finish(Ok(())),
                },
                Err(failure) => StepView::Finish(Err(failure)),
            },
        }
    }

    /// The procedure after a reply.
    pub open spec fn resume(self, reply: ReplyView) -> StepView<SyncView, ()> {
        match reply {
            ReplyView::Git(result) => self.ended(result),
            _ => StepView::Continue(self),
        }
    }
}

/// The work of bringing a branch of the local repository up to date with its remote.
#[derive(Debug)]
pub struct Synchronization {
    branch: String,
    stage: SyncStage,
}

impl View for Synchronization {
    type V = SyncView;

    closed spec fn view(&self) -> SyncView {
        SyncView { branch: self.branch@, stage: self.stage }
    }
}

/// Starts to bring a branch up to date with its remote.
pub fn synchronize(branch: &str) -> (r: Synchronization)
    ensures
        r@ == SyncView::start(branch@),
{
    Synchronization { branch: branch.to_owned(), stage: SyncStage::Fetch }
}

impl Synchronization {
    fn command(&self) -> (r: Vec<String>)
        ensures
            r.deep_view() == self@.command(),
    {
        let branch = self.branch.as_str();
        let r = match self.stage {
            SyncStage::Fetch => words(&["fetch", "--prune", "origin"]),
            SyncStage::ShowLocal => {
                let reference = "refs/heads/".to_owned().concat(branch);
                words(&["show-ref", "--verify", "--quiet", reference.as_str()])
            },
            SyncStage::ShowRemote { local } => {
                let reference = "refs/remotes/origin/".to_owned().concat(branch);
                words(&["show-ref", "--verify", "--quiet", reference.as_str()])
            },
            SyncStage::Checkout { local, remote } => {
                if local {
                    words(&["checkout", branch])
                } else if remote {
                    let start = "origin/".to_owned().concat(branch);
                    words(&["checkout", "-B", branch, start.as_str()])
                } else {
                    words(&["checkout", "-B", branch])
                }
            },
            SyncStage::Pull => words(&["pull", "--rebase", "origin", branch]),
        };
        assert(r.deep_view() =~= self@.command());
        r
    }

    /// The pending request.
    pub fn request(&self) -> (r: Request)
        ensures
            r@ == self@.request(),
    {
        Request::Git { place: Place::Repository, arguments: self.command() }
    }

    fn at(self, stage: SyncStage) -> (r: Step<Synchronization, ()>)
        ensures
            r@ == self@.at(stage),
    {
        Step::Continue(Synchronization { branch: self.branch, stage })
    }

    /// Goes on with the reply to the pending request.
    pub fn resume(self, reply: Reply) -> (r: Step<Synchronization, ()>)
        ensures
            r@ == self@.resume(reply@),
    {
        let result = match reply {
            Reply::Git(result) => result,
            _ => {
                return Step::Continue(self);
            },
        };
        match self.stage {
            SyncStage::ShowLocal => match result {
                Ok(output) => self.at(SyncStage::ShowRemote { local: output.success() }),
                Err(error) => Step::Finish(Err(error)),
            },
            SyncStage::ShowRemote { local } => match result {
                Ok(output) => self.at(SyncStage::Checkout { local, remote: output.success() }),
                Err(error) => Step::Finish(Err(error)),
            },
            _ => {
                let arguments = self.command();
                match run_git_checked(&arguments, result) {
                    Ok(_) => match self.stage {
                        SyncStage::Fetch => self.at(SyncStage::ShowLocal),
                        SyncStage::Checkout { local, remote } => if remote {
                            self.at(SyncStage::Pull)
                        } else {
                            Step::Finish(Ok(()))
                        },
                        _ => Step::Finish(Ok(())),
                    },
                    Err(error) => Step::Finish(Err(error)),
                }
            },
        }
    }
}

// ---------------------------------------------------------------------------------------------
// Whole runs
// ---------------------------------------------------------------------------------------------
/// The commands of a run in which nothing fails: the branch exists here or not, and at the remote
/// or not.
pub open spec fn synchronizing_commands(
    branch: Seq<char>,
    local: bool,
    remote: bool,
) -> Seq<Seq<Seq<char>>> {
    let common = seq![
        seq!["fetch"@, "--prune"@, "origin"@],
        show_reference("refs/heads/"@ + branch),
        show_reference("refs/remotes/origin/"@ + branch),
        checkout_command(branch, local, remote),
    ];
    if remote {
        common.push(seq!["pull"@, "--rebase"@, "origin"@, branch])
    } else {
        common
    }
}

/// The procedure after a series of commands ended with the given statuses.
pub open spec fn synchronizing_after(
    step: StepView<SyncView, ()>,
    outputs: Seq<OutputView>,
) -> StepView<SyncView, ()>
    decreases outputs.len(),
{
    match step {
        StepView::Continue(machine) => if outputs.len() == 0 {
            step
        } else {
            synchronizing_after(
                machine.resume(ReplyView::Git(Ok(outputs[0]))),
                outputs.drop_first(),
            )
        },
        StepView::Finish(_) => step,
    }
}

/// The commands that a series of outputs belongs to.
pub open spec fn synchronizing_requests(
    step: StepView<SyncView, ()>,
    outputs: Seq<OutputView>,
) -> Seq<Seq<Seq<char>>>
    decreases outputs.len(),
{
    match step {
        StepView::Continue(machine) => if outputs.len() == 0 {
            Seq::empty()
        } else {
            seq![machine.command()] + synchronizing_requests(
                machine.resume(ReplyView::Git(Ok(outputs[0]))),
                outputs.drop_first(),
            )
        },
        StepView::Finish(_) => Seq::empty(),
    }
}

/// Where every command succeeds but for the two questions, which may be answered either way, the
/// commands run are those that the answers call for, in their order, and the work succeeds. A
/// branch that exists here is checked out as it is: it is never reset.
pub proof fn synchronizing_runs_its_commands(branch: Seq<char>, outputs: Seq<OutputView>)
    requires
        outputs.len() >= 4,
        outputs[2].success() ==> outputs.len() == 5,
        !outputs[2].success() ==> outputs.len() == 4,
        forall|i: int|
            0 <= i < outputs.len() && i != 1 && i != 2 ==> (#[trigger] outputs[i]).success(),
    ensures
        ({
            let start = StepView::Continue(SyncView::start(branch));
            let local = outputs[1].success();
            let remote = outputs[2].success();
            &&& synchronizing_requests(start, outputs) == synchronizing_commands(
                branch,
                local,
                remote,
            )
            &&& synchronizing_after(start, outputs) == StepView::<SyncView, ()>::Finish(Ok(()))
        }),
{
    reveal_with_fuel(synchronizing_requests, 7);
    reveal_with_fuel(synchronizing_after, 7);
    let start = StepView::Continue(SyncView::start(branch));
    let local = outputs[1].success();
    let remote = outputs[2].success();
    assert(outputs[0].success());
    assert(outputs[3].success());
    let o1 = outputs.drop_first();
    let o2 = o1.drop_first();
    let o3 = o2.drop_first();
    let o4 = o3.drop_first();
    assert(o1[0] == outputs[1]);
    assert(o2[0] == outputs[2]);
    assert(o3[0] == outputs[3]);
    if remote {
        assert(o4[0] == outputs[4]);
    }
    assert(synchronizing_requests(start, outputs) =~= synchronizing_commands(
        branch,
        local,
        remote,
    ));
}

} // verus!

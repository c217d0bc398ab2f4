//! Repeating a refused push with the images stored in Git LFS.
use vstd::prelude::*;

use crate::git::command::{OutputView, checked, command_line, failure_of, push_arguments};
use crate::git::command::{push_command, run_git_checked};
use crate::git::environment::Platform;
use crate::git::images::{CopiedImages, ImageView, all_images, paths};
use crate::git::naming::{image_extension, images_have_endings};
use crate::git::protocol::{Place, Reply, ReplyView, Request, RequestView};
use crate::git::protocol::in_repository;
use crate::models::{AppError, Failure};
use crate::procedure::{Step, StepView};
use crate::text::{append_all, comes_before, lemma_precedes_irreflexive, lemma_precedes_total};
use crate::text::{last_index, lemma_last_index, lemma_precedes_transitive, lowered, precedes, words};

verus! {

// ---------------------------------------------------------------------------------------------
// Sorted lists without repetitions
// ---------------------------------------------------------------------------------------------
/// Every text comes before all that follow it; so none occurs twice.
pub open spec fn ascending(list: Seq<Seq<char>>) -> bool {
    forall|i: int, j: int|
        0 <= i < j < list.len() ==> precedes(#[trigger] list[i], #[trigger] list[j])
}

/// The ascending list with one more text in its place, unless it is there already.
pub open spec fn with_text(list: Seq<Seq<char>>, text: Seq<char>) -> Seq<Seq<char>>
    decreases list.len(),
{
    if list.len() == 0 {
        seq![text]
    } else if list.last() == text {
        list
    } else if precedes(list.last(), text) {
        list.push(text)
    } else {
        with_text(list.drop_last(), text).push(list.last())
    }
}

/// The texts of a list in ascending order, each once.
pub open spec fn sorted(list: Seq<Seq<char>>) -> Seq<Seq<char>>
    decreases list.len(),
{
    if list.len() == 0 {
        Seq::empty()
    } else {
        with_text(sorted(list.drop_last()), list.last())
    }
}

proof fn lemma_with_text(list: Seq<Seq<char>>, text: Seq<char>)
    requires
        ascending(list),
    ensures
        ascending(with_text(list, text)),
        forall|x: Seq<char>| #[trigger]
            with_text(list, text).contains(x) <==> list.contains(x) || x == text,
    decreases list.len(),
{
    let r = with_text(list, text);
    if list.len() == 0 {
        assert(r[0] == text);
    } else if list.last() == text {
        assert(list.contains(text));
    } else if precedes(list.last(), text) {
        assert forall|i: int, j: int| 0 <= i < j < r.len() implies precedes(
            #[trigger] r[i],
            #[trigger] r[j],
        ) by {
            if j == list.len() && i < list.len() - 1 {
                lemma_precedes_transitive(list[i], list.last(), text);
            }
        }
        assert forall|x: Seq<char>| #[trigger] r.contains(x) <==> list.contains(x) || x == text by {
            if list.contains(x) {
                let k = choose|k: int| 0 <= k < list.len() && list[k] == x;
                assert(r[k] == x);
            }
            if x == text {
                assert(r[list.len() as int] == x);
            }
        }
    } else {
        let front = list.drop_last();
        let inner = with_text(front, text);
        lemma_with_text(front, text);
        lemma_precedes_total(list.last(), text);
        assert forall|i: int, j: int| 0 <= i < j < r.len() implies precedes(
            #[trigger] r[i],
            #[trigger] r[j],
        ) by {
            if j == inner.len() {
                assert(inner.contains(inner[i]));
                if inner[i] != text {
                    let k = choose|k: int| 0 <= k < front.len() && front[k] == inner[i];
                    assert(list[k] == inner[i]);
                }
            }
        }
        assert forall|x: Seq<char>| #[trigger] r.contains(x) <==> list.contains(x) || x == text by {
            if r.contains(x) {
                let k = choose|k: int| 0 <= k < r.len() && r[k] == x;
                if k < inner.len() {
                    assert(inner.contains(x));
                    if front.contains(x) {
                        let m = choose|m: int| 0 <= m < front.len() && front[m] == x;
                        assert(list[m] == x);
                    }
                } else {
                    assert(list[list.len() - 1] == x);
                }
            }
            if list.contains(x) || x == text {
                if x == list.last() {
                    assert(r[inner.len() as int] == x);
                } else {
                    if list.contains(x) {
                        let m = choose|m: int| 0 <= m < list.len() && list[m] == x;
                        assert(front[m] == x);
                    }
                    assert(inner.contains(x));
                    let k = choose|k: int| 0 <= k < inner.len() && inner[k] == x;
                    assert(r[k] == x);
                }
            }
        }
    }
}

/// Sorting keeps every text of a list, adds none, and leaves each once, in ascending order.
pub proof fn sorting_keeps_texts(list: Seq<Seq<char>>)
    ensures
        ascending(sorted(list)),
        sorted(list).no_duplicates(),
        forall|x: Seq<char>| #[trigger] sorted(list).contains(x) <==> list.contains(x),
    decreases list.len(),
{
    if list.len() > 0 {
        let front = list.drop_last();
        sorting_keeps_texts(front);
        lemma_with_text(sorted(front), list.last());
        assert forall|x: Seq<char>| #[trigger] sorted(list).contains(x) <==> list.contains(x) by {
            if front.contains(x) {
                let k = choose|k: int| 0 <= k < front.len() && front[k] == x;
                assert(list[k] == x);
            }
            if list.contains(x) {
                let k = choose|k: int| 0 <= k < list.len() && list[k] == x;
                if k < front.len() {
                    assert(front[k] == x);
                }
            }
        }
    }
    assert forall|i: int, j: int|
        0 <= i < sorted(list).len() && 0 <= j < sorted(list).len() && i
            != j implies sorted(list)[i] != sorted(list)[j] by {
        lemma_precedes_irreflexive(sorted(list)[i]);
    }
}

/// There is only one ascending list of given texts: the order in which they came does not matter.
pub proof fn sorting_is_canonical(a: Seq<Seq<char>>, b: Seq<Seq<char>>)
    requires
        forall|x: Seq<char>| #[trigger] a.contains(x) <==> b.contains(x),
    ensures
        sorted(a) == sorted(b),
{
    sorting_keeps_texts(a);
    sorting_keeps_texts(b);
    assert forall|x: Seq<char>| #[trigger] sorted(a).contains(x) <==> sorted(b).contains(x) by {
        assert(a.contains(x) <==> b.contains(x));
    }
    lemma_ascending_unique(sorted(a), sorted(b));
}

proof fn lemma_ascending_unique(a: Seq<Seq<char>>, b: Seq<Seq<char>>)
    requires
        ascending(a),
        ascending(b),
        forall|x: Seq<char>| #[trigger] a.contains(x) <==> b.contains(x),
    ensures
        a == b,
    decreases a.len(),
{
    if a.len() == 0 {
        if b.len() > 0 {
            assert(b.contains(b[0]));
            assert(a.contains(b[0]));
        }
        assert(a =~= b);
    } else if b.len() == 0 {
        assert(a.contains(a[0]));
        assert(b.contains(a[0]));
    } else {
        let x = a.last();
        let y = b.last();
        if x != y {
            assert(a.contains(x));
            assert(b.contains(x));
            assert(b.contains(y));
            assert(a.contains(y));
            let i = choose|i: int| 0 <= i < b.len() && b[i] == x;
            let j = choose|j: int| 0 <= j < a.len() && a[j] == y;
            assert(precedes(b[i], b[b.len() - 1]));
            assert(precedes(a[j], a[a.len() - 1]));
            lemma_precedes_transitive(x, y, x);
            lemma_precedes_irreflexive(x);
        }
        let p = a.drop_last();
        let q = b.drop_last();
        assert forall|z: Seq<char>| #[trigger] p.contains(z) <==> q.contains(z) by {
            lemma_front_contains(a, z);
            lemma_front_contains(b, z);
            assert(a.contains(z) <==> b.contains(z));
        }
        lemma_ascending_unique(p, q);
        assert(a =~= p.push(x));
        assert(b =~= q.push(x));
    }
}

proof fn lemma_front_contains(a: Seq<Seq<char>>, z: Seq<char>)
    requires
        ascending(a),
        a.len() > 0,
    ensures
        a.drop_last().contains(z) <==> a.contains(z) && z != a.last(),
{
    let p = a.drop_last();
    if p.contains(z) {
        let k = choose|k: int| 0 <= k < p.len() && p[k] == z;
        assert(a[k] == z);
        assert(precedes(a[k], a[a.len() - 1]));
        lemma_precedes_irreflexive(z);
    }
    if a.contains(z) && z != a.last() {
        let k = choose|k: int| 0 <= k < a.len() && a[k] == z;
        assert(p[k] == z);
    }
}

fn insert_sorted(list: &mut Vec<String>, text: String)
    ensures
        final(list).deep_view() == with_text(old(list).deep_view(), text@),
{
    let ghost before = list.deep_view();
    let mut end: usize = list.len();
    assert(before.take(end as int) =~= before);
    assert(before.skip(end as int) =~= Seq::empty());
    assert(with_text(before, text@) =~= with_text(before.take(end as int), text@) + before.skip(
        end as int,
    ));
    while end > 0 && !comes_before(list[end - 1].as_str(), text.as_str())
        invariant
            end <= list.len(),
            list.deep_view() == before,
            with_text(before, text@) == with_text(before.take(end as int), text@) + before.skip(
                end as int,
            ),
        decreases end,
    {
        let ghost shorter = before.take(end as int);
        assert(shorter.last() == list@[end - 1]@);
        if list[end - 1] == text {
            assert(before.take(end as int) + before.skip(end as int) =~= before);
            return ;
        }
        assert(shorter.drop_last() =~= before.take(end - 1));
        assert(with_text(before.take(end - 1), text@).push(shorter.last()) + before.skip(end as int)
            =~= with_text(before.take(end - 1), text@) + before.skip(end - 1));
        end = end - 1;
    }
    let ghost shorter = before.take(end as int);
    if end > 0 {
        assert(shorter.last() == list@[end - 1]@);
        proof {
            lemma_precedes_irreflexive(text@);
        }
    }
    assert(with_text(shorter, text@) =~= shorter.push(text@));
    list.insert(end, text);
    assert(list.deep_view() =~= shorter.push(text@) + before.skip(end as int));
}

// ---------------------------------------------------------------------------------------------
// Patterns
// ---------------------------------------------------------------------------------------------
/// The pattern of the files that are stored like an image: those with its extension, or only the
/// image itself where it has none.
pub open spec fn pattern(image: ImageView) -> Seq<char> {
    if image.extension.len() == 0 {
        image.relative_path
    } else {
        "*."@ + image.extension
    }
}

/// The patterns of the images, in ascending order, each once.
pub open spec fn patterns(images: Seq<ImageView>) -> Seq<Seq<char>> {
    sorted(images.map_values(|image: ImageView| pattern(image)))
}

/// The patterns of the images, in ascending order, each once.
pub fn tracked_patterns(copied: &CopiedImages) -> (r: Vec<String>)
    ensures
        r.deep_view() == patterns(copied@),
{
    let ghost all = copied@.map_values(|image: ImageView| pattern(image));
    let mut r: Vec<String> = Vec::new();
    let mut i: usize = 0;
    assert(r.deep_view() =~= sorted(all.take(0)));
    while i < copied.images.len()
        invariant
            i <= copied.images.len(),
            all == copied@.map_values(|image: ImageView| pattern(image)),
            r.deep_view() == sorted(all.take(i as int)),
        decreases copied.images.len() - i,
    {
        let image = &copied.images[i];
        let text = if image.extension.as_str().is_empty() {
            image.relative_path.clone()
        } else {
            "*.".to_owned().concat(image.extension.as_str())
        };
        assert(text@ == all[i as int]);
        assert(all.take(i + 1).drop_last() =~= all.take(i as int));
        assert(all.take(i + 1).last() == text@);
        insert_sorted(&mut r, text);
        i = i + 1;
    }
    assert(all.take(all.len() as int) =~= all);
    r
}

// ---------------------------------------------------------------------------------------------
// The procedure, as a model
// ---------------------------------------------------------------------------------------------
/// What the procedure is doing.
#[derive(Clone, Copy, Debug, PartialEq, Eq, Structural)]
pub enum RecoveryStage {
    /// It asks whether Git LFS is installed.
    Version,
    /// It sets Git LFS up for the local repository.
    Install,
    /// It has Git LFS take care of files like the images.
    Track,
    /// It adds the images once more.
    Add,
    /// It replaces the commit.
    Amend,
    /// It pushes the commit.
    Push,
}

/// The model of a [`Recovery`].
#[verifier::ext_equal]
pub struct RecoveryView {
    pub branch: Seq<char>,
    pub images: Seq<ImageView>,
    pub stage: RecoveryStage,
}

/// The failure of an upload that needs Git LFS where it is not installed.
pub open spec fn lfs_missing() -> Failure {
    Failure::Message(
        "Git LFS is required for this upload but is not installed. Install Git LFS, then try again."@,
    )
}

/// The failure of a repetition that did not come to its end.
pub open spec fn incomplete(failure: Failure) -> Failure {
    Failure::Message("Git LFS recovery did not complete: "@ + failure.text())
}

impl RecoveryView {
    /// The procedure at its start.
    pub open spec fn start(branch: Seq<char>, images: Seq<ImageView>) -> RecoveryView {
        RecoveryView { branch, images, stage: RecoveryStage::Version }
    }

    /// The arguments of the command that is to be run now.
    pub open spec fn command(self) -> Seq<Seq<char>> {
        match self.stage {
            RecoveryStage::Version => seq!["lfs"@, "version"@],
            RecoveryStage::Install => seq!["lfs"@, "install"@, "--local"@],
            RecoveryStage::Track => seq!["lfs"@, "track"@] + patterns(self.images),
            RecoveryStage::Add => seq!["add"@, "--"@, ".gitattributes"@] + paths(self.images),
            RecoveryStage::Amend => seq!["commit"@, "--amend"@, "--no-edit"@],
            RecoveryStage::Push => push_command(self.branch),
        }
    }

    /// The pending request.
    pub open spec fn request(self) -> RequestView {
        in_repository(self.command())
    }

    /// The procedure at another stage.
    pub open spec fn at(self, stage: RecoveryStage) -> StepView<RecoveryView, ()> {
        StepView::Continue(RecoveryView { stage, ..self })
    }

    /// The procedure after its command ended.
    pub open spec fn ended(self, reply: Result<OutputView, Failure>) -> StepView<RecoveryView, ()> {
        match self.stage {
            RecoveryStage::Version => match reply {
                Ok(output) => if output.success() {
                    self.at(RecoveryStage::Install)
                } else {
                    StepView::Finish(Err(lfs_missing()))
                },
                Err(failure) => StepView::Finish(Err(failure)),
            },
            _ => match checked(self.command(), reply) {
                Ok(_) => match self.stage {
                    RecoveryStage::Install => self.at(RecoveryStage::Track),
                    RecoveryStage::Track => self.at(RecoveryStage::Add),
                    RecoveryStage::Add => self.at(RecoveryStage::Amend),
                    RecoveryStage::Amend => self.at(RecoveryStage::Push),
                    _ => StepView::Finish(Ok(())),
                },
                Err(failure) => StepView::Finish(Err(incomplete(failure))),
            },
        }
    }

    /// The procedure after a reply.
    pub open spec fn resume(self, reply: ReplyView) -> StepView<RecoveryView, ()> {
        match reply {
            ReplyView::Git(result) => self.ended(result),
            _ => StepView::Continue(self),
        }
    }
}

// ---------------------------------------------------------------------------------------------
// The procedure
// ---------------------------------------------------------------------------------------------
/// The repetition of a refused push with the images stored in Git LFS.
#[derive(Debug)]
pub struct Recovery {
    branch: String,
    copied: CopiedImages,
    stage: RecoveryStage,
}

impl View for Recovery {
    type V = RecoveryView;

    closed spec fn view(&self) -> RecoveryView {
        RecoveryView { branch: self.branch@, images: self.copied@, stage: self.stage }
    }
}

/// Starts to repeat the push of a commit that adds the given images.
pub fn recover_with_lfs(branch: String, copied: CopiedImages) -> (r: Recovery)
    ensures
        r@ == RecoveryView::start(branch@, copied@),
{
    Recovery { branch, copied, stage: RecoveryStage::Version }
}

impl Recovery {
    fn command(&self) -> (r: Vec<String>)
        ensures
            r.deep_view() == self@.command(),
    {
        match self.stage {
            RecoveryStage::Version => {
                let r = words(&["lfs", "version"]);
                assert(r.deep_view() =~= self@.command());
                r
            },
            RecoveryStage::Install => {
                let r = words(&["lfs", "install", "--local"]);
                assert(r.deep_view() =~= self@.command());
                r
            },
            RecoveryStage::Track => {
                let mut r = words(&["lfs", "track"]);
                assert(r.deep_view() =~= seq!["lfs"@, "track"@]);
                append_all(&mut r, &tracked_patterns(&self.copied));
                r
            },
            RecoveryStage::Add => {
                let mut r = words(&["add", "--", ".gitattributes"]);
                assert(r.deep_view() =~= seq!["add"@, "--"@, ".gitattributes"@]);
                append_all(&mut r, &self.copied.paths());
                r
            },
            RecoveryStage::Amend => {
                let r = words(&["commit", "--amend", "--no-edit"]);
                assert(r.deep_view() =~= self@.command());
                r
            },
            RecoveryStage::Push => push_arguments(self.branch.as_str()),
        }
    }

    /// The number of images that the commit adds.
    pub fn image_count(&self) -> (r: usize)
        ensures
            r == self@.images.len(),
    {
        self.copied.images.len()
    }

    /// The pending request.
    pub fn request(&self) -> (r: Request)
        ensures
            r@ == self@.request(),
    {
        Request::Git { place: Place::Repository, arguments: self.command() }
    }

    fn at(self, stage: RecoveryStage) -> (r: Step<Recovery, ()>)
        ensures
            r@ == self@.at(stage),
    {
        Step::Continue(Recovery { branch: self.branch, copied: self.copied, stage })
    }

    /// Goes on with the reply to the pending request.
    pub fn resume(self, reply: Reply) -> (r: Step<Recovery, ()>)
        ensures
            r@ == self@.resume(reply@),
    {
        let result = match reply {
            Reply::Git(result) => result,
            _ => {
                return Step::Continue(self);
            },
        };
        match self.stage {
            RecoveryStage::Version => match result {
                Ok(output) => if output.success() {
                    self.at(RecoveryStage::Install)
                } else {
                    Step::Finish(
                        Err(
                            AppError::message(
                                "Git LFS is required for this upload but is not installed. Install Git LFS, then try again.",
                            ),
                        ),
                    )
                },
                Err(error) => Step::Finish(Err(error)),
            },
            _ => {
                let arguments = self.command();
                match run_git_checked(&arguments, result) {
                    Ok(_) => match self.stage {
                        RecoveryStage::Install => self.at(RecoveryStage::Track),
                        RecoveryStage::Track => self.at(RecoveryStage::Add),
                        RecoveryStage::Add => self.at(RecoveryStage::Amend),
                        RecoveryStage::Amend => self.at(RecoveryStage::Push),
                        _ => Step::Finish(Ok(())),
                    },
                    Err(error) => {
                        let text = "Git LFS recovery did not complete: ".to_owned().concat(
                            error.text().as_str(),
                        );
                        Step::Finish(Err(AppError::message(text.as_str())))
                    },
                }
            },
        }
    }
}

// ---------------------------------------------------------------------------------------------
// What the repetition is for
// ---------------------------------------------------------------------------------------------
/// The pattern matches every file whose name ends in a period and the ending: it is a star, a period
/// and the ending, character for character.
pub open spec fn matches_ending(pattern: Seq<char>, ending: Seq<char>) -> bool {
    &&& pattern.len() == ending.len() + 2
    &&& pattern[0] == '*'
    &&& pattern[1] == '.'
    &&& forall|k: int| 0 <= k < ending.len() ==> pattern[k + 2] == #[trigger] ending[k]
}

/// The request has Git LFS take care of every image: among the patterns is one for its ending, or its
/// own name where it has none. It is told of nothing else, and of nothing twice.
pub open spec fn tracks_every_image(request: RequestView, images: Seq<ImageView>) -> bool {
    &&& request matches RequestView::Git { place, arguments }
    &&& place == Place::Repository
    &&& arguments.len() >= 2
    &&& arguments[0] == "lfs"@
    &&& arguments[1] == "track"@
    &&& forall|i: int|
        0 <= i < images.len() && (#[trigger] images[i]).extension.len() > 0 ==> exists|k: int|
            2 <= k < arguments.len() && matches_ending(
                #[trigger] arguments[k],
                images[i].extension,
            )
    &&& forall|i: int|
        0 <= i < images.len() && (#[trigger] images[i]).extension.len() == 0 ==> exists|k: int|
            2 <= k < arguments.len() && #[trigger] arguments[k] == images[i].relative_path
    &&& forall|k: int|
        2 <= k < arguments.len() ==> exists|i: int|
            0 <= i < images.len() && if (#[trigger] images[i]).extension.len() == 0 {
                arguments[k] == images[i].relative_path
            } else {
                matches_ending(#[trigger] arguments[k], images[i].extension)
            }
    &&& forall|j: int, k: int|
        2 <= j < k < arguments.len() ==> precedes(#[trigger] arguments[j], #[trigger] arguments[k])
}

/// Git LFS is told to take care of every image, in ascending order of the patterns.
pub proof fn every_image_is_tracked(recovery: RecoveryView)
    requires
        recovery.stage == RecoveryStage::Track,
    ensures
        tracks_every_image(recovery.request(), recovery.images),
{
    let images = recovery.images;
    let all = images.map_values(|image: ImageView| pattern(image));
    let list = patterns(images);
    let arguments = seq!["lfs"@, "track"@] + list;
    sorting_keeps_texts(all);
    reveal_strlit("*.");
    assert(recovery.request() == (RequestView::Git { place: Place::Repository, arguments }));
    assert forall|i: int| 0 <= i < images.len() implies exists|k: int|
        2 <= k < arguments.len() && #[trigger] arguments[k] == pattern(#[trigger] images[i]) by {
        assert(all[i] == pattern(images[i]));
        assert(all.contains(all[i]));
        assert(sorted(all).contains(all[i]));
        let k = choose|k: int| 0 <= k < list.len() && list[k] == all[i];
        assert(arguments[k + 2] == list[k]);
    }
    assert forall|i: int|
        0 <= i < images.len() && (#[trigger] images[i]).extension.len() > 0 implies exists|k: int|
        2 <= k < arguments.len() && matches_ending(
            #[trigger] arguments[k],
            images[i].extension,
        ) by {
        let k = choose|k: int|
            2 <= k < arguments.len() && #[trigger] arguments[k] == pattern(images[i]);
        assert(matches_ending(arguments[k], images[i].extension));
    }
    assert forall|k: int| 2 <= k < arguments.len() implies exists|i: int|
        0 <= i < images.len() && if (#[trigger] images[i]).extension.len() == 0 {
            arguments[k] == images[i].relative_path
        } else {
            matches_ending(#[trigger] arguments[k], images[i].extension)
        } by {
        assert(arguments[k] == list[k - 2]);
        assert(sorted(all).contains(list[k - 2]));
        assert(all.contains(list[k - 2]));
        let i = choose|i: int| 0 <= i < all.len() && all[i] == list[k - 2];
        assert(all[i] == pattern(images[i]));
        assert(images[i].extension.len() > 0 ==> matches_ending(
            arguments[k],
            images[i].extension,
        ));
    }
    assert forall|j: int, k: int| 2 <= j < k < arguments.len() implies precedes(
        #[trigger] arguments[j],
        #[trigger] arguments[k],
    ) by {
        assert(arguments[j] == list[j - 2]);
        assert(arguments[k] == list[k - 2]);
    }
}

/// Once more, every image is added by its name, one after the other, behind the file that tells Git
/// what Git LFS takes care of.
pub proof fn every_image_is_added_again(recovery: RecoveryView)
    requires
        recovery.stage == RecoveryStage::Add,
    ensures
        ({
            let images = recovery.images;
            &&& recovery.request() matches RequestView::Git { place, arguments }
            &&& place == Place::Repository
            &&& arguments.len() == images.len() + 3
            &&& arguments[0] == "add"@
            &&& arguments[1] == "--"@
            &&& arguments[2] == ".gitattributes"@
            &&& forall|i: int|
                0 <= i < images.len() ==> arguments[i + 3] == (
                #[trigger] images[i]).relative_path
        }),
{
}

/// The steps of the repetition, each a command of Git that has to succeed. Where one fails, the
/// failure says that the repetition did not complete, and why; where Git LFS is not there at the
/// start, it says that it has to be installed.
pub proof fn the_repetition_runs_in_order(
    recovery: RecoveryView,
    output: OutputView,
    failure: Failure,
)
    ensures
        recovery.resume(ReplyView::Git(Err(failure))) == StepView::<RecoveryView, ()>::Finish(
            Err(
                if recovery.stage == RecoveryStage::Version {
                    failure
                } else {
                    Failure::Message("Git LFS recovery did not complete: "@ + failure.text())
                },
            ),
        ),
        ({
            let step = recovery.resume(ReplyView::Git(Ok(output)));
            let next = match recovery.stage {
                RecoveryStage::Version => RecoveryStage::Install,
                RecoveryStage::Install => RecoveryStage::Track,
                RecoveryStage::Track => RecoveryStage::Add,
                RecoveryStage::Add => RecoveryStage::Amend,
                _ => RecoveryStage::Push,
            };
            &&& output.status == 0 && recovery.stage != RecoveryStage::Push ==> step
                == StepView::<RecoveryView, ()>::Continue(RecoveryView { stage: next, ..recovery })
            &&& output.status == 0 && recovery.stage == RecoveryStage::Push ==> step
                == StepView::<RecoveryView, ()>::Finish(Ok(()))
            &&& output.status != 0 && recovery.stage == RecoveryStage::Version ==> step
                == StepView::<RecoveryView, ()>::Finish(
                Err(
                    Failure::Message(
                        "Git LFS is required for this upload but is not installed. Install Git LFS, then try again."@,
                    ),
                ),
            )
            &&& output.status != 0 && recovery.stage != RecoveryStage::Version ==> step
                == StepView::<RecoveryView, ()>::Finish(
                Err(
                    Failure::Message(
                        "Git LFS recovery did not complete: "@ + failure_of(
                            command_line(recovery.request()->arguments),
                            output,
                        ).text(),
                    ),
                ),
            )
        }),
        recovery.stage == RecoveryStage::Version ==> recovery.request() == (RequestView::Git {
            place: Place::Repository,
            arguments: seq!["lfs"@, "version"@],
        }),
        recovery.stage == RecoveryStage::Install ==> recovery.request() == (RequestView::Git {
            place: Place::Repository,
            arguments: seq!["lfs"@, "install"@, "--local"@],
        }),
        recovery.stage == RecoveryStage::Amend ==> recovery.request() == (RequestView::Git {
            place: Place::Repository,
            arguments: seq!["commit"@, "--amend"@, "--no-edit"@],
        }),
        recovery.stage == RecoveryStage::Push ==> recovery.request() == (RequestView::Git {
            place: Place::Repository,
            arguments: seq!["push"@, "origin"@, "HEAD:refs/heads/"@ + recovery.branch],
        }),
{
}

/// Every image that was copied is matched by one of the patterns: after its star, the pattern is how
/// the image's name ends, in small letters.
pub proof fn every_copied_image_is_matched(platform: Platform, recovery: RecoveryView, i: int)
    requires
        recovery.stage == RecoveryStage::Track,
        all_images(platform, recovery.images),
        0 <= i < recovery.images.len(),
    ensures
        ({
            let arguments = recovery.request()->arguments;
            let name = lowered(recovery.images[i].relative_path);
            exists|k: int|
                2 <= k < arguments.len() && 1 < arguments[k].len() <= name.len() && (
                #[trigger] arguments[k])[0] == '*' && arguments[k].skip(1) == name.skip(
                    name.len() - arguments[k].len() + 1,
                )
        }),
{
    every_image_is_tracked(recovery);
    let arguments = recovery.request()->arguments;
    let image = recovery.images[i];
    let path = image.relative_path;
    let name = lowered(path);
    let at = last_index(path, '.');
    lemma_last_index(path, '.');
    assert(image_extension(path) == Some(image.extension));
    assert(image.extension == lowered(path.skip(at + 1)));
    if image.extension.len() == 0 {
        images_have_endings(path);
    }
    let k = choose|k: int|
        2 <= k < arguments.len() && matches_ending(#[trigger] arguments[k], image.extension);
    assert(arguments[k].skip(1) =~= name.skip(at)) by {
        assert forall|m: int| 0 <= m < name.len() - at implies #[trigger] arguments[k].skip(1)[m]
            == name.skip(at)[m] by {
            if m > 0 {
                assert(arguments[k][m - 1 + 2] == image.extension[m - 1]);
                assert(image.extension[m - 1] == lowered(path.skip(at + 1))[m - 1]);
                assert(path.skip(at + 1)[m - 1] == path[at + m]);
            }
        }
    }
}

} // verus!

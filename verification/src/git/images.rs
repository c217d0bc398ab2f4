//! Copying the selected images into the local repository.
use vstd::prelude::*;

use crate::git::components::{last_name, plain, texts_without_separators_are_plain};
use crate::git::environment::Platform;
use crate::git::naming::{DestinationSearch, LAST_NUMBER, SearchView, candidate};
use crate::git::naming::{candidates_are_numbered_before_the_ending, candidates_keep_extension};
use crate::git::naming::image_extension;
use crate::git::naming::{images_are_known_by_their_ending, numbered_names_are_plain};
use crate::git::naming::{supported_extension, unique_destination};
use crate::git::protocol::{Reply, ReplyView, Request, RequestView, Source, SourceView};
use crate::models::{AppError, Failure};
use crate::procedure::{Step, StepView};
use crate::text::{decimal, last_index, lemma_last_index, lowered, same};

verus! {

// ---------------------------------------------------------------------------------------------
// Copied images
// ---------------------------------------------------------------------------------------------
/// An image that was copied: its name in the local repository, and its extension in small letters.
#[derive(Debug)]
pub struct CopiedImage {
    pub relative_path: String,
    pub extension: String,
}

/// The model of a [`CopiedImage`].
#[verifier::ext_equal]
pub struct ImageView {
    pub relative_path: Seq<char>,
    pub extension: Seq<char>,
}

impl View for CopiedImage {
    type V = ImageView;

    open spec fn view(&self) -> ImageView {
        ImageView { relative_path: self.relative_path@, extension: self.extension@ }
    }
}

/// The images that were copied, in the order of the selection.
#[derive(Debug)]
pub struct CopiedImages {
    pub images: Vec<CopiedImage>,
}

impl View for CopiedImages {
    type V = Seq<ImageView>;

    open spec fn view(&self) -> Seq<ImageView> {
        self.images@.map_values(|image: CopiedImage| image@)
    }
}

/// The names of the images in the local repository.
pub open spec fn paths(images: Seq<ImageView>) -> Seq<Seq<char>> {
    images.map_values(|image: ImageView| image.relative_path)
}

impl CopiedImages {
    /// The names of the images in the local repository.
    pub fn paths(&self) -> (r: Vec<String>)
        ensures
            r.deep_view() == paths(self@),
    {
        let mut r: Vec<String> = Vec::new();
        let mut i: usize = 0;
        while i < self.images.len()
            invariant
                i <= self.images.len(),
                r@.len() == i,
                forall|k: int| 0 <= k < i ==> (#[trigger] r@[k])@ == self@[k].relative_path,
            decreases self.images.len() - i,
        {
            r.push(self.images[i].relative_path.clone());
            i = i + 1;
        }
        assert(r.deep_view() =~= paths(self@));
        r
    }
}

// ---------------------------------------------------------------------------------------------
// The procedure, as a model
// ---------------------------------------------------------------------------------------------
/// What the procedure is doing.
#[verifier::ext_equal]
pub enum CopyStageView {
    /// It follows the first of the pending paths.
    Resolving,
    /// It looks for a free name for the image that the path led to.
    Probing { source: Seq<u8>, search: SearchView, extension: Seq<char> },
    /// It copies the image.
    Copying { source: Seq<u8>, name: Seq<char>, extension: Seq<char> },
    /// A copy failed, and it deletes the images copied so far, of which these remain.
    Removing { names: Seq<Seq<char>>, failure: Failure },
}

/// The model of a [`Copying`].
#[verifier::ext_equal]
pub struct CopyView {
    /// The platform, which says how paths are divided.
    pub platform: Platform,
    /// The selected paths that are not dealt with yet.
    pub pending: Seq<Seq<char>>,
    /// The files that were followed to.
    pub seen: Set<Seq<u8>>,
    /// The images copied so far.
    pub copied: Seq<ImageView>,
    pub stage: CopyStageView,
}

/// The failure of a selection without any image.
pub open spec fn no_images() -> Failure {
    Failure::Message("The selected items do not contain any supported image files."@)
}

/// The extension, in small letters, of a file that is an image: a regular file whose name is that of
/// one. The name is the last of the file's path, so that a text which is not a name of its own is
/// none.
pub open spec fn source_extension(platform: Platform, source: SourceView) -> Option<Seq<char>> {
    match source.file_name {
        Some(name) => if source.is_file && plain(platform, name) {
            image_extension(name)
        } else {
            None
        },
        None => None,
    }
}

impl CopyView {
    /// The procedure at its start.
    pub open spec fn start(platform: Platform, sources: Seq<Seq<char>>) -> StepView<
        CopyView,
        Seq<ImageView>,
    > {
        if sources.len() == 0 {
            StepView::Finish(Err(no_images()))
        } else {
            StepView::Continue(
                CopyView {
                    platform,
                    pending: sources,
                    seen: Set::empty(),
                    copied: Seq::empty(),
                    stage: CopyStageView::Resolving,
                },
            )
        }
    }

    /// The procedure with the first pending path dealt with.
    pub open spec fn proceed(self) -> StepView<CopyView, Seq<ImageView>> {
        let rest = self.pending.drop_first();
        if rest.len() > 0 {
            StepView::Continue(
                CopyView { pending: rest, stage: CopyStageView::Resolving, ..self },
            )
        } else if self.copied.len() > 0 {
            StepView::Finish(Ok(self.copied))
        } else {
            StepView::Finish(Err(no_images()))
        }
    }

    /// The procedure while it deletes the named files because of a failure.
    pub open spec fn undo(self, names: Seq<Seq<char>>, failure: Failure) -> StepView<
        CopyView,
        Seq<ImageView>,
    > {
        if names.len() == 0 {
            StepView::Finish(Err(failure))
        } else {
            StepView::Continue(
                CopyView { stage: CopyStageView::Removing { names, failure }, ..self },
            )
        }
    }

    /// The procedure once the first pending path has led to a file. A file that the selection led
    /// to before is passed over, and so is what is not an image.
    pub open spec fn found(self, source: SourceView) -> StepView<CopyView, Seq<ImageView>> {
        let met = CopyView { seen: self.seen.insert(source.canonical), ..self };
        if self.seen.contains(source.canonical) {
            met.proceed()
        } else {
            match source_extension(self.platform, source) {
                Some(extension) => StepView::Continue(
                    CopyView {
                        stage: CopyStageView::Probing {
                            source: source.canonical,
                            search: SearchView {
                                platform: self.platform,
                                filename: source.file_name->0,
                                number: 0,
                            },
                            extension,
                        },
                        ..met
                    },
                ),
                None => met.proceed(),
            }
        }
    }

    /// The pending request.
    pub open spec fn request(self) -> RequestView {
        match self.stage {
            CopyStageView::Resolving => RequestView::Resolve { path: self.pending[0] },
            CopyStageView::Probing { source, search, extension } => {
                RequestView::ProbeDestination { name: search.candidate() }
            },
            CopyStageView::Copying { source, name, extension } => RequestView::Copy {
                source,
                name,
            },
            CopyStageView::Removing { names, failure } => RequestView::Remove { name: names[0] },
        }
    }

    /// The procedure after a reply.
    pub open spec fn resume(self, reply: ReplyView) -> StepView<CopyView, Seq<ImageView>> {
        match (self.stage, reply) {
            (CopyStageView::Resolving, ReplyView::Resolved(source)) => match source {
                Some(found) => self.found(found),
                None => self.proceed(),
            },
            (
                CopyStageView::Probing { source, search, extension },
                ReplyView::Exists(taken),
            ) => if taken {
                StepView::Continue(
                    CopyView {
                        stage: CopyStageView::Probing { source, search: search.next(), extension },
                        ..self
                    },
                )
            } else {
                StepView::Continue(
                    CopyView {
                        stage: CopyStageView::Copying {
                            source,
                            name: search.candidate(),
                            extension,
                        },
                        ..self
                    },
                )
            },
            (
                CopyStageView::Copying { source, name, extension },
                ReplyView::Done(result),
            ) => match result {
                Ok(_) => {
                    let image = ImageView { relative_path: name, extension };
                    CopyView { copied: self.copied.push(image), ..self }.proceed()
                },
                Err(failure) => self.undo(paths(self.copied), failure),
            },
            (
                CopyStageView::Removing { names, failure },
                ReplyView::Done(_),
            ) => self.undo(names.drop_first(), failure),
            _ => StepView::Continue(self),
        }
    }

    /// No further name can be tried: the reply says that the last one is taken.
    pub open spec fn exhausted(self, reply: ReplyView) -> bool {
        self.stage matches CopyStageView::Probing { source, search, extension } && search.number
            >= LAST_NUMBER && reply == ReplyView::Exists(true)
    }
}

// ---------------------------------------------------------------------------------------------
// The procedure
// ---------------------------------------------------------------------------------------------
#[derive(Debug)]
enum CopyStage {
    Resolving,
    Probing { source: Vec<u8>, search: DestinationSearch, extension: String },
    Copying { source: Vec<u8>, name: String, extension: String },
    Removing { names: Vec<String>, position: usize, error: AppError },
}

impl View for CopyStage {
    type V = CopyStageView;

    closed spec fn view(&self) -> CopyStageView {
        match self {
            CopyStage::Resolving => CopyStageView::Resolving,
            CopyStage::Probing { source, search, extension } => CopyStageView::Probing {
                source: source@,
                search: search@,
                extension: extension@,
            },
            CopyStage::Copying { source, name, extension } => CopyStageView::Copying {
                source: source@,
                name: name@,
                extension: extension@,
            },
            CopyStage::Removing { names, position, error } => CopyStageView::Removing {
                names: names.deep_view().skip(*position as int),
                failure: error@,
            },
        }
    }
}

/// The copying of the selected images into the local repository.
#[derive(Debug)]
pub struct Copying {
    platform: Platform,
    sources: Vec<String>,
    position: usize,
    seen: Vec<Vec<u8>>,
    copied: CopiedImages,
    stage: CopyStage,
}

impl View for Copying {
    type V = CopyView;

    closed spec fn view(&self) -> CopyView {
        CopyView {
            platform: self.platform,
            pending: self.sources.deep_view().skip(self.position as int),
            seen: self.seen.deep_view().to_set(),
            copied: self.copied@,
            stage: self.stage@,
        }
    }
}

fn same_bytes(a: &Vec<u8>, b: &Vec<u8>) -> (r: bool)
    ensures
        r == (a@ == b@),
{
    if a.len() != b.len() {
        return false;
    }
    let mut i: usize = 0;
    while i < a.len()
        invariant
            i <= a.len(),
            a.len() == b.len(),
            forall|k: int| 0 <= k < i ==> a@[k] == b@[k],
        decreases a.len() - i,
    {
        if a[i] != b[i] {
            return false;
        }
        i = i + 1;
    }
    assert(a@ =~= b@);
    true
}

fn has_bytes(list: &Vec<Vec<u8>>, bytes: &Vec<u8>) -> (r: bool)
    ensures
        r == list.deep_view().to_set().contains(bytes@),
{
    let mut i: usize = 0;
    while i < list.len()
        invariant
            i <= list.len(),
            forall|k: int| 0 <= k < i ==> (#[trigger] list.deep_view()[k]) != bytes@,
        decreases list.len() - i,
    {
        assert(list.deep_view()[i as int] =~= list@[i as int]@);
        if same_bytes(&list[i], bytes) {
            assert(list.deep_view().contains(bytes@));
            return true;
        }
        i = i + 1;
    }
    false
}

fn add_bytes(list: &mut Vec<Vec<u8>>, bytes: Vec<u8>)
    ensures
        final(list).deep_view().to_set() == old(list).deep_view().to_set().insert(bytes@),
{
    let ghost before = list.deep_view();
    assert(bytes.deep_view() =~= bytes@);
    list.push(bytes);
    assert(list.deep_view() =~= before.push(bytes@));
    assert(before.push(bytes@).to_set() =~= before.to_set().insert(bytes@)) by {
        assert forall|x: Seq<u8>|
            before.push(bytes@).to_set().contains(x) == before.to_set().insert(bytes@).contains(
                x,
            ) by {
            if before.contains(x) {
                let k = choose|k: int| 0 <= k < before.len() && before[k] == x;
                assert(before.push(bytes@)[k] == x);
            }
            if x == bytes@ {
                assert(before.push(bytes@)[before.len() as int] == x);
            }
        }
    }
}

fn copy_of_bytes(bytes: &Vec<u8>) -> (r: Vec<u8>)
    ensures
        r@ == bytes@,
{
    let r = bytes.clone();
    assert(r@ =~= bytes@);
    r
}

fn is_plain(platform: Platform, name: &str) -> (r: bool)
    ensures
        r == plain(platform, name@),
{
    match last_name(platform, name) {
        Some(last) => same(last, name),
        None => false,
    }
}

/// Starts to copy the images of a selection.
pub fn copy_images(platform: Platform, sources: Vec<String>) -> (r: Step<Copying, CopiedImages>)
    ensures
        r@ == CopyView::start(platform, sources.deep_view()),
{
    if sources.len() == 0 {
        return Step::Finish(
            Err(
                AppError::message("The selected items do not contain any supported image files."),
            ),
        );
    }
    let seen: Vec<Vec<u8>> = Vec::new();
    let images: Vec<CopiedImage> = Vec::new();
    let copied = CopiedImages { images };
    assert(sources.deep_view().skip(0) =~= sources.deep_view());
    assert(seen.deep_view().to_set() =~= Set::empty());
    assert(copied@ =~= Seq::empty());
    Step::Continue(
        Copying { platform, sources, position: 0, seen, copied, stage: CopyStage::Resolving },
    )
}

impl Copying {
    #[verifier::type_invariant]
    closed spec fn inv(self) -> bool {
        &&& self.position < self.sources@.len()
        &&& self.stage matches CopyStage::Removing { names, position, error } ==> position
            < names@.len()
    }

    /// The pending request.
    pub fn request(&self) -> (r: Request)
        ensures
            r@ == self@.request(),
    {
        proof {
            use_type_invariant(&*self);
        }
        match &self.stage {
            CopyStage::Resolving => Request::Resolve { path: self.sources[self.position].clone() },
            CopyStage::Probing { source, search, extension } => Request::ProbeDestination {
                name: search.candidate(),
            },
            CopyStage::Copying { source, name, extension } => Request::Copy {
                source: copy_of_bytes(source),
                name: name.clone(),
            },
            CopyStage::Removing { names, position, error } => Request::Remove {
                name: names[*position].clone(),
            },
        }
    }

    fn proceed(self) -> (r: Step<Copying, CopiedImages>)
        ensures
            r@ == self@.proceed(),
    {
        proof {
            use_type_invariant(&self);
        }
        assert(self.position < self.sources.len());
        let next: usize = self.position + 1;
        assert(self@.pending.drop_first() =~= self.sources.deep_view().skip(next as int));
        if next < self.sources.len() {
            Step::Continue(
                Copying {
                    platform: self.platform,
                    sources: self.sources,
                    position: next,
                    seen: self.seen,
                    copied: self.copied,
                    stage: CopyStage::Resolving,
                },
            )
        } else if self.copied.images.len() > 0 {
            Step::Finish(Ok(self.copied))
        } else {
            Step::Finish(
                Err(
                    AppError::message(
                        "The selected items do not contain any supported image files.",
                    ),
                ),
            )
        }
    }

    fn undo(self, names: Vec<String>, position: usize, error: AppError) -> (r: Step<
        Copying,
        CopiedImages,
    >)
        requires
            position <= names@.len(),
        ensures
            r@ == self@.undo(names.deep_view().skip(position as int), error@),
    {
        proof {
            use_type_invariant(&self);
        }
        if position < names.len() {
            Step::Continue(
                Copying {
                    platform: self.platform,
                    sources: self.sources,
                    position: self.position,
                    seen: self.seen,
                    copied: self.copied,
                    stage: CopyStage::Removing { names, position, error },
                },
            )
        } else {
            Step::Finish(Err(error))
        }
    }

    fn found(self, source: Source) -> (r: Step<Copying, CopiedImages>)
        ensures
            r@ == self@.found(source@),
    {
        proof {
            use_type_invariant(&self);
        }
        let known = has_bytes(&self.seen, &source.canonical);
        let ghost before = self@;
        let mut seen = self.seen;
        let ghost earlier = seen.deep_view().to_set();
        if !known {
            add_bytes(&mut seen, copy_of_bytes(&source.canonical));
        } else {
            assert(earlier.insert(source.canonical@) =~= earlier);
        }
        let met = Copying {
            platform: self.platform,
            sources: self.sources,
            position: self.position,
            seen,
            copied: self.copied,
            stage: self.stage,
        };
        assert(met@ == (CopyView { seen: before.seen.insert(source.canonical@), ..before }));
        if known || !source.is_file {
            return met.proceed();
        }
        match source.file_name {
            Some(name) => {
                if !is_plain(met.platform, name.as_str()) {
                    return met.proceed();
                }
                match supported_extension(name.as_str()) {
                    Some(extension) => Step::Continue(
                        Copying {
                            platform: met.platform,
                            sources: met.sources,
                            position: met.position,
                            seen: met.seen,
                            copied: met.copied,
                            stage: CopyStage::Probing {
                                source: source.canonical,
                                search: unique_destination(met.platform, name.as_str()),
                                extension,
                            },
                        },
                    ),
                    None => met.proceed(),
                }
            },
            None => met.proceed(),
        }
    }

    /// Whether the reply says that the last name that can be tried is taken.
    pub fn exhausted(&self, reply: &Reply) -> (r: bool)
        ensures
            r == self@.exhausted(reply@),
    {
        match (&self.stage, reply) {
            (CopyStage::Probing { source, search, extension }, Reply::Exists(true)) => search.number
                >= LAST_NUMBER,
            _ => false,
        }
    }

    /// Goes on with the reply to the pending request.
    pub fn resume(self, reply: Reply) -> (r: Step<Copying, CopiedImages>)
        requires
            !self@.exhausted(reply@),
        ensures
            r@ == self@.resume(reply@),
    {
        proof {
            use_type_invariant(&self);
        }
        let ghost before = self@;
        let Copying { platform, sources, position, seen, copied, stage } = self;
        match (stage, reply) {
            (CopyStage::Resolving, Reply::Resolved(source)) => {
                let current = Copying {
                    platform,
                    sources,
                    position,
                    seen,
                    copied,
                    stage: CopyStage::Resolving,
                };
                assert(current@ == before);
                match source {
                    Some(found) => current.found(found),
                    None => current.proceed(),
                }
            },
            (CopyStage::Probing { source, search, extension }, Reply::Exists(taken)) => {
                let next = if taken {
                    CopyStage::Probing { source, search: search.next(), extension }
                } else {
                    CopyStage::Copying { source, name: search.candidate(), extension }
                };
                Step::Continue(Copying { platform, sources, position, seen, copied, stage: next })
            },
            (CopyStage::Copying { source, name, extension }, Reply::Done(result)) => {
                match result {
                    Ok(_) => {
                        let ghost earlier = copied@;
                        let mut copied = copied;
                        let image = CopiedImage { relative_path: name, extension };
                        let ghost added = image@;
                        copied.images.push(image);
                        assert(copied@ =~= earlier.push(added));
                        let current = Copying {
                            platform,
                            sources,
                            position,
                            seen,
                            copied,
                            stage: CopyStage::Resolving,
                        };
                        current.proceed()
                    },
                    Err(error) => {
                        let names = copied.paths();
                        assert(names.deep_view().skip(0) =~= names.deep_view());
                        let current = Copying {
                            platform,
                            sources,
                            position,
                            seen,
                            copied,
                            stage: CopyStage::Resolving,
                        };
                        current.undo(names, 0, error)
                    },
                }
            },
            (CopyStage::Removing { names, position: at, error }, Reply::Done(_)) => {
                assert(names.deep_view().skip(at as int).drop_first() =~= names.deep_view().skip(
                    at + 1,
                ));
                let current = Copying {
                    platform,
                    sources,
                    position,
                    seen,
                    copied,
                    stage: CopyStage::Resolving,
                };
                assert(at < names.len());
                current.undo(names, at + 1, error)
            },
            (stage, _) => Step::Continue(
                Copying { platform, sources, position, seen, copied, stage },
            ),
        }
    }
}

// ---------------------------------------------------------------------------------------------
// What holds throughout
// ---------------------------------------------------------------------------------------------
/// Every image has the name of an image file, and its extension is that of its name. It is in the
/// folder itself.
pub open spec fn all_images(platform: Platform, images: Seq<ImageView>) -> bool {
    forall|i: int|
        0 <= i < images.len() ==> image_extension((#[trigger] images[i]).relative_path) == Some(
            images[i].extension,
        ) && plain(platform, images[i].relative_path)
}

impl CopyView {
    /// What holds at every point of the procedure: what was copied is an image, so is what is being
    /// copied, and there are no more copies than different files were followed to.
    pub open spec fn sound(self) -> bool {
        &&& self.pending.len() > 0
        &&& self.seen.finite()
        &&& all_images(self.platform, self.copied)
        &&& match self.stage {
            CopyStageView::Resolving => self.copied.len() <= self.seen.len(),
            CopyStageView::Probing { source, search, extension } => {
                &&& self.copied.len() < self.seen.len()
                &&& self.seen.contains(source)
                &&& search.platform == self.platform
                &&& image_extension(search.filename) == Some(extension)
                &&& plain(self.platform, search.filename)
            },
            CopyStageView::Copying { source, name, extension } => {
                &&& self.copied.len() < self.seen.len()
                &&& self.seen.contains(source)
                &&& image_extension(name) == Some(extension)
                &&& plain(self.platform, name)
            },
            CopyStageView::Removing { names, failure } => names.len() > 0,
        }
    }
}

/// The procedure starts sound.
pub proof fn copying_starts_sound(platform: Platform, sources: Seq<Seq<char>>)
    ensures
        CopyView::start(platform, sources) matches StepView::Continue(machine) ==> machine.sound()
            && machine.platform == platform,
{
}

/// A sound procedure stays sound whatever the reply, and where it succeeds, it has copied at least
/// one image, images only, and no more than different files were followed to. There are never more
/// copies than paths were selected.
pub proof fn copying_stays_sound(machine: CopyView, reply: ReplyView)
    requires
        machine.sound(),
    ensures
        match machine.resume(reply) {
            StepView::Continue(next) => {
                &&& next.sound()
                &&& next.platform == machine.platform
                &&& next.copied.len() + next.pending.len() <= machine.copied.len()
                    + machine.pending.len()
            },
            StepView::Finish(Ok(images)) => {
                &&& images.len() > 0
                &&& all_images(machine.platform, images)
                &&& images.len() <= machine.copied.len() + machine.pending.len()
                &&& images.len() <= machine.seen.len()
            },
            StepView::Finish(Err(_)) => true,
        },
{
    if let CopyStageView::Probing { source, search, extension } = machine.stage {
        candidates_keep_extension(search.platform, search.filename, search.number);
        if search.number > 0 {
            numbered_names_are_plain(search.platform, search.filename, search.number);
        }
    }
}

/// A file is copied only under a name that was just found to be free, so that nothing is ever
/// overwritten.
pub proof fn copying_overwrites_nothing(machine: CopyView, reply: ReplyView, next: CopyView)
    requires
        machine.resume(reply) == StepView::<CopyView, Seq<ImageView>>::Continue(next),
        next.stage is Copying,
        machine.stage !is Copying,
    ensures
        machine.request() == (RequestView::ProbeDestination { name: next.stage->Copying_name }),
        reply == ReplyView::Exists(false),
        next.request() == (RequestView::Copy {
            source: next.stage->Copying_source,
            name: next.stage->Copying_name,
        }),
{
}

/// What is copied is the file that the path led to: from the reply that led to it until it has been
/// copied, no other path is followed, and the file and its name stay what they were.
pub proof fn copies_are_of_the_file_followed_to(machine: CopyView, reply: ReplyView, next: CopyView)
    requires
        machine.sound(),
        machine.resume(reply) == StepView::<CopyView, Seq<ImageView>>::Continue(next),
    ensures
        next.stage matches CopyStageView::Probing { source, search, extension } ==> {
            &&& next.pending == machine.pending
            &&& next.copied == machine.copied
            &&& match machine.stage {
                CopyStageView::Resolving => {
                    &&& reply matches ReplyView::Resolved(Some(file))
                    &&& source == file.canonical
                    &&& file.file_name == Some(search.filename)
                    &&& search.number == 0
                    &&& source_extension(machine.platform, file) == Some(extension)
                    &&& !machine.seen.contains(file.canonical)
                },
                CopyStageView::Probing {
                    source: earlier,
                    search: search_before,
                    extension: extension_before,
                } => source == earlier && search.filename == search_before.filename && extension
                    == extension_before,
                _ => false,
            }
        },
        next.stage matches CopyStageView::Copying { source, name, extension } ==> {
            &&& next.pending == machine.pending
            &&& next.copied == machine.copied
            &&& match machine.stage {
                CopyStageView::Probing { source: earlier, search, extension: extension_before } => {
                    &&& source == earlier
                    &&& name == search.candidate()
                    &&& extension == extension_before
                },
                _ => next == machine,
            }
        },
{
}

/// The procedure after a series of replies.
pub open spec fn copying_after(
    step: StepView<CopyView, Seq<ImageView>>,
    replies: Seq<ReplyView>,
) -> StepView<CopyView, Seq<ImageView>>
    decreases replies.len(),
{
    match step {
        StepView::Continue(machine) => if replies.len() == 0 {
            step
        } else {
            copying_after(machine.resume(replies[0]), replies.drop_first())
        },
        StepView::Finish(_) => step,
    }
}

/// The requests that a series of replies answers.
pub open spec fn copying_requests(
    step: StepView<CopyView, Seq<ImageView>>,
    replies: Seq<ReplyView>,
) -> Seq<RequestView>
    decreases replies.len(),
{
    match step {
        StepView::Continue(machine) => if replies.len() == 0 {
            Seq::empty()
        } else {
            seq![machine.request()] + copying_requests(
                machine.resume(replies[0]),
                replies.drop_first(),
            )
        },
        StepView::Finish(_) => Seq::empty(),
    }
}

/// The replies to a search for a free name that finds the first `taken` of the candidates taken,
/// and the next one free.
pub open spec fn search_replies(taken: nat) -> Seq<ReplyView>
    decreases taken,
{
    if taken == 0 {
        seq![ReplyView::Exists(false)]
    } else {
        seq![ReplyView::Exists(true)] + search_replies((taken - 1) as nat)
    }
}

/// An image is copied under the first of the candidates that is free.
pub proof fn images_get_the_first_free_name(
    machine: CopyView,
    source: Seq<u8>,
    filename: Seq<char>,
    extension: Seq<char>,
    taken: nat,
)
    requires
        machine.stage == (CopyStageView::Probing {
            source,
            search: SearchView { platform: machine.platform, filename, number: 0 },
            extension,
        }),
    ensures
        copying_after(StepView::Continue(machine), search_replies(taken)) == StepView::<
            CopyView,
            Seq<ImageView>,
        >::Continue(
            (CopyView {
                stage: CopyStageView::Copying {
                    source,
                    name: candidate(machine.platform, filename, taken),
                    extension,
                },
                ..machine
            }),
        ),
{
    lemma_searching(machine, source, filename, extension, 0, taken);
}

proof fn lemma_searching(
    machine: CopyView,
    source: Seq<u8>,
    filename: Seq<char>,
    extension: Seq<char>,
    number: nat,
    taken: nat,
)
    requires
        machine.stage == (CopyStageView::Probing {
            source,
            search: SearchView { platform: machine.platform, filename, number },
            extension,
        }),
    ensures
        copying_after(StepView::Continue(machine), search_replies(taken)) == StepView::<
            CopyView,
            Seq<ImageView>,
        >::Continue(
            (CopyView {
                stage: CopyStageView::Copying {
                    source,
                    name: candidate(machine.platform, filename, number + taken),
                    extension,
                },
                ..machine
            }),
        ),
    decreases taken,
{
    let replies = search_replies(taken);
    let step = StepView::Continue(machine);
    assert(copying_after(step, replies) == copying_after(
        machine.resume(replies[0]),
        replies.drop_first(),
    ));
    if taken > 0 {
        let next = CopyView {
            stage: CopyStageView::Probing {
                source,
                search: SearchView { platform: machine.platform, filename, number: number + 1 },
                extension,
            },
            ..machine
        };
        lemma_searching(next, source, filename, extension, number + 1, (taken - 1) as nat);
        assert(replies.drop_first() =~= search_replies((taken - 1) as nat));
        assert(machine.resume(replies[0]) == StepView::<CopyView, Seq<ImageView>>::Continue(next));
    } else {
        assert(replies.drop_first() =~= Seq::empty());
    }
}

/// The requests to delete the files of the given names.
pub open spec fn removals(names: Seq<Seq<char>>) -> Seq<RequestView> {
    names.map_values(|name: Seq<char>| RequestView::Remove { name })
}

/// When a file cannot be copied, every image copied before it is deleted again, whether or not the
/// deletions succeed, and then the failure is reported.
pub proof fn failed_copying_is_undone(
    machine: CopyView,
    failure: Failure,
    replies: Seq<ReplyView>,
)
    requires
        machine.stage is Copying,
        replies.len() == machine.copied.len(),
        forall|i: int| 0 <= i < replies.len() ==> (#[trigger] replies[i]) is Done,
    ensures
        ({
            let failed = machine.resume(ReplyView::Done(Err(failure)));
            &&& copying_requests(failed, replies) == removals(paths(machine.copied))
            &&& copying_after(failed, replies) == StepView::<CopyView, Seq<ImageView>>::Finish(
                Err(failure),
            )
        }),
{
    lemma_undoing(machine, paths(machine.copied), failure, replies);
}

proof fn lemma_undoing(
    machine: CopyView,
    names: Seq<Seq<char>>,
    failure: Failure,
    replies: Seq<ReplyView>,
)
    requires
        replies.len() == names.len(),
        forall|i: int| 0 <= i < replies.len() ==> (#[trigger] replies[i]) is Done,
    ensures
        copying_requests(machine.undo(names, failure), replies) == removals(names),
        copying_after(machine.undo(names, failure), replies) == StepView::<
            CopyView,
            Seq<ImageView>,
        >::Finish(Err(failure)),
    decreases names.len(),
{
    if names.len() > 0 {
        let next = CopyView { stage: CopyStageView::Removing { names, failure }, ..machine };
        let rest = replies.drop_first();
        assert forall|i: int| 0 <= i < rest.len() implies (#[trigger] rest[i]) is Done by {
            assert(rest[i] == replies[i + 1]);
        }
        lemma_undoing(next, names.drop_first(), failure, rest);
        assert(next.resume(replies[0]) == next.undo(names.drop_first(), failure));
        assert(removals(names) =~= seq![next.request()] + removals(names.drop_first()));
    } else {
        assert(removals(names) =~= Seq::empty());
    }
}

// ---------------------------------------------------------------------------------------------
// What copying does to the folder
// ---------------------------------------------------------------------------------------------
/// The names of what is in the folder of the local repository.
pub type Folder = Set<Seq<char>>;

/// A request, with this reply to it, may turn the folder into `after`. What is in the folder is told
/// as it is. A request that could not be carried out changes nothing, but that what is left of a
/// file that was to be copied is uncertain.
pub open spec fn folder_allows(
    folder: Folder,
    request: RequestView,
    reply: ReplyView,
    after: Folder,
) -> bool {
    match (request, reply) {
        (RequestView::ProbeDestination { name }, ReplyView::Exists(answer)) => answer
            == folder.contains(name) && after == folder,
        (RequestView::Copy { source, name }, ReplyView::Done(Ok(_))) => after == folder.insert(name),
        (RequestView::Copy { source, name }, ReplyView::Done(Err(_))) => after.remove(name)
            == folder.remove(name),
        (RequestView::Remove { name }, ReplyView::Done(Ok(_))) => after == folder.remove(name),
        _ => after == folder,
    }
}

/// The replies are those that the folder allows, which is one of `folders` after the other: the
/// first at the start, and the last at the end.
pub open spec fn copying_allowed(
    step: StepView<CopyView, Seq<ImageView>>,
    folders: Seq<Folder>,
    replies: Seq<ReplyView>,
) -> bool
    decreases replies.len(),
{
    &&& folders.len() == replies.len() + 1
    &&& match step {
        StepView::Continue(machine) => replies.len() > 0 ==> folder_allows(
            folders[0],
            machine.request(),
            replies[0],
            folders[1],
        ) && copying_allowed(
            machine.resume(replies[0]),
            folders.drop_first(),
            replies.drop_first(),
        ),
        StepView::Finish(_) => replies.len() == 0,
    }
}

/// The request creates, changes or deletes nothing that was there before.
pub open spec fn spares(request: RequestView, before: Folder) -> bool {
    match request {
        RequestView::Copy { source, name } => !before.contains(name),
        RequestView::Remove { name } => !before.contains(name),
        _ => true,
    }
}

/// The images have different names, none of which was there before.
pub open spec fn new_names(images: Seq<ImageView>, before: Folder) -> bool {
    &&& paths(images).no_duplicates()
    &&& forall|i: int|
        0 <= i < images.len() ==> !before.contains((#[trigger] images[i]).relative_path)
}

/// What was there before, and the images.
pub open spec fn filled(before: Folder, images: Seq<ImageView>) -> Folder {
    before.union(paths(images).to_set())
}

impl CopyView {
    /// What holds of the folder at every point of the procedure, where it held `before` at the
    /// start: it holds that still, and beside it what was copied.
    pub open spec fn keeps(self, before: Folder, folder: Folder) -> bool {
        &&& before.subset_of(folder)
        &&& new_names(self.copied, before)
        &&& match self.stage {
            CopyStageView::Removing { names, failure } => forall|i: int|
                0 <= i < names.len() ==> !before.contains(#[trigger] names[i]),
            CopyStageView::Copying { source, name, extension } => folder == filled(
                before,
                self.copied,
            ) && !folder.contains(name),
            _ => folder == filled(before, self.copied),
        }
    }
}

proof fn lemma_one_more_image(before: Folder, images: Seq<ImageView>, image: ImageView)
    requires
        new_names(images, before),
        !filled(before, images).contains(image.relative_path),
    ensures
        new_names(images.push(image), before),
        filled(before, images.push(image)) == filled(before, images).insert(image.relative_path),
{
    let names = paths(images);
    let name = image.relative_path;
    assert(paths(images.push(image)) =~= names.push(name));
    assert(!names.contains(name)) by {
        if names.contains(name) {
            assert(names.to_set().contains(name));
        }
    }
    assert(names.push(name).no_duplicates());
    assert forall|x: Seq<char>| names.push(name).to_set().contains(x) == names.to_set().insert(
        name,
    ).contains(x) by {
        if names.contains(x) {
            let k = choose|k: int| 0 <= k < names.len() && names[k] == x;
            assert(names.push(name)[k] == x);
        }
        if x == name {
            assert(names.push(name)[names.len() as int] == x);
        }
    }
    assert(filled(before, images.push(image)) =~= filled(before, images).insert(name));
}

/// One step of the procedure spares what was in the folder before, and adds to it the images that it
/// has copied.
pub proof fn copying_keeps_the_folder(
    machine: CopyView,
    before: Folder,
    folder: Folder,
    reply: ReplyView,
    after: Folder,
)
    requires
        machine.sound(),
        machine.keeps(before, folder),
        folder_allows(folder, machine.request(), reply, after),
    ensures
        spares(machine.request(), before),
        before.subset_of(after),
        match machine.resume(reply) {
            StepView::Continue(next) => next.keeps(before, after),
            StepView::Finish(Ok(images)) => new_names(images, before) && after == filled(
                before,
                images,
            ),
            StepView::Finish(Err(_)) => true,
        },
{
    match (machine.stage, reply) {
        (CopyStageView::Copying { source, name, extension }, ReplyView::Done(Ok(_))) => {
            lemma_one_more_image(
                before,
                machine.copied,
                ImageView { relative_path: name, extension },
            );
        },
        (CopyStageView::Copying { source, name, extension }, ReplyView::Done(Err(_))) => {
            assert forall|x: Seq<char>| before.contains(x) implies after.contains(x) by {
                assert(folder.remove(name).contains(x));
                assert(after.remove(name).contains(x));
            }
            let names = paths(machine.copied);
            assert forall|i: int| 0 <= i < names.len() implies !before.contains(
                #[trigger] names[i],
            ) by {
                assert(names[i] == machine.copied[i].relative_path);
            }
        },
        (CopyStageView::Removing { names, failure }, _) => {
            assert(!before.contains(names[0]));
            let rest = names.drop_first();
            assert forall|i: int| 0 <= i < rest.len() implies !before.contains(
                #[trigger] rest[i],
            ) by {
                assert(rest[i] == names[i + 1]);
            }
        },
        _ => {},
    }
}

proof fn lemma_copying_run(
    machine: CopyView,
    before: Folder,
    folders: Seq<Folder>,
    replies: Seq<ReplyView>,
)
    requires
        machine.sound(),
        copying_allowed(StepView::Continue(machine), folders, replies),
        machine.keeps(before, folders[0]),
    ensures
        ({
            let step = StepView::Continue(machine);
            let requests = copying_requests(step, replies);
            &&& forall|i: int|
                0 <= i < requests.len() ==> spares(#[trigger] requests[i], before)
            &&& before.subset_of(folders.last())
            &&& copying_after(step, replies) matches StepView::Finish(Ok(images)) ==> new_names(
                images,
                before,
            ) && folders.last() == filled(before, images)
        }),
    decreases replies.len(),
{
    if replies.len() > 0 {
        let step = StepView::Continue(machine);
        let next = machine.resume(replies[0]);
        let rest = replies.drop_first();
        let later = folders.drop_first();
        copying_keeps_the_folder(machine, before, folders[0], replies[0], folders[1]);
        copying_stays_sound(machine, replies[0]);
        assert(later[0] == folders[1]);
        assert(later.last() == folders.last());
        let requests = copying_requests(step, replies);
        assert(copying_after(step, replies) == copying_after(next, rest));
        assert(requests == seq![machine.request()] + copying_requests(next, rest));
        match next {
            StepView::Continue(after) => {
                lemma_copying_run(after, before, later, rest);
            },
            StepView::Finish(result) => {
                assert(copying_allowed(next, later, rest));
                assert(copying_after(next, rest) == next);
                assert(copying_requests(next, rest) =~= Seq::empty());
            },
        }
        assert forall|i: int| 0 <= i < requests.len() implies spares(
            #[trigger] requests[i],
            before,
        ) by {
            if i > 0 {
                assert(requests[i] == copying_requests(next, rest)[i - 1]);
            }
        }
    }
}

/// Copying never touches what was in the folder before: whatever it copies or deletes has a name
/// that was free at the start, and everything that was there is there at the end. Where it succeeds,
/// the images have different names, and they are all that was added.
pub proof fn copying_spares_the_folder(
    platform: Platform,
    sources: Seq<Seq<char>>,
    folders: Seq<Folder>,
    replies: Seq<ReplyView>,
)
    requires
        copying_allowed(CopyView::start(platform, sources), folders, replies),
    ensures
        ({
            let start = CopyView::start(platform, sources);
            let before = folders[0];
            let requests = copying_requests(start, replies);
            &&& forall|i: int|
                0 <= i < requests.len() ==> spares(#[trigger] requests[i], before)
            &&& before.subset_of(folders.last())
            &&& copying_after(start, replies) matches StepView::Finish(Ok(images)) ==> new_names(
                images,
                before,
            ) && folders.last() == filled(before, images)
        }),
{
    if let StepView::Continue(machine) = CopyView::start(platform, sources) {
        let before = folders[0];
        assert(paths(machine.copied) =~= Seq::empty());
        assert(filled(before, machine.copied) =~= before);
        lemma_copying_run(machine, before, folders, replies);
    } else {
        assert(copying_requests(CopyView::start(platform, sources), replies) =~= Seq::empty());
    }
}

// ---------------------------------------------------------------------------------------------
// What is copied
// ---------------------------------------------------------------------------------------------
/// What paths lead to.
pub type Paths = Map<Seq<char>, SourceView>;

/// What a path leads to, if anything.
pub open spec fn led_to(files: Paths, path: Seq<char>) -> Option<SourceView> {
    if files.contains_key(path) {
        Some(files[path])
    } else {
        None
    }
}

/// The images among the files that the paths lead to, in the order of the paths. A file that an
/// earlier path led to, or that is among those seen already, is left out.
pub open spec fn chosen(
    platform: Platform,
    sources: Seq<Seq<char>>,
    files: Paths,
    seen: Set<Seq<u8>>,
) -> Seq<SourceView>
    decreases sources.len(),
{
    if sources.len() == 0 {
        Seq::empty()
    } else {
        let rest = sources.drop_first();
        match led_to(files, sources[0]) {
            Some(source) => {
                let later = chosen(platform, rest, files, seen.insert(source.canonical));
                if !seen.contains(source.canonical) && source_extension(
                    platform,
                    source,
                ) is Some {
                    seq![source] + later
                } else {
                    later
                }
            },
            None => chosen(platform, rest, files, seen),
        }
    }
}

/// The image is a copy of the file: it has one of the names that the file may be stored under, and
/// its extension.
pub open spec fn is_copy(platform: Platform, image: ImageView, source: SourceView) -> bool {
    &&& source_extension(platform, source) == Some(image.extension)
    &&& exists|number: nat|
        image.relative_path == #[trigger] candidate(platform, source.file_name->0, number)
}

/// There is one image for each of the files, in their order.
pub open spec fn are_copies(
    platform: Platform,
    images: Seq<ImageView>,
    sources: Seq<SourceView>,
) -> bool {
    &&& images.len() == sources.len()
    &&& forall|i: int| 0 <= i < images.len() ==> is_copy(platform, #[trigger] images[i], sources[i])
}

/// Every path that is followed leads where `files` says.
pub open spec fn copying_follows(
    step: StepView<CopyView, Seq<ImageView>>,
    files: Paths,
    replies: Seq<ReplyView>,
) -> bool
    decreases replies.len(),
{
    match step {
        StepView::Continue(machine) => replies.len() > 0 ==> {
            &&& match (machine.request(), replies[0]) {
                (RequestView::Resolve { path }, ReplyView::Resolved(source)) => source == led_to(
                    files,
                    path,
                ),
                _ => true,
            }
            &&& copying_follows(machine.resume(replies[0]), files, replies.drop_first())
        },
        StepView::Finish(_) => true,
    }
}

/// The files that were copied, each with the name of its copy, in the order of copying.
pub open spec fn copies_made(
    step: StepView<CopyView, Seq<ImageView>>,
    replies: Seq<ReplyView>,
) -> Seq<(Seq<u8>, Seq<char>)>
    decreases replies.len(),
{
    match step {
        StepView::Continue(machine) => if replies.len() == 0 {
            Seq::empty()
        } else {
            let later = copies_made(machine.resume(replies[0]), replies.drop_first());
            match (machine.request(), replies[0]) {
                (RequestView::Copy { source, name }, ReplyView::Done(Ok(_))) => seq![
                    (source, name),
                ] + later,
                _ => later,
            }
        },
        StepView::Finish(_) => Seq::empty(),
    }
}

/// The files, each with the name of the image that is its copy, from a position on.
pub open spec fn copies_from(sources: Seq<SourceView>, images: Seq<ImageView>, from: int) -> Seq<
    (Seq<u8>, Seq<char>),
> {
    Seq::new(
        (images.len() - from) as nat,
        |i: int| (sources[from + i].canonical, images[from + i].relative_path),
    )
}

impl CopyView {
    /// What has been copied, and what is still to be copied, of the given files.
    pub open spec fn progresses(self, files: Paths, all: Seq<SourceView>) -> bool {
        let count = self.copied.len() as int;
        let rest = chosen(self.platform, self.pending.drop_first(), files, self.seen);
        &&& count <= all.len()
        &&& are_copies(self.platform, self.copied, all.take(count))
        &&& match self.stage {
            CopyStageView::Resolving => all.skip(count) == chosen(
                self.platform,
                self.pending,
                files,
                self.seen,
            ),
            CopyStageView::Probing { source, search, extension } => {
                &&& count < all.len()
                &&& all[count].canonical == source
                &&& source_extension(self.platform, all[count]) == Some(extension)
                &&& all[count].file_name == Some(search.filename)
                &&& search.platform == self.platform
                &&& all.skip(count + 1) == rest
            },
            CopyStageView::Copying { source, name, extension } => {
                &&& count < all.len()
                &&& all[count].canonical == source
                &&& is_copy(
                    self.platform,
                    ImageView { relative_path: name, extension },
                    all[count],
                )
                &&& all.skip(count + 1) == rest
            },
            CopyStageView::Removing { names, failure } => true,
        }
    }
}

/// Where the first pending path has been dealt with, the rest of the files is still to be copied.
proof fn lemma_proceeds(machine: CopyView, files: Paths, all: Seq<SourceView>)
    requires
        machine.pending.len() > 0,
        machine.copied.len() <= all.len(),
        are_copies(machine.platform, machine.copied, all.take(machine.copied.len() as int)),
        all.skip(machine.copied.len() as int) == chosen(
            machine.platform,
            machine.pending.drop_first(),
            files,
            machine.seen,
        ),
    ensures
        match machine.proceed() {
            StepView::Continue(next) => next.progresses(files, all),
            StepView::Finish(Ok(images)) => are_copies(machine.platform, images, all),
            StepView::Finish(Err(failure)) => all.len() == 0 && failure == no_images(),
        },
{
    let rest = machine.pending.drop_first();
    if rest.len() == 0 {
        let left = all.skip(machine.copied.len() as int);
        assert(left == Seq::<SourceView>::empty());
        assert(left.len() == all.len() - machine.copied.len());
        assert(all.take(machine.copied.len() as int) =~= all);
    }
}

proof fn lemma_progress(machine: CopyView, files: Paths, all: Seq<SourceView>, reply: ReplyView)
    requires
        machine.sound(),
        machine.progresses(files, all),
        match (machine.request(), reply) {
            (RequestView::Resolve { path }, ReplyView::Resolved(source)) => source == led_to(
                files,
                path,
            ),
            _ => true,
        },
    ensures
        match machine.resume(reply) {
            StepView::Continue(next) => next.progresses(files, all),
            StepView::Finish(Ok(images)) => are_copies(machine.platform, images, all),
            StepView::Finish(Err(failure)) => {
                ||| all.len() == 0 && failure == no_images()
                ||| reply == ReplyView::Done(Err(failure))
                ||| machine.stage matches CopyStageView::Removing { names, failure: first }
                    && first == failure
            },
        },
        match machine.resume(reply) {
            StepView::Continue(next) => next.stage matches CopyStageView::Removing {
                names,
                failure,
            } ==> {
                ||| reply == ReplyView::Done(Err(failure))
                ||| machine.stage matches CopyStageView::Removing { names: others, failure: first }
                    && first == failure
            },
            _ => true,
        },
{
    let platform = machine.platform;
    let count = machine.copied.len() as int;
    let rest = machine.pending.drop_first();
    match (machine.stage, reply) {
        (CopyStageView::Resolving, ReplyView::Resolved(None)) => {
            lemma_proceeds(machine, files, all);
        },
        (CopyStageView::Resolving, ReplyView::Resolved(Some(found))) => {
            let met = CopyView { seen: machine.seen.insert(found.canonical), ..machine };
            let later = chosen(platform, rest, files, met.seen);
            if !machine.seen.contains(found.canonical) && source_extension(platform, found)
                is Some {
                let left = all.skip(count);
                assert(left == seq![found] + later);
                assert(left[0] == found);
                assert(left.drop_first() =~= later);
                assert(all.skip(count + 1) =~= left.drop_first());
            } else {
                lemma_proceeds(met, files, all);
            }
        },
        (CopyStageView::Probing { source, search, extension }, ReplyView::Exists(taken)) => {
            let name = candidate(platform, search.filename, search.number);
            assert(is_copy(platform, ImageView { relative_path: name, extension }, all[count]));
        },
        (CopyStageView::Copying { source, name, extension }, ReplyView::Done(Ok(_))) => {
            let image = ImageView { relative_path: name, extension };
            let images = machine.copied.push(image);
            assert forall|i: int| 0 <= i < images.len() implies is_copy(
                platform,
                #[trigger] images[i],
                all.take(count + 1)[i],
            ) by {
                if i < count {
                    assert(machine.copied[i] == images[i]);
                    assert(all.take(count)[i] == all[i]);
                }
            }
            lemma_proceeds(CopyView { copied: images, ..machine }, files, all);
        },
        _ => {},
    }
}

/// Only a copy that was made adds to the images.
proof fn lemma_copied(machine: CopyView, reply: ReplyView)
    ensures
        ({
            let copied = match (machine.stage, reply) {
                (CopyStageView::Copying { source, name, extension }, ReplyView::Done(Ok(_))) => {
                    machine.copied.push(ImageView { relative_path: name, extension })
                },
                _ => machine.copied,
            };
            match machine.resume(reply) {
                StepView::Continue(next) => next.copied == copied && next.platform
                    == machine.platform,
                StepView::Finish(Ok(images)) => images == copied,
                StepView::Finish(Err(_)) => true,
            }
        }),
{
}

/// A procedure that deletes what it has copied does not succeed.
proof fn lemma_undone_copying_fails(machine: CopyView, replies: Seq<ReplyView>)
    requires
        machine.stage is Removing,
    ensures
        !(copying_after(StepView::Continue(machine), replies) matches StepView::Finish(Ok(_))),
    decreases replies.len(),
{
    if replies.len() > 0 {
        let next = machine.resume(replies[0]);
        let rest = replies.drop_first();
        if let StepView::Continue(after) = next {
            lemma_undone_copying_fails(after, rest);
        } else {
            assert(copying_after(next, rest) == next);
        }
    }
}

proof fn lemma_copies_run(
    machine: CopyView,
    files: Paths,
    all: Seq<SourceView>,
    replies: Seq<ReplyView>,
)
    requires
        machine.sound(),
        machine.progresses(files, all),
        copying_follows(StepView::Continue(machine), files, replies),
    ensures
        match copying_after(StepView::Continue(machine), replies) {
            StepView::Finish(Ok(images)) => {
                &&& are_copies(machine.platform, images, all)
                &&& machine.copied == images.take(machine.copied.len() as int)
                &&& copies_made(StepView::Continue(machine), replies) == copies_from(
                    all,
                    images,
                    machine.copied.len() as int,
                )
            },
            StepView::Finish(Err(failure)) => {
                ||| all.len() == 0 && failure == no_images()
                ||| replies.contains(ReplyView::Done(Err(failure)))
                ||| machine.stage matches CopyStageView::Removing { names, failure: first }
                    && first == failure
            },
            StepView::Continue(_) => true,
        },
    decreases replies.len(),
{
    if replies.len() > 0 {
        let step = StepView::Continue(machine);
        let next = machine.resume(replies[0]);
        let rest = replies.drop_first();
        let count = machine.copied.len() as int;
        lemma_progress(machine, files, all, replies[0]);
        lemma_copied(machine, replies[0]);
        copying_stays_sound(machine, replies[0]);
        assert(copying_after(step, replies) == copying_after(next, rest));
        if let StepView::Continue(after) = next {
            lemma_copies_run(after, files, all, rest);
        } else {
            assert(copying_after(next, rest) == next);
            assert(copies_made(next, rest) =~= Seq::empty());
        }
        if let StepView::Finish(Ok(images)) = copying_after(step, replies) {
            if let StepView::Continue(after) = next {
                if after.stage is Removing {
                    lemma_undone_copying_fails(after, rest);
                }
            }
            let later = copies_made(next, rest);
            match (machine.stage, replies[0]) {
                (CopyStageView::Copying { source, name, extension }, ReplyView::Done(Ok(_))) => {
                    let image = ImageView { relative_path: name, extension };
                    let so_far = machine.copied.push(image);
                    assert(so_far =~= images.take(count + 1));
                    assert(so_far[count] == images[count]);
                    assert(machine.copied =~= images.take(count));
                    assert(later =~= copies_from(all, images, count + 1));
                    assert(copies_made(step, replies) =~= copies_from(all, images, count));
                },
                _ => {
                    assert(copies_made(step, replies) == later);
                    if next is Finish {
                        assert(images == machine.copied);
                        assert(images.take(count) =~= images);
                        assert(copies_from(all, images, count) =~= Seq::empty());
                    }
                },
            }
        }
        assert(replies.contains(replies[0]));
        if let StepView::Finish(Err(failure)) = copying_after(step, replies) {
            let reply = ReplyView::Done(Err(failure));
            if rest.contains(reply) {
                let k = choose|k: int| 0 <= k < rest.len() && rest[k] == reply;
                assert(replies[k + 1] == reply);
            }
        }
    }
}

/// Where copying succeeds, there is one copy for each different image that the selection leads to,
/// in the order of the selection, and each was made of that image. It fails only where there is no
/// image, or where a file could not be copied.
pub proof fn every_image_is_copied_once(
    platform: Platform,
    sources: Seq<Seq<char>>,
    files: Paths,
    replies: Seq<ReplyView>,
)
    requires
        copying_follows(CopyView::start(platform, sources), files, replies),
    ensures
        ({
            let images = chosen(platform, sources, files, Set::empty());
            match copying_after(CopyView::start(platform, sources), replies) {
                StepView::Finish(Ok(copied)) => {
                    &&& are_copies(platform, copied, images)
                    &&& copies_made(CopyView::start(platform, sources), replies) == copies_from(
                        images,
                        copied,
                        0,
                    )
                },
                StepView::Finish(Err(failure)) => {
                    ||| images.len() == 0 && failure == no_images()
                    ||| replies.contains(ReplyView::Done(Err(failure)))
                },
                StepView::Continue(_) => true,
            }
        }),
{
    let all = chosen(platform, sources, files, Set::empty());
    if let StepView::Continue(machine) = CopyView::start(platform, sources) {
        assert(all.skip(0) =~= all);
        lemma_copies_run(machine, files, all, replies);
    }
}

/// The chosen files are images, each of them once; and of the files that the paths lead to, no image
/// is left out.
pub proof fn chosen_files_are_the_different_images(
    platform: Platform,
    sources: Seq<Seq<char>>,
    files: Paths,
)
    requires
        forall|p: Seq<char>, q: Seq<char>| #[trigger]
            files.contains_key(p) && #[trigger] files.contains_key(q) && files[p].canonical
                == files[q].canonical ==> files[p] == files[q],
    ensures
        ({
            let images = chosen(platform, sources, files, Set::empty());
            &&& forall|i: int, j: int|
                0 <= i < j < images.len() ==> (#[trigger] images[i]).canonical != (
                #[trigger] images[j]).canonical
            &&& forall|i: int|
                0 <= i < images.len() ==> source_extension(platform, #[trigger] images[i]) is Some
            &&& forall|k: int|
                0 <= k < sources.len() && files.contains_key(#[trigger] sources[k])
                    && source_extension(platform, files[sources[k]]) is Some ==> images.contains(
                    files[sources[k]],
                )
        }),
{
    lemma_chosen(platform, sources, files, Set::empty());
}

proof fn lemma_chosen(
    platform: Platform,
    sources: Seq<Seq<char>>,
    files: Paths,
    seen: Set<Seq<u8>>,
)
    requires
        forall|p: Seq<char>, q: Seq<char>| #[trigger]
            files.contains_key(p) && #[trigger] files.contains_key(q) && files[p].canonical
                == files[q].canonical ==> files[p] == files[q],
    ensures
        ({
            let images = chosen(platform, sources, files, seen);
            &&& forall|i: int, j: int|
                0 <= i < j < images.len() ==> (#[trigger] images[i]).canonical != (
                #[trigger] images[j]).canonical
            &&& forall|i: int|
                0 <= i < images.len() ==> source_extension(platform, #[trigger] images[i]) is Some
                    && !seen.contains(images[i].canonical)
            &&& forall|k: int|
                0 <= k < sources.len() && files.contains_key(#[trigger] sources[k])
                    && source_extension(platform, files[sources[k]]) is Some && !seen.contains(
                    files[sources[k]].canonical,
                ) ==> images.contains(files[sources[k]])
        }),
    decreases sources.len(),
{
    if sources.len() > 0 {
        let images = chosen(platform, sources, files, seen);
        let rest = sources.drop_first();
        match led_to(files, sources[0]) {
            Some(source) => {
                let met = seen.insert(source.canonical);
                let later = chosen(platform, rest, files, met);
                lemma_chosen(platform, rest, files, met);
                let first = !seen.contains(source.canonical) && source_extension(
                    platform,
                    source,
                ) is Some;
                if first {
                    assert(images[0] == source);
                    assert forall|i: int| 0 < i < images.len() implies images[i] == later[i - 1] by {}
                }
                assert forall|k: int|
                    0 <= k < sources.len() && files.contains_key(#[trigger] sources[k])
                        && source_extension(platform, files[sources[k]]) is Some && !seen.contains(
                        files[sources[k]].canonical,
                    ) implies images.contains(files[sources[k]]) by {
                    let file = files[sources[k]];
                    if k == 0 || file.canonical == source.canonical {
                        assert(files.contains_key(sources[0]));
                        assert(file == source);
                        assert(images[0] == file);
                    } else {
                        assert(rest[k - 1] == sources[k]);
                        assert(later.contains(file));
                        let m = choose|m: int| 0 <= m < later.len() && later[m] == file;
                        if first {
                            assert(images[m + 1] == file);
                        }
                    }
                }
            },
            None => {
                lemma_chosen(platform, rest, files, seen);
                assert forall|k: int|
                    0 <= k < sources.len() && files.contains_key(#[trigger] sources[k])
                        && source_extension(platform, files[sources[k]]) is Some && !seen.contains(
                        files[sources[k]].canonical,
                    ) implies images.contains(files[sources[k]]) by {
                    assert(rest[k - 1] == sources[k]);
                }
            },
        }
    }
}

// ---------------------------------------------------------------------------------------------
// What copying is for
// ---------------------------------------------------------------------------------------------
/// A regular file that the selection has not led to before is copied exactly where what follows the
/// last period of its name, in small letters, is one of the twelve endings of images; nothing else in
/// its name matters. It is copied under its own name where that is free, and that is the image which
/// the result then holds.
pub proof fn every_image_file_is_copied(
    machine: CopyView,
    source: SourceView,
    front: Seq<char>,
    ending: Seq<char>,
)
    requires
        machine.stage is Resolving,
        machine.pending.len() > 0,
        source.is_file,
        source.file_name == Some(front + seq!['.'] + ending),
        !machine.seen.contains(source.canonical),
        front.len() > 0,
        !ending.contains('.'),
        !front.contains('/') && !ending.contains('/'),
        machine.platform == Platform::Windows ==> !front.contains('\\') && !front.contains(':')
            && !ending.contains('\\') && !ending.contains(':'),
    ensures
        ({
            let name = front + seq!['.'] + ending;
            let listed = seq![
                "avif"@,
                "bmp"@,
                "gif"@,
                "heic"@,
                "heif"@,
                "jpeg"@,
                "jpg"@,
                "png"@,
                "svg"@,
                "tif"@,
                "tiff"@,
                "webp"@,
            ];
            let found = machine.resume(ReplyView::Resolved(Some(source)));
            if listed.contains(lowered(ending)) {
                &&& found matches StepView::Continue(probing)
                &&& probing.request() == (RequestView::ProbeDestination { name })
                &&& probing.resume(ReplyView::Exists(false)) matches StepView::Continue(copying)
                &&& copying.request() == (RequestView::Copy { source: source.canonical, name })
                &&& match copying.resume(ReplyView::Done(Ok(()))) {
                    StepView::Continue(next) => next.copied == machine.copied.push(
                        ImageView { relative_path: name, extension: lowered(ending) },
                    ),
                    StepView::Finish(Ok(images)) => images == machine.copied.push(
                        ImageView { relative_path: name, extension: lowered(ending) },
                    ),
                    StepView::Finish(Err(_)) => false,
                }
            } else {
                match found {
                    StepView::Continue(next) => next.stage is Resolving && next.copied
                        == machine.copied,
                    StepView::Finish(Ok(images)) => images == machine.copied,
                    StepView::Finish(Err(_)) => machine.copied.len() == 0,
                }
            }
        }),
{
    let name = front + seq!['.'] + ending;
    images_are_known_by_their_ending(front, ending);
    if name != seq!['.', '.'] {
        assert(name.len() >= 2);
        assert forall|i: int| 0 <= i < name.len() implies #[trigger] name[i] != '/' && (
        machine.platform == Platform::Windows ==> name[i] != '\\' && name[i] != ':') by {
            if i < front.len() {
                assert(front.contains(front[i]));
            } else if i > front.len() {
                assert(name[i] == ending[i - front.len() - 1]);
                assert(ending.contains(ending[i - front.len() - 1]));
            }
        }
        texts_without_separators_are_plain(machine.platform, name);
    } else {
        reveal_strlit("..");
        assert(".."@ =~= name);
    }
}

/// What is no regular file, what has no name that is text, and what the selection has led to before
/// is passed over, and so is a path that leads nowhere. In every case the next path is followed, and
/// what was found counts as met.
pub proof fn other_files_are_passed_over(machine: CopyView, source: Option<SourceView>)
    requires
        machine.stage is Resolving,
        machine.pending.len() > 0,
        source matches Some(file) ==> !file.is_file || file.file_name is None
            || machine.seen.contains(file.canonical),
    ensures
        machine.request() == (RequestView::Resolve { path: machine.pending[0] }),
        match machine.resume(ReplyView::Resolved(source)) {
            StepView::Continue(next) => {
                &&& machine.pending.len() > 1
                &&& next.request() == (RequestView::Resolve { path: machine.pending[1] })
                &&& next.copied == machine.copied
                &&& source matches Some(file) ==> next.seen.contains(file.canonical)
            },
            StepView::Finish(Ok(images)) => machine.pending.len() == 1 && images == machine.copied
                && images.len() > 0,
            StepView::Finish(Err(failure)) => machine.pending.len() == 1 && machine.copied.len()
                == 0 && failure == Failure::Message(
                "The selected items do not contain any supported image files."@,
            ),
        },
{
}

/// With one more path at the end of a selection, there is one more image at most: the file that the
/// path leads to, where it is an image and no earlier path led to it. The others are the same, in the
/// same order.
pub proof fn one_more_path_adds_one_image_at_most(
    platform: Platform,
    sources: Seq<Seq<char>>,
    path: Seq<char>,
    files: Paths,
)
    ensures
        chosen(platform, Seq::empty(), files, Set::empty()).len() == 0,
        ({
            let before = chosen(platform, sources, files, Set::empty());
            let after = chosen(platform, sources.push(path), files, Set::empty());
            let repeated = exists|k: int|
                0 <= k < sources.len() && files.contains_key(#[trigger] sources[k])
                    && files[sources[k]].canonical == files[path].canonical;
            if files.contains_key(path) && !repeated && source_extension(platform, files[path])
                is Some {
                after == before.push(files[path])
            } else {
                after == before
            }
        }),
{
    lemma_one_more_path(platform, sources, path, files, Set::empty());
}

proof fn lemma_one_more_path(
    platform: Platform,
    sources: Seq<Seq<char>>,
    path: Seq<char>,
    files: Paths,
    seen: Set<Seq<u8>>,
)
    ensures
        ({
            let before = chosen(platform, sources, files, seen);
            let after = chosen(platform, sources.push(path), files, seen);
            let repeated = seen.contains(files[path].canonical) || exists|k: int|
                0 <= k < sources.len() && files.contains_key(#[trigger] sources[k])
                    && files[sources[k]].canonical == files[path].canonical;
            if files.contains_key(path) && !repeated && source_extension(platform, files[path])
                is Some {
                after == before.push(files[path])
            } else {
                after == before
            }
        }),
    decreases sources.len(),
{
    let longer = sources.push(path);
    if sources.len() == 0 {
        assert(longer.drop_first() =~= sources);
        let met = match led_to(files, path) {
            Some(source) => seen.insert(source.canonical),
            None => seen,
        };
        assert(chosen(platform, longer.drop_first(), files, met) =~= Seq::empty());
        assert(chosen(platform, sources, files, seen) =~= Seq::empty());
        assert(chosen(platform, longer, files, seen) =~= if files.contains_key(path)
            && !seen.contains(files[path].canonical) && source_extension(platform, files[path])
            is Some {
            seq![files[path]]
        } else {
            Seq::empty()
        });
    } else {
        let rest = sources.drop_first();
        assert(longer.drop_first() =~= rest.push(path));
        assert(longer[0] == sources[0]);
        let met = match led_to(files, sources[0]) {
            Some(source) => seen.insert(source.canonical),
            None => seen,
        };
        lemma_one_more_path(platform, rest, path, files, met);
        let inner = met.contains(files[path].canonical) || exists|k: int|
            0 <= k < rest.len() && files.contains_key(#[trigger] rest[k])
                && files[rest[k]].canonical == files[path].canonical;
        let outer = seen.contains(files[path].canonical) || exists|k: int|
            0 <= k < sources.len() && files.contains_key(#[trigger] sources[k])
                && files[sources[k]].canonical == files[path].canonical;
        assert(inner == outer) by {
            if exists|k: int|
                0 <= k < rest.len() && files.contains_key(#[trigger] rest[k])
                    && files[rest[k]].canonical == files[path].canonical {
                let k = choose|k: int|
                    0 <= k < rest.len() && files.contains_key(#[trigger] rest[k])
                        && files[rest[k]].canonical == files[path].canonical;
                assert(sources[k + 1] == rest[k]);
            }
            if exists|k: int|
                0 <= k < sources.len() && files.contains_key(#[trigger] sources[k])
                    && files[sources[k]].canonical == files[path].canonical {
                let k = choose|k: int|
                    0 <= k < sources.len() && files.contains_key(#[trigger] sources[k])
                        && files[sources[k]].canonical == files[path].canonical;
                if k > 0 {
                    assert(rest[k - 1] == sources[k]);
                }
            }
        }
        let before = chosen(platform, rest, files, met);
        let after = chosen(platform, rest.push(path), files, met);
        if let Some(source) = led_to(files, sources[0]) {
            if !seen.contains(source.canonical) && source_extension(platform, source) is Some {
                assert((seq![source] + before).push(files[path]) =~= seq![source] + before.push(
                    files[path],
                ));
            }
        }
    }
}

/// Where the names of an image are taken, a hyphen and a number are put before its last period: it is
/// copied under the first of these names that is free.
pub proof fn taken_names_are_numbered(
    machine: CopyView,
    source: SourceView,
    front: Seq<char>,
    ending: Seq<char>,
    taken: nat,
)
    requires
        machine.stage is Resolving,
        machine.pending.len() > 0,
        source.is_file,
        source.file_name == Some(front + seq!['.'] + ending),
        !machine.seen.contains(source.canonical),
        front.len() > 0,
        !ending.contains('.'),
        !front.contains('/') && !ending.contains('/'),
        machine.platform == Platform::Windows ==> !front.contains('\\') && !front.contains(':')
            && !ending.contains('\\') && !ending.contains(':'),
        seq![
            "avif"@,
            "bmp"@,
            "gif"@,
            "heic"@,
            "heif"@,
            "jpeg"@,
            "jpg"@,
            "png"@,
            "svg"@,
            "tif"@,
            "tiff"@,
            "webp"@,
        ].contains(lowered(ending)),
        taken > 0,
    ensures
        ({
            let found = machine.resume(ReplyView::Resolved(Some(source)));
            &&& copying_after(found, search_replies(taken)) matches StepView::Continue(copying)
            &&& copying.request() == (RequestView::Copy {
                source: source.canonical,
                name: front + seq!['-'] + decimal(taken) + seq!['.'] + ending,
            })
            &&& copying.copied == machine.copied
            &&& copying.pending == machine.pending
        }),
{
    every_image_file_is_copied(machine, source, front, ending);
    let found = machine.resume(ReplyView::Resolved(Some(source)));
    let probing = found->Continue_0;
    let filename = front + seq!['.'] + ending;
    if filename == seq!['.', '.'] {
        reveal_strlit("..");
        assert(".."@ =~= filename);
        assert(!plain(machine.platform, filename));
    }
    candidates_are_numbered_before_the_ending(machine.platform, front, ending, taken);
    images_get_the_first_free_name(
        probing,
        source.canonical,
        filename,
        probing.stage->Probing_extension,
        taken,
    );
}

/// A file whose name has no period after its first character is no image, and is passed over.
pub proof fn files_without_ending_are_passed_over(
    machine: CopyView,
    source: SourceView,
    name: Seq<char>,
)
    requires
        machine.stage is Resolving,
        machine.pending.len() > 0,
        source.file_name == Some(name),
        forall|i: int| 0 < i < name.len() ==> #[trigger] name[i] != '.',
    ensures
        match machine.resume(ReplyView::Resolved(Some(source))) {
            StepView::Continue(next) => next.stage is Resolving && next.copied == machine.copied,
            StepView::Finish(Ok(images)) => images == machine.copied,
            StepView::Finish(Err(_)) => machine.copied.len() == 0,
        },
{
    if last_index(name, '.') > 0 {
        lemma_last_index(name, '.');
    }
}

/// When a file cannot be copied, every image copied before it is deleted, by its name and in their
/// order, whatever comes of that, and then the failure is reported as it was.
pub proof fn failed_copying_removes_every_image(
    machine: CopyView,
    failure: Failure,
    replies: Seq<ReplyView>,
)
    requires
        machine.stage is Copying,
        replies.len() == machine.copied.len(),
        forall|i: int| 0 <= i < replies.len() ==> (#[trigger] replies[i]) is Done,
    ensures
        ({
            let failed = machine.resume(ReplyView::Done(Err(failure)));
            let requests = copying_requests(failed, replies);
            &&& requests.len() == machine.copied.len()
            &&& forall|i: int|
                0 <= i < machine.copied.len() ==> requests[i] == (RequestView::Remove {
                    name: (#[trigger] machine.copied[i]).relative_path,
                })
            &&& copying_after(failed, replies) == StepView::<CopyView, Seq<ImageView>>::Finish(
                Err(failure),
            )
        }),
{
    failed_copying_is_undone(machine, failure, replies);
}

/// Names run out only behind the last number that a name can be given.
pub proof fn names_run_out_at_the_last_number(machine: CopyView, reply: ReplyView)
    ensures
        machine.exhausted(reply) <==> {
            &&& machine.stage matches CopyStageView::Probing { source, search, extension }
            &&& search.number >= 2_147_483_646
            &&& reply == ReplyView::Exists(true)
        },
{
}

} // verus!

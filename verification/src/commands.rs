//! The commands of the user interface: saving the settings, and choosing what an upload goes to.
use vstd::prelude::*;

use crate::models::{AppError, Credentials, CredentialsView, Failure, ProfileView, RepositoryInfo};
use crate::models::{RepositoryProfile, RepositoryView, SettingsView, normalizing_is_idempotent};
use crate::models::{Provider, saved_profiles_are_selected, stored};
use crate::procedure::{Step, StepView};
use crate::providers::{EnsureRepository, EnsureView, ProviderReply, ProviderReplyView};
use crate::providers::{ProviderRequest, ProviderRequestView, ensure_repository};
use crate::providers::ensuring_stays_sound;
use crate::settings::{ProfileSave, SaveView, SettingsFileView, StoreReply, StoreReplyView};
use crate::settings::{StoreRequest, StoreRequestView, ask_settings, ask_token, credential_entry};
use crate::settings::{load_settings, load_token, read_settings, read_token, save_profile, save_token};
use crate::settings::{settings_loaded, token_entry, token_loaded, token_saved};
use crate::settings::{EntryView, TokenLookupView, TokenSaveView, Tokens, saved_tokens_are_read_back};
use crate::settings::{token_lookup, tokens_after};
use crate::text::{is_white_space, trim, trimmed, trimming_removes_white_space_alone};

verus! {

// ---------------------------------------------------------------------------------------------
// Requests and replies
// ---------------------------------------------------------------------------------------------
/// A repository that was found for a profile, and is remembered while the application runs.
#[derive(Debug)]
pub struct CachedRepository {
    pub profile: RepositoryProfile,
    pub repository: RepositoryInfo,
}

/// The model of a [`CachedRepository`].
#[verifier::ext_equal]
pub struct CachedView {
    pub profile: ProfileView,
    pub repository: RepositoryView,
}

impl View for CachedRepository {
    type V = CachedView;

    open spec fn view(&self) -> CachedView {
        CachedView { profile: self.profile@, repository: self.repository@ }
    }
}

impl Clone for CachedRepository {
    fn clone(&self) -> (r: CachedRepository)
        ensures
            r@ == self@,
    {
        CachedRepository { profile: self.profile.clone(), repository: self.repository.clone() }
    }
}

/// A request of a command.
#[derive(Debug)]
pub enum CommandRequest {
    Store(StoreRequest),
    /// Send the request, and show the provider this token.
    Provider { request: ProviderRequest, token: String },
    /// Say which repository is remembered.
    Recall,
    /// Remember this repository, and no other.
    Remember(CachedRepository),
}

/// The model of a [`CommandRequest`].
#[verifier::ext_equal]
pub enum CommandRequestView {
    Store(StoreRequestView),
    Provider { request: ProviderRequestView, token: Seq<char> },
    Recall,
    Remember(CachedView),
}

impl View for CommandRequest {
    type V = CommandRequestView;

    open spec fn view(&self) -> CommandRequestView {
        match self {
            CommandRequest::Store(request) => CommandRequestView::Store(request@),
            CommandRequest::Provider { request, token } => CommandRequestView::Provider {
                request: request@,
                token: token@,
            },
            CommandRequest::Recall => CommandRequestView::Recall,
            CommandRequest::Remember(cached) => CommandRequestView::Remember(cached@),
        }
    }
}

/// A reply to a [`CommandRequest`]. One that is not of the kind that the pending request asks for
/// has no effect.
#[derive(Debug)]
pub enum CommandReply {
    Store(StoreReply),
    Provider(ProviderReply),
    /// To `Recall`: the repository that is remembered, if there is one.
    Recalled(Option<CachedRepository>),
    /// To `Remember`.
    Remembered,
}

/// The model of a [`CommandReply`].
#[verifier::ext_equal]
pub enum CommandReplyView {
    Store(StoreReplyView),
    Provider(ProviderReplyView),
    Recalled(Option<CachedView>),
    Remembered,
}

impl View for CommandReply {
    type V = CommandReplyView;

    open spec fn view(&self) -> CommandReplyView {
        match self {
            CommandReply::Store(reply) => CommandReplyView::Store(reply@),
            CommandReply::Provider(reply) => CommandReplyView::Provider(reply@),
            CommandReply::Recalled(cached) => CommandReplyView::Recalled(
                match cached {
                    Some(found) => Some(found@),
                    None => None,
                },
            ),
            CommandReply::Remembered => CommandReplyView::Remembered,
        }
    }
}

// ---------------------------------------------------------------------------------------------
// Saving the settings, as a model
// ---------------------------------------------------------------------------------------------
/// What the command is doing.
#[verifier::ext_equal]
pub enum SettingsSaveView {
    /// No token was entered, and it looks for the one that was saved.
    ReadToken { profile: ProfileView },
    /// It looks for the repository with a token, which was entered or not.
    Ensure { search: EnsureView, token: Seq<char>, entered: bool },
    /// It saves the token that was entered.
    SaveToken { profile: ProfileView, token: Seq<char>, repository: RepositoryView },
    /// It saves the profile.
    SaveProfile { profile: ProfileView, repository: RepositoryView, save: SaveView },
    /// It has the repository remembered.
    Remember { profile: ProfileView, repository: RepositoryView },
}

/// Where the command stands after a reply.
pub type SettingsSaveStep = StepView<SettingsSaveView, RepositoryView>;

/// The token that was entered, without the white space around it. White space alone is no token.
pub open spec fn entered_token(token: Option<Seq<char>>) -> Option<Seq<char>> {
    match token {
        Some(text) => if trimmed(text).len() > 0 {
            Some(trimmed(text))
        } else {
            None
        },
        None => None,
    }
}

impl SettingsSaveView {
    /// The command at its start. A profile that cannot be used is refused at once.
    pub open spec fn start(profile: ProfileView, token: Option<Seq<char>>) -> SettingsSaveStep {
        let normal = profile.normal();
        match normal.validity() {
            Ok(_) => match entered_token(token) {
                Some(text) => StepView::Continue(
                    SettingsSaveView::Ensure {
                        search: EnsureView::start(normal),
                        token: text,
                        entered: true,
                    },
                ),
                None => StepView::Continue(SettingsSaveView::ReadToken { profile: normal }),
            },
            Err(failure) => StepView::Finish(Err(failure)),
        }
    }

    /// The profile that is saved.
    pub open spec fn profile(self) -> ProfileView {
        match self {
            SettingsSaveView::ReadToken { profile } => profile,
            SettingsSaveView::Ensure { search, token, entered } => search.profile,
            SettingsSaveView::SaveToken { profile, token, repository } => profile,
            SettingsSaveView::SaveProfile { profile, repository, save } => profile,
            SettingsSaveView::Remember { profile, repository } => profile,
        }
    }

    /// The pending request.
    pub open spec fn request(self) -> CommandRequestView {
        match self {
            SettingsSaveView::ReadToken { profile } => CommandRequestView::Store(
                read_token(profile.provider),
            ),
            SettingsSaveView::Ensure { search, token, entered } => CommandRequestView::Provider {
                request: search.request(),
                token,
            },
            SettingsSaveView::SaveToken { profile, token, repository } => {
                CommandRequestView::Store(
                    StoreRequestView::SaveToken { entry: token_entry(profile.provider), token },
                )
            },
            SettingsSaveView::SaveProfile { profile, repository, save } => {
                CommandRequestView::Store(save.request())
            },
            SettingsSaveView::Remember { profile, repository } => CommandRequestView::Remember(
                CachedView { profile, repository },
            ),
        }
    }

    /// The command once it saves the profile.
    pub open spec fn saving(profile: ProfileView, repository: RepositoryView) -> SettingsSaveStep {
        StepView::Continue(
            SettingsSaveView::SaveProfile {
                profile,
                repository,
                save: SaveView::Reading { profile },
            },
        )
    }

    /// The command after a reply.
    pub open spec fn resume(self, reply: CommandReplyView) -> SettingsSaveStep {
        match (self, reply) {
            (
                SettingsSaveView::ReadToken { profile },
                CommandReplyView::Store(StoreReplyView::Token(lookup)),
            ) => match token_loaded(profile.provider, lookup) {
                Ok(Some(token)) => StepView::Continue(
                    SettingsSaveView::Ensure {
                        search: EnsureView::start(profile),
                        token,
                        entered: false,
                    },
                ),
                Ok(None) => StepView::Finish(
                    Err(
                        Failure::Message(
                            "Enter a personal access token. Account passwords cannot be used for Git uploads."@,
                        ),
                    ),
                ),
                Err(failure) => StepView::Finish(Err(failure)),
            },
            (
                SettingsSaveView::Ensure { search, token, entered },
                CommandReplyView::Provider(reply),
            ) => match search.resume(reply) {
                StepView::Continue(search) => StepView::Continue(
                    SettingsSaveView::Ensure { search, token, entered },
                ),
                StepView::Finish(Ok(repository)) => if entered {
                    StepView::Continue(
                        SettingsSaveView::SaveToken {
                            profile: search.profile,
                            token,
                            repository,
                        },
                    )
                } else {
                    SettingsSaveView::saving(search.profile, repository)
                },
                StepView::Finish(Err(failure)) => StepView::Finish(Err(failure)),
            },
            (
                SettingsSaveView::SaveToken { profile, token, repository },
                CommandReplyView::Store(StoreReplyView::TokenSaved(save)),
            ) => match token_saved(profile.provider, save) {
                Ok(_) => SettingsSaveView::saving(profile, repository),
                Err(failure) => StepView::Finish(Err(failure)),
            },
            (
                SettingsSaveView::SaveProfile { profile, repository, save },
                CommandReplyView::Store(reply),
            ) => match save.resume(reply) {
                StepView::Continue(save) => StepView::Continue(
                    SettingsSaveView::SaveProfile { profile, repository, save },
                ),
                StepView::Finish(Ok(_)) => StepView::Continue(
                    SettingsSaveView::Remember { profile, repository },
                ),
                StepView::Finish(Err(failure)) => StepView::Finish(Err(failure)),
            },
            (
                SettingsSaveView::Remember { profile, repository },
                CommandReplyView::Remembered,
            ) => StepView::Finish(Ok(repository)),
            _ => StepView::Continue(self),
        }
    }
}

// ---------------------------------------------------------------------------------------------
// Saving the settings
// ---------------------------------------------------------------------------------------------
#[derive(Debug)]
enum SettingsStage {
    ReadToken { profile: RepositoryProfile },
    Ensure { search: EnsureRepository, token: String, entered: bool },
    SaveToken { profile: RepositoryProfile, token: String, repository: RepositoryInfo },
    SaveProfile { profile: RepositoryProfile, repository: RepositoryInfo, save: ProfileSave },
    Remember { profile: RepositoryProfile, repository: RepositoryInfo },
}

/// The saving of a profile, and of the token that was entered with it.
#[derive(Debug)]
pub struct SettingsSave {
    stage: SettingsStage,
}

impl View for SettingsSave {
    type V = SettingsSaveView;

    closed spec fn view(&self) -> SettingsSaveView {
        match self.stage {
            SettingsStage::ReadToken { profile } => SettingsSaveView::ReadToken {
                profile: profile@,
            },
            SettingsStage::Ensure { search, token, entered } => SettingsSaveView::Ensure {
                search: search@,
                token: token@,
                entered,
            },
            SettingsStage::SaveToken { profile, token, repository } => {
                SettingsSaveView::SaveToken {
                    profile: profile@,
                    token: token@,
                    repository: repository@,
                }
            },
            SettingsStage::SaveProfile { profile, repository, save } => {
                SettingsSaveView::SaveProfile {
                    profile: profile@,
                    repository: repository@,
                    save: save@,
                }
            },
            SettingsStage::Remember { profile, repository } => SettingsSaveView::Remember {
                profile: profile@,
                repository: repository@,
            },
        }
    }
}

fn token_entered(token: Option<String>) -> (r: Option<String>)
    ensures
        match r {
            Some(text) => Some(text@),
            None => None,
        } == entered_token(
            match token {
                Some(text) => Some(text@),
                None => None,
            },
        ),
{
    match token {
        Some(text) => {
            let inner = trim(text.as_str());
            if inner.is_empty() {
                None
            } else {
                Some(inner.to_owned())
            }
        },
        None => None,
    }
}

/// Starts to save a profile, and the token that was entered with it.
pub fn save_settings(profile: &RepositoryProfile, token: Option<String>) -> (r: Step<
    SettingsSave,
    RepositoryInfo,
>)
    ensures
        r@ == SettingsSaveView::start(
            profile@,
            match token {
                Some(text) => Some(text@),
                None => None,
            },
        ),
{
    let profile = profile.normalized();
    if let Err(error) = profile.validate() {
        return Step::Finish(Err(error));
    }
    match token_entered(token) {
        Some(token) => settings_step(
            SettingsStage::Ensure { search: ensure_repository(&profile), token, entered: true },
        ),
        None => settings_step(SettingsStage::ReadToken { profile }),
    }
}

fn settings_step(stage: SettingsStage) -> (r: Step<SettingsSave, RepositoryInfo>)
    ensures
        r == Step::<SettingsSave, RepositoryInfo>::Continue(SettingsSave { stage }),
{
    Step::Continue(SettingsSave { stage })
}

fn saving_step(profile: RepositoryProfile, repository: RepositoryInfo) -> (r: Step<
    SettingsSave,
    RepositoryInfo,
>)
    ensures
        r@ == SettingsSaveView::saving(profile@, repository@),
{
    let save = save_profile(&profile);
    settings_step(SettingsStage::SaveProfile { profile, repository, save })
}

impl SettingsSave {
    /// The pending request.
    pub fn request(&self) -> (r: CommandRequest)
        ensures
            r@ == self@.request(),
    {
        match &self.stage {
            SettingsStage::ReadToken { profile } => CommandRequest::Store(
                ask_token(profile.provider),
            ),
            SettingsStage::Ensure { search, token, entered } => CommandRequest::Provider {
                request: search.request(),
                token: token.clone(),
            },
            SettingsStage::SaveToken { profile, token, repository } => CommandRequest::Store(
                StoreRequest::SaveToken {
                    entry: credential_entry(profile.provider),
                    token: token.clone(),
                },
            ),
            SettingsStage::SaveProfile { profile, repository, save } => CommandRequest::Store(
                save.request(),
            ),
            SettingsStage::Remember { profile, repository } => CommandRequest::Remember(
                CachedRepository { profile: profile.clone(), repository: repository.clone() },
            ),
        }
    }

    /// Goes on with the reply to the pending request.
    pub fn resume(self, reply: CommandReply) -> (r: Step<SettingsSave, RepositoryInfo>)
        ensures
            r@ == self@.resume(reply@),
    {
        match (self.stage, reply) {
            (
                SettingsStage::ReadToken { profile },
                CommandReply::Store(StoreReply::Token(lookup)),
            ) => match load_token(profile.provider, lookup) {
                Ok(Some(token)) => settings_step(
                    SettingsStage::Ensure {
                        search: ensure_repository(&profile),
                        token,
                        entered: false,
                    },
                ),
                Ok(None) => Step::Finish(
                    Err(
                        AppError::message(
                            "Enter a personal access token. Account passwords cannot be used for Git uploads.",
                        ),
                    ),
                ),
                Err(error) => Step::Finish(Err(error)),
            },
            (
                SettingsStage::Ensure { search, token, entered },
                CommandReply::Provider(reply),
            ) => {
                let profile = search.profile().clone();
                match search.resume(reply) {
                    Step::Continue(search) => settings_step(
                        SettingsStage::Ensure { search, token, entered },
                    ),
                    Step::Finish(Ok(repository)) => if entered {
                        settings_step(SettingsStage::SaveToken { profile, token, repository })
                    } else {
                        saving_step(profile, repository)
                    },
                    Step::Finish(Err(error)) => Step::Finish(Err(error)),
                }
            },
            (
                SettingsStage::SaveToken { profile, token, repository },
                CommandReply::Store(StoreReply::TokenSaved(save)),
            ) => match save_token(profile.provider, save) {
                Ok(_) => saving_step(profile, repository),
                Err(error) => Step::Finish(Err(error)),
            },
            (
                SettingsStage::SaveProfile { profile, repository, save },
                CommandReply::Store(reply),
            ) => match save.resume(reply) {
                Step::Continue(save) => settings_step(
                    SettingsStage::SaveProfile { profile, repository, save },
                ),
                Step::Finish(Ok(_)) => settings_step(
                    SettingsStage::Remember { profile, repository },
                ),
                Step::Finish(Err(error)) => Step::Finish(Err(error)),
            },
            (SettingsStage::Remember { profile, repository }, CommandReply::Remembered) => {
                Step::Finish(Ok(repository))
            },
            (stage, _) => settings_step(stage),
        }
    }
}

// ---------------------------------------------------------------------------------------------
// Choosing what an upload goes to, as a model
// ---------------------------------------------------------------------------------------------
/// The repository that an upload goes to, and the credentials for it.
#[derive(Debug)]
pub struct UploadTarget {
    pub repository: RepositoryInfo,
    pub credentials: Credentials,
}

/// The model of an [`UploadTarget`].
#[verifier::ext_equal]
pub struct TargetView {
    pub repository: RepositoryView,
    pub credentials: CredentialsView,
}

impl View for UploadTarget {
    type V = TargetView;

    open spec fn view(&self) -> TargetView {
        TargetView { repository: self.repository@, credentials: self.credentials@ }
    }
}

/// What the command is doing.
#[verifier::ext_equal]
pub enum ChoiceView {
    /// It reads the settings.
    ReadSettings,
    /// It looks for the token that goes with the selected profile.
    ReadToken { profile: ProfileView },
    /// It asks for the repository that is remembered.
    Recall { profile: ProfileView, token: Seq<char> },
    /// It looks for the repository of the profile.
    Ensure { search: EnsureView, token: Seq<char> },
    /// It has the repository remembered.
    Remember { profile: ProfileView, token: Seq<char>, repository: RepositoryView },
}

/// Where the command stands after a reply.
pub type ChoiceStep = StepView<ChoiceView, TargetView>;

/// What an upload goes to, once the repository is known.
pub open spec fn target(
    profile: ProfileView,
    token: Seq<char>,
    repository: RepositoryView,
) -> TargetView {
    TargetView {
        repository,
        credentials: CredentialsView { username: profile.username, token },
    }
}

impl ChoiceView {
    /// The pending request.
    pub open spec fn request(self) -> CommandRequestView {
        match self {
            ChoiceView::ReadSettings => CommandRequestView::Store(read_settings()),
            ChoiceView::ReadToken { profile } => CommandRequestView::Store(
                read_token(profile.provider),
            ),
            ChoiceView::Recall { profile, token } => CommandRequestView::Recall,
            ChoiceView::Ensure { search, token } => CommandRequestView::Provider {
                request: search.request(),
                token,
            },
            ChoiceView::Remember { profile, token, repository } => CommandRequestView::Remember(
                CachedView { profile, repository },
            ),
        }
    }

    /// The command once the selected profile is known.
    pub open spec fn selected(profile: Option<ProfileView>) -> ChoiceStep {
        match profile {
            Some(profile) => match profile.validity() {
                Ok(_) => StepView::Continue(ChoiceView::ReadToken { profile }),
                Err(failure) => StepView::Finish(Err(failure)),
            },
            None => StepView::Finish(
                Err(
                    Failure::Message(
                        "Set up an account and repository before uploading images."@,
                    ),
                ),
            ),
        }
    }

    /// The command once it is known which repository is remembered. One that was found for another
    /// profile is of no use.
    pub open spec fn recalled(
        profile: ProfileView,
        token: Seq<char>,
        cached: Option<CachedView>,
    ) -> ChoiceStep {
        match cached {
            Some(found) if found.profile == profile => StepView::Finish(
                Ok(target(profile, token, found.repository)),
            ),
            _ => StepView::Continue(
                ChoiceView::Ensure { search: EnsureView::start(profile), token },
            ),
        }
    }

    /// The command after a reply.
    pub open spec fn resume(self, reply: CommandReplyView) -> ChoiceStep {
        match (self, reply) {
            (
                ChoiceView::ReadSettings,
                CommandReplyView::Store(StoreReplyView::Settings(file)),
            ) => match settings_loaded(file) {
                Ok(settings) => ChoiceView::selected(settings.selected()),
                Err(failure) => StepView::Finish(Err(failure)),
            },
            (
                ChoiceView::ReadToken { profile },
                CommandReplyView::Store(StoreReplyView::Token(lookup)),
            ) => match token_loaded(profile.provider, lookup) {
                Ok(Some(token)) => StepView::Continue(ChoiceView::Recall { profile, token }),
                Ok(None) => StepView::Finish(
                    Err(Failure::Message("The saved personal access token is missing."@)),
                ),
                Err(failure) => StepView::Finish(Err(failure)),
            },
            (
                ChoiceView::Recall { profile, token },
                CommandReplyView::Recalled(cached),
            ) => ChoiceView::recalled(profile, token, cached),
            (
                ChoiceView::Ensure { search, token },
                CommandReplyView::Provider(reply),
            ) => match search.resume(reply) {
                StepView::Continue(search) => StepView::Continue(
                    ChoiceView::Ensure { search, token },
                ),
                StepView::Finish(Ok(repository)) => StepView::Continue(
                    ChoiceView::Remember { profile: search.profile, token, repository },
                ),
                StepView::Finish(Err(failure)) => StepView::Finish(Err(failure)),
            },
            (
                ChoiceView::Remember { profile, token, repository },
                CommandReplyView::Remembered,
            ) => StepView::Finish(Ok(target(profile, token, repository))),
            _ => StepView::Continue(self),
        }
    }
}

// ---------------------------------------------------------------------------------------------
// Choosing what an upload goes to
// ---------------------------------------------------------------------------------------------
#[derive(Debug)]
enum ChoiceStage {
    ReadSettings,
    ReadToken { profile: RepositoryProfile },
    Recall { profile: RepositoryProfile, token: String },
    Ensure { search: EnsureRepository, token: String },
    Remember { profile: RepositoryProfile, token: String, repository: RepositoryInfo },
}

/// The choice of what an upload goes to: the repository of the selected profile.
#[derive(Debug)]
pub struct TargetChoice {
    stage: ChoiceStage,
}

impl View for TargetChoice {
    type V = ChoiceView;

    closed spec fn view(&self) -> ChoiceView {
        match self.stage {
            ChoiceStage::ReadSettings => ChoiceView::ReadSettings,
            ChoiceStage::ReadToken { profile } => ChoiceView::ReadToken { profile: profile@ },
            ChoiceStage::Recall { profile, token } => ChoiceView::Recall {
                profile: profile@,
                token: token@,
            },
            ChoiceStage::Ensure { search, token } => ChoiceView::Ensure {
                search: search@,
                token: token@,
            },
            ChoiceStage::Remember { profile, token, repository } => ChoiceView::Remember {
                profile: profile@,
                token: token@,
                repository: repository@,
            },
        }
    }
}

/// Starts to choose what an upload goes to.
pub fn choose_target() -> (r: TargetChoice)
    ensures
        r@ == ChoiceView::ReadSettings,
{
    TargetChoice { stage: ChoiceStage::ReadSettings }
}

fn choice_step(stage: ChoiceStage) -> (r: Step<TargetChoice, UploadTarget>)
    ensures
        r == Step::<TargetChoice, UploadTarget>::Continue(TargetChoice { stage }),
{
    Step::Continue(TargetChoice { stage })
}

fn selected_step(profile: Option<RepositoryProfile>) -> (r: Step<TargetChoice, UploadTarget>)
    ensures
        r@ == ChoiceView::selected(
            match profile {
                Some(found) => Some(found@),
                None => None,
            },
        ),
{
    match profile {
        Some(profile) => match profile.validate() {
            Ok(_) => choice_step(ChoiceStage::ReadToken { profile }),
            Err(error) => Step::Finish(Err(error)),
        },
        None => Step::Finish(
            Err(AppError::message("Set up an account and repository before uploading images.")),
        ),
    }
}

fn chosen(profile: RepositoryProfile, token: String, repository: RepositoryInfo) -> (r:
    UploadTarget)
    ensures
        r@ == target(profile@, token@, repository@),
{
    UploadTarget { repository, credentials: Credentials { username: profile.username, token } }
}

impl TargetChoice {
    /// The pending request.
    pub fn request(&self) -> (r: CommandRequest)
        ensures
            r@ == self@.request(),
    {
        match &self.stage {
            ChoiceStage::ReadSettings => CommandRequest::Store(ask_settings()),
            ChoiceStage::ReadToken { profile } => CommandRequest::Store(
                ask_token(profile.provider),
            ),
            ChoiceStage::Recall { profile, token } => CommandRequest::Recall,
            ChoiceStage::Ensure { search, token } => CommandRequest::Provider {
                request: search.request(),
                token: token.clone(),
            },
            ChoiceStage::Remember { profile, token, repository } => CommandRequest::Remember(
                CachedRepository { profile: profile.clone(), repository: repository.clone() },
            ),
        }
    }

    /// Goes on with the reply to the pending request.
    pub fn resume(self, reply: CommandReply) -> (r: Step<TargetChoice, UploadTarget>)
        ensures
            r@ == self@.resume(reply@),
    {
        match (self.stage, reply) {
            (ChoiceStage::ReadSettings, CommandReply::Store(StoreReply::Settings(file))) => {
                match load_settings(file) {
                    Ok(settings) => match settings.selected() {
                        Some(profile) => selected_step(Some(profile.clone())),
                        None => selected_step(None),
                    },
                    Err(error) => Step::Finish(Err(error)),
                }
            },
            (
                ChoiceStage::ReadToken { profile },
                CommandReply::Store(StoreReply::Token(lookup)),
            ) => match load_token(profile.provider, lookup) {
                Ok(Some(token)) => choice_step(ChoiceStage::Recall { profile, token }),
                Ok(None) => Step::Finish(
                    Err(AppError::message("The saved personal access token is missing.")),
                ),
                Err(error) => Step::Finish(Err(error)),
            },
            (ChoiceStage::Recall { profile, token }, CommandReply::Recalled(cached)) => {
                match cached {
                    Some(found) => {
                        if found.profile == profile {
                            return Step::Finish(Ok(chosen(profile, token, found.repository)));
                        }
                    },
                    None => {},
                }
                choice_step(ChoiceStage::Ensure { search: ensure_repository(&profile), token })
            },
            (ChoiceStage::Ensure { search, token }, CommandReply::Provider(reply)) => {
                let profile = search.profile().clone();
                match search.resume(reply) {
                    Step::Continue(search) => choice_step(ChoiceStage::Ensure { search, token }),
                    Step::Finish(Ok(repository)) => choice_step(
                        ChoiceStage::Remember { profile, token, repository },
                    ),
                    Step::Finish(Err(error)) => Step::Finish(Err(error)),
                }
            },
            (
                ChoiceStage::Remember { profile, token, repository },
                CommandReply::Remembered,
            ) => Step::Finish(Ok(chosen(profile, token, repository))),
            (stage, _) => choice_step(stage),
        }
    }
}

/// The folder of the local repositories, in the folder of the application's data.
pub fn repositories_folder() -> (r: &'static str)
    ensures
        r@ == "repositories"@,
{
    "repositories"
}

/// Where the folder of the application's data could not be located, the error for that.
pub fn repositories_unlocated(reason: &str) -> (r: AppError)
    ensures
        r@ == Failure::Message("Could not locate the application data folder: "@ + reason@),
{
    AppError::Message("Could not locate the application data folder: ".to_owned().concat(reason))
}

// ---------------------------------------------------------------------------------------------
// Laws
// ---------------------------------------------------------------------------------------------
/// The request changes what is kept.
pub open spec fn changes(request: CommandRequestView) -> bool {
    match request {
        CommandRequestView::Store(request) => match request {
            StoreRequestView::SaveToken { entry, token } => true,
            StoreRequestView::CreateFolder => true,
            StoreRequestView::Write { file, settings } => true,
            StoreRequestView::Remove { file } => true,
            StoreRequestView::Rename { from, to } => true,
            _ => false,
        },
        CommandRequestView::Remember(cached) => true,
        _ => false,
    }
}

impl SettingsSaveView {
    /// The command has found the repository.
    pub open spec fn found(self) -> bool {
        self is SaveToken || self is SaveProfile || self is Remember
    }

    /// The profile is tidy and can be used, and the token that is saved was entered.
    pub open spec fn sound(self, token: Option<Seq<char>>) -> bool {
        &&& self.profile() == self.profile().normal()
        &&& self.profile().validity() is Ok
        &&& match self {
            SettingsSaveView::Ensure { search, token: shown, entered } => search.sound() && (entered
                ==> entered_token(token) == Some(shown)),
            SettingsSaveView::SaveToken { profile, token: shown, repository } => entered_token(
                token,
            ) == Some(shown) && repository.provider == profile.provider,
            SettingsSaveView::SaveProfile { profile, repository, save } => repository.provider
                == profile.provider && match save {
                SaveView::Reading { profile: saved } => saved == profile,
                SaveView::Replacing { settings, stage } => settings.selected() == Some(profile)
                    && settings.selected_provider == profile.provider,
            },
            SettingsSaveView::Remember { profile, repository } => repository.provider
                == profile.provider,
            _ => true,
        }
    }
}

/// The command refuses a profile that cannot be used, with the reason, and starts sound with any
/// other.
pub proof fn saving_settings_starts_sound(profile: ProfileView, token: Option<Seq<char>>)
    ensures
        match SettingsSaveView::start(profile, token) {
            StepView::Continue(command) => {
                &&& profile.validity() is Ok
                &&& command.sound(token)
                &&& command.profile() == profile.normal()
            },
            StepView::Finish(result) => profile.validity() is Err && result == Err::<
                RepositoryView,
                Failure,
            >(profile.validity()->Err_0),
        },
{
    normalizing_is_idempotent(profile);
}

/// The command keeps to its profile, and to the token that was entered. It ends well only once the
/// profile has been saved, and what is saved as the selected profile is that profile.
pub proof fn saving_settings_stays_sound(
    command: SettingsSaveView,
    token: Option<Seq<char>>,
    reply: CommandReplyView,
)
    requires
        command.sound(token),
    ensures
        match command.resume(reply) {
            StepView::Continue(next) => next.sound(token) && next.profile() == command.profile(),
            StepView::Finish(Ok(repository)) => command is Remember && repository.provider
                == command.profile().provider,
            StepView::Finish(Err(failure)) => true,
        },
{
    if let SettingsSaveView::Ensure { search, token: shown, entered } = command {
        if let CommandReplyView::Provider(answer) = reply {
            ensuring_stays_sound(search, answer);
        }
    }
    if let SettingsSaveView::SaveProfile { profile, repository, save } = command {
        if let CommandReplyView::Store(StoreReplyView::Settings(file)) = reply {
            if let Ok(settings) = settings_loaded(file) {
                saved_profiles_are_selected(settings, profile, profile.provider);
            }
        }
    }
}

/// The reply shows the command the repository that it looks for.
pub open spec fn shows_repository(command: SettingsSaveView, reply: CommandReplyView) -> bool {
    match (command, reply) {
        (
            SettingsSaveView::Ensure { search, token, entered },
            CommandReplyView::Provider(answer),
        ) => search.resume(answer) matches StepView::Finish(Ok(_)),
        _ => false,
    }
}

/// Nothing that is kept is changed before the provider has shown the repository: the token and the
/// profile are saved only once the token was seen to work.
pub proof fn nothing_is_saved_before_the_repository_is_found(
    command: SettingsSaveView,
    reply: CommandReplyView,
)
    ensures
        changes(command.request()) ==> command.found(),
        match command.resume(reply) {
            StepView::Continue(next) => next.found() ==> command.found() || shows_repository(
                command,
                reply,
            ),
            StepView::Finish(_) => true,
        },
{
}

/// A remembered repository is used only for the profile that it was found for. For any other the
/// provider is asked.
pub proof fn only_matching_repositories_are_recalled(
    profile: ProfileView,
    token: Seq<char>,
    cached: CachedView,
)
    ensures
        (ChoiceView::Recall { profile, token }).resume(
            CommandReplyView::Recalled(Some(cached)),
        ) == (if cached.profile == profile {
            ChoiceStep::Finish(Ok(target(profile, token, cached.repository)))
        } else {
            ChoiceStep::Continue(ChoiceView::Ensure { search: EnsureView::start(profile), token })
        }),
{
}

/// What one command has remembered, the next one finds for the same profile.
pub proof fn remembered_repositories_are_recalled(
    command: SettingsSaveView,
    token: Seq<char>,
    cached: CachedView,
)
    requires
        command.request() == CommandRequestView::Remember(cached),
    ensures
        (ChoiceView::Recall { profile: command.profile(), token }).resume(
            CommandReplyView::Recalled(Some(cached)),
        ) == ChoiceStep::Finish(Ok(target(command.profile(), token, cached.repository))),
{
}

/// The token that was entered with a profile, once it is saved, is the one that the next upload to
/// that profile uses.
pub proof fn uploads_use_the_saved_token(
    command: SettingsSaveView,
    entry: EntryView,
    token: Seq<char>,
    tokens: Tokens,
)
    requires
        command.request() == CommandRequestView::Store(StoreRequestView::SaveToken { entry, token }),
    ensures
        ({
            let profile = command.profile();
            let after = tokens_after(tokens, StoreRequestView::SaveToken { entry, token });
            let reply = StoreReplyView::Token(token_lookup(after, profile.provider));
            &&& (ChoiceView::ReadToken { profile }).request() == CommandRequestView::Store(
                read_token(profile.provider),
            )
            &&& (ChoiceView::ReadToken { profile }).resume(CommandReplyView::Store(reply))
                == ChoiceStep::Continue((ChoiceView::Recall { profile, token }))
        }),
{
    let profile = command.profile();
    saved_tokens_are_read_back(tokens, profile.provider, token, profile.provider);
}

/// A profile that was saved is the one that the next upload goes to.
pub proof fn uploads_go_to_the_saved_profile(settings: SettingsView, profile: ProfileView)
    requires
        profile.validity() is Ok,
    ensures
        ChoiceView::ReadSettings.resume(
            CommandReplyView::Store(
                StoreReplyView::Settings(SettingsFileView::Read(settings.with_profile(profile))),
            ),
        ) == ChoiceStep::Continue((ChoiceView::ReadToken { profile })),
{
    saved_profiles_are_selected(settings, profile, profile.provider);
}

impl ChoiceView {
    /// The profile can be used, and so can what was found for it.
    pub open spec fn sound(self) -> bool {
        match self {
            ChoiceView::ReadSettings => true,
            ChoiceView::ReadToken { profile } => profile.validity() is Ok,
            ChoiceView::Recall { profile, token } => profile.validity() is Ok,
            ChoiceView::Ensure { search, token } => search.profile.validity() is Ok
                && search.sound(),
            ChoiceView::Remember { profile, token, repository } => profile.validity() is Ok
                && repository.provider == profile.provider,
        }
    }
}

/// An upload goes to a repository of the provider whose token is used for it. This holds whatever
/// the replies, as long as what is recalled was remembered by one of the commands.
pub proof fn choosing_stays_sound(choice: ChoiceView, reply: CommandReplyView)
    requires
        choice.sound(),
        reply matches CommandReplyView::Recalled(Some(cached)) ==> cached.repository.provider
            == cached.profile.provider,
    ensures
        match choice.resume(reply) {
            StepView::Continue(next) => next.sound() && (next.request()
                matches CommandRequestView::Remember(cached) ==> cached.repository.provider
                == cached.profile.provider),
            StepView::Finish(Ok(result)) => match choice {
                ChoiceView::Recall { profile, token } => result.repository.provider
                    == profile.provider && result.credentials == target(
                    profile,
                    token,
                    result.repository,
                ).credentials,
                ChoiceView::Remember { profile, token, repository } => result == target(
                    profile,
                    token,
                    repository,
                ) && repository.provider == profile.provider,
                _ => false,
            },
            StepView::Finish(Err(failure)) => true,
        },
{
    if let ChoiceView::Ensure { search, token } = choice {
        if let CommandReplyView::Provider(answer) = reply {
            ensuring_stays_sound(search, answer);
        }
    }
}

impl CommandRequestView {
    /// The request without the token.
    pub open spec fn erased(self) -> CommandRequestView {
        match self {
            CommandRequestView::Provider { request, token } => CommandRequestView::Provider {
                request,
                token: Seq::empty(),
            },
            CommandRequestView::Store(StoreRequestView::SaveToken { entry, token }) => {
                CommandRequestView::Store(
                    StoreRequestView::SaveToken { entry, token: Seq::empty() },
                )
            },
            _ => self,
        }
    }
}

impl CommandReplyView {
    /// The reply without the token.
    pub open spec fn erased(self) -> CommandReplyView {
        match self {
            CommandReplyView::Store(StoreReplyView::Token(TokenLookupView::Found(token))) => {
                CommandReplyView::Store(
                    StoreReplyView::Token(TokenLookupView::Found(Seq::empty())),
                )
            },
            _ => self,
        }
    }
}

impl SettingsSaveView {
    /// The command without the token.
    pub open spec fn erased(self) -> SettingsSaveView {
        match self {
            SettingsSaveView::Ensure { search, token, entered } => SettingsSaveView::Ensure {
                search,
                token: Seq::empty(),
                entered,
            },
            SettingsSaveView::SaveToken { profile, token, repository } => {
                SettingsSaveView::SaveToken { profile, token: Seq::empty(), repository }
            },
            _ => self,
        }
    }
}

impl ChoiceView {
    /// The command without the token.
    pub open spec fn erased(self) -> ChoiceView {
        match self {
            ChoiceView::Recall { profile, token } => ChoiceView::Recall {
                profile,
                token: Seq::empty(),
            },
            ChoiceView::Ensure { search, token } => ChoiceView::Ensure {
                search,
                token: Seq::empty(),
            },
            ChoiceView::Remember { profile, token, repository } => ChoiceView::Remember {
                profile,
                token: Seq::empty(),
                repository,
            },
            _ => self,
        }
    }
}

/// Where a command that saves the settings stands, without the token.
pub open spec fn erased_save(step: SettingsSaveStep) -> SettingsSaveStep {
    match step {
        StepView::Continue(command) => StepView::Continue(command.erased()),
        StepView::Finish(result) => step,
    }
}

/// Where a command that chooses what an upload goes to stands, without the token.
pub open spec fn erased_choice(step: ChoiceStep) -> ChoiceStep {
    match step {
        StepView::Continue(command) => StepView::Continue(command.erased()),
        StepView::Finish(Ok(result)) => StepView::Finish(
            Ok(
                TargetView {
                    credentials: CredentialsView { token: Seq::empty(), ..result.credentials },
                    ..result
                },
            ),
        ),
        StepView::Finish(Err(failure)) => step,
    }
}

/// The token that is entered with a profile reaches the provider and the credential store alone.
/// With another token, the file of the settings, the repository that is remembered and the result
/// are the same, and so is every request but for the token that it shows or saves.
pub proof fn settings_do_not_depend_on_the_token(
    profile: ProfileView,
    first_token: Seq<char>,
    second_token: Seq<char>,
    first: SettingsSaveView,
    second: SettingsSaveView,
    first_reply: CommandReplyView,
    second_reply: CommandReplyView,
)
    requires
        entered_token(Some(first_token)) is Some,
        entered_token(Some(second_token)) is Some,
        first.erased() == second.erased(),
        first_reply.erased() == second_reply.erased(),
    ensures
        erased_save(SettingsSaveView::start(profile, Some(first_token))) == erased_save(
            SettingsSaveView::start(profile, Some(second_token)),
        ),
        first.request().erased() == second.request().erased(),
        erased_save(first.resume(first_reply)) == erased_save(second.resume(second_reply)),
{
}

/// The token that goes with a profile reaches the provider alone, until it is handed to the upload.
/// With another token, what an upload goes to is the same, but for that token.
pub proof fn choices_do_not_depend_on_the_token(
    first: ChoiceView,
    second: ChoiceView,
    first_reply: CommandReplyView,
    second_reply: CommandReplyView,
)
    requires
        first.erased() == second.erased(),
        first_reply.erased() == second_reply.erased(),
    ensures
        first.request().erased() == second.request().erased(),
        erased_choice(first.resume(first_reply)) == erased_choice(second.resume(second_reply)),
{
}

// ---------------------------------------------------------------------------------------------
// What the commands are for
// ---------------------------------------------------------------------------------------------
/// A token that was entered is shown to the provider as it is, without the white space around it, for
/// the profile without the white space around its texts. Where none was entered, or only white space,
/// the one that was saved for the provider is looked for.
pub proof fn entered_tokens_are_used(
    profile: ProfileView,
    before: Seq<char>,
    token: Seq<char>,
    after: Seq<char>,
)
    requires
        profile.validity() is Ok,
        forall|i: int| 0 <= i < before.len() ==> is_white_space(#[trigger] before[i]),
        forall|i: int| 0 <= i < after.len() ==> is_white_space(#[trigger] after[i]),
        token.len() > 0 ==> !is_white_space(token[0]) && !is_white_space(token.last()),
    ensures
        token.len() > 0 ==> SettingsSaveView::start(profile, Some(before + token + after))
            == SettingsSaveStep::Continue(
            SettingsSaveView::Ensure {
                search: EnsureView::start(profile.normal()),
                token,
                entered: true,
            },
        ),
        token.len() == 0 ==> SettingsSaveView::start(profile, Some(before + token + after))
            == SettingsSaveStep::Continue(
            SettingsSaveView::ReadToken { profile: profile.normal() },
        ),
        SettingsSaveView::start(profile, None) == SettingsSaveStep::Continue(
            SettingsSaveView::ReadToken { profile: profile.normal() },
        ),
{
    normalizing_is_idempotent(profile);
    trimming_removes_white_space_alone(before, token, after);
}

/// The requests of the command: a token is looked for and saved in its provider's place, shown to the
/// provider with every request, and the repository is remembered for the profile.
pub proof fn settings_are_saved_for_their_profile(
    profile: ProfileView,
    repository: RepositoryView,
    search: EnsureView,
    token: Seq<char>,
    entered: bool,
    save: SaveView,
)
    ensures
        ({
            let entry = EntryView {
                service: "com.gitpic.crossplatform"@,
                account: match profile.provider {
                    Provider::Github => "github"@,
                    Provider::Gitlab => "gitlab"@,
                },
            };
            &&& (SettingsSaveView::ReadToken { profile }).request() == CommandRequestView::Store(
                StoreRequestView::ReadToken { entry },
            )
            &&& (SettingsSaveView::Ensure { search, token, entered }).request()
                == (CommandRequestView::Provider { request: search.request(), token })
            &&& (SettingsSaveView::SaveToken { profile, token, repository }).request()
                == CommandRequestView::Store(StoreRequestView::SaveToken { entry, token })
            &&& (SettingsSaveView::SaveProfile { profile, repository, save }).request()
                == CommandRequestView::Store(save.request())
            &&& (SettingsSaveView::Remember { profile, repository }).request()
                == CommandRequestView::Remember(CachedView { profile, repository })
        }),
{
}

/// The command goes on from the token to the repository, then, where the token was entered, to saving
/// it, then to saving the profile, and last to remembering the repository, which is its result. The
/// first failure ends it, as it was; a token that is not there is asked for.
pub proof fn settings_are_saved_in_order(
    profile: ProfileView,
    repository: RepositoryView,
    search: EnsureView,
    token: Seq<char>,
    entered: bool,
    save: SaveView,
    answer: ProviderReplyView,
    said: StoreReplyView,
)
    ensures
        ({
            let reading = SettingsSaveView::ReadToken { profile };
            let ensuring = SettingsSaveView::Ensure { search, token, entered };
            let keeping = SettingsSaveView::SaveToken { profile, token, repository };
            let saving = SettingsSaveView::SaveProfile { profile, repository, save };
            let remembering = SettingsSaveView::Remember { profile, repository };
            &&& reading.resume(
                CommandReplyView::Store(StoreReplyView::Token(TokenLookupView::Found(token))),
            ) == SettingsSaveStep::Continue(
                SettingsSaveView::Ensure {
                    search: EnsureView::start(profile),
                    token,
                    entered: false,
                },
            )
            &&& reading.resume(
                CommandReplyView::Store(StoreReplyView::Token(TokenLookupView::Missing)),
            ) == SettingsSaveStep::Finish(
                Err(
                    Failure::Message(
                        "Enter a personal access token. Account passwords cannot be used for Git uploads."@,
                    ),
                ),
            )
            &&& ensuring.resume(CommandReplyView::Provider(answer)) == match search.resume(answer) {
                StepView::Continue(next) => SettingsSaveStep::Continue(
                    SettingsSaveView::Ensure { search: next, token, entered },
                ),
                StepView::Finish(Ok(found)) => SettingsSaveStep::Continue(
                    if entered {
                        SettingsSaveView::SaveToken {
                            profile: search.profile,
                            token,
                            repository: found,
                        }
                    } else {
                        SettingsSaveView::SaveProfile {
                            profile: search.profile,
                            repository: found,
                            save: SaveView::Reading { profile: search.profile },
                        }
                    },
                ),
                StepView::Finish(Err(failure)) => SettingsSaveStep::Finish(Err(failure)),
            }
            &&& keeping.resume(
                CommandReplyView::Store(StoreReplyView::TokenSaved(TokenSaveView::Saved)),
            ) == SettingsSaveStep::Continue(
                SettingsSaveView::SaveProfile {
                    profile,
                    repository,
                    save: SaveView::Reading { profile },
                },
            )
            &&& saving.resume(CommandReplyView::Store(said)) == match save.resume(said) {
                StepView::Continue(next) => SettingsSaveStep::Continue(
                    SettingsSaveView::SaveProfile { profile, repository, save: next },
                ),
                StepView::Finish(Ok(_)) => SettingsSaveStep::Continue(remembering),
                StepView::Finish(Err(failure)) => SettingsSaveStep::Finish(Err(failure)),
            }
            &&& remembering.resume(CommandReplyView::Remembered) == SettingsSaveStep::Finish(
                Ok(repository),
            )
        }),
{
}

/// What the credential store could not do ends the command that asked for it, as it was reported.
pub proof fn failures_of_the_store_end_the_commands(
    profile: ProfileView,
    repository: RepositoryView,
    token: Seq<char>,
    lookup: TokenLookupView,
    save: TokenSaveView,
    file: SettingsFileView,
)
    ensures
        token_loaded(profile.provider, lookup) matches Err(failure) ==> (
        SettingsSaveView::ReadToken { profile }).resume(
            CommandReplyView::Store(StoreReplyView::Token(lookup)),
        ) == SettingsSaveStep::Finish(Err(failure)),
        token_loaded(profile.provider, lookup) matches Err(failure) ==> (ChoiceView::ReadToken {
            profile,
        }).resume(CommandReplyView::Store(StoreReplyView::Token(lookup))) == ChoiceStep::Finish(
            Err(failure),
        ),
        token_saved(profile.provider, save) matches Err(failure) ==> (SettingsSaveView::SaveToken {
            profile,
            token,
            repository,
        }).resume(CommandReplyView::Store(StoreReplyView::TokenSaved(save)))
            == SettingsSaveStep::Finish(Err(failure)),
        settings_loaded(file) matches Err(failure) ==> ChoiceView::ReadSettings.resume(
            CommandReplyView::Store(StoreReplyView::Settings(file)),
        ) == ChoiceStep::Finish(Err(failure)),
{
}

/// An upload goes to the repository of the selected profile, with the profile's username and its
/// provider's token. Where there is no profile or no token, the user is told what is missing; a profile
/// that cannot be used is refused with the reason.
pub proof fn uploads_go_to_the_selected_profile(
    settings: SettingsView,
    profile: ProfileView,
    token: Seq<char>,
    repository: RepositoryView,
    search: EnsureView,
    answer: ProviderReplyView,
)
    ensures
        ({
            let own = match settings.selected_provider {
                Provider::Github => "github"@,
                Provider::Gitlab => "gitlab"@,
            };
            let entry = EntryView {
                service: "com.gitpic.crossplatform"@,
                account: match profile.provider {
                    Provider::Github => "github"@,
                    Provider::Gitlab => "gitlab"@,
                },
            };
            let read = CommandReplyView::Store(
                StoreReplyView::Settings(SettingsFileView::Read(settings)),
            );
            let result = TargetView {
                repository,
                credentials: CredentialsView { username: profile.username, token },
            };
            &&& ChoiceView::ReadSettings.request() == CommandRequestView::Store(
                StoreRequestView::ReadSettings { file: "settings.json"@ },
            )
            &&& stored(settings.profiles, own) is None ==> ChoiceView::ReadSettings.resume(read)
                == ChoiceStep::Finish(
                Err(
                    Failure::Message(
                        "Set up an account and repository before uploading images."@,
                    ),
                ),
            )
            &&& stored(settings.profiles, own) == Some(profile) ==> ChoiceView::ReadSettings.resume(
                read,
            ) == match profile.validity() {
                Ok(_) => ChoiceStep::Continue(ChoiceView::ReadToken { profile }),
                Err(failure) => ChoiceStep::Finish(Err(failure)),
            }
            &&& (ChoiceView::ReadToken { profile }).request() == CommandRequestView::Store(
                StoreRequestView::ReadToken { entry },
            )
            &&& (ChoiceView::ReadToken { profile }).resume(
                CommandReplyView::Store(StoreReplyView::Token(TokenLookupView::Missing)),
            ) == ChoiceStep::Finish(
                Err(Failure::Message("The saved personal access token is missing."@)),
            )
            &&& (ChoiceView::ReadToken { profile }).resume(
                CommandReplyView::Store(StoreReplyView::Token(TokenLookupView::Found(token))),
            ) == ChoiceStep::Continue(ChoiceView::Recall { profile, token })
            &&& (ChoiceView::Recall { profile, token }).request() == CommandRequestView::Recall
            &&& (ChoiceView::Recall { profile, token }).resume(
                CommandReplyView::Recalled(Some(CachedView { profile, repository })),
            ) == ChoiceStep::Finish(Ok(result))
            &&& (ChoiceView::Recall { profile, token }).resume(CommandReplyView::Recalled(None))
                == ChoiceStep::Continue(
                ChoiceView::Ensure { search: EnsureView::start(profile), token },
            )
            &&& (ChoiceView::Ensure { search, token }).request() == (CommandRequestView::Provider {
                request: search.request(),
                token,
            })
            &&& (ChoiceView::Ensure { search, token }).resume(CommandReplyView::Provider(answer))
                == match search.resume(answer) {
                StepView::Continue(next) => ChoiceStep::Continue(
                    ChoiceView::Ensure { search: next, token },
                ),
                StepView::Finish(Ok(found)) => ChoiceStep::Continue(
                    ChoiceView::Remember { profile: search.profile, token, repository: found },
                ),
                StepView::Finish(Err(failure)) => ChoiceStep::Finish(Err(failure)),
            }
            &&& (ChoiceView::Remember { profile, token, repository }).request()
                == CommandRequestView::Remember(CachedView { profile, repository })
            &&& (ChoiceView::Remember { profile, token, repository }).resume(
                CommandReplyView::Remembered,
            ) == ChoiceStep::Finish(Ok(result))
        }),
{
}

/// A reply that is not of the kind that the pending request asks for has no effect.
pub proof fn other_replies_have_no_effect(
    command: SettingsSaveView,
    choice: ChoiceView,
    reply: CommandReplyView,
)
    ensures
        !(match command {
            SettingsSaveView::ReadToken { profile } => reply matches CommandReplyView::Store(
                StoreReplyView::Token(_),
            ),
            SettingsSaveView::Ensure { search, token, entered } => reply is Provider,
            SettingsSaveView::SaveToken { profile, token, repository } => reply matches
                CommandReplyView::Store(StoreReplyView::TokenSaved(_)),
            SettingsSaveView::SaveProfile { profile, repository, save } => reply is Store,
            SettingsSaveView::Remember { profile, repository } => reply is Remembered,
        }) ==> command.resume(reply) == SettingsSaveStep::Continue(command),
        !(match choice {
            ChoiceView::ReadSettings => reply matches CommandReplyView::Store(
                StoreReplyView::Settings(_),
            ),
            ChoiceView::ReadToken { profile } => reply matches CommandReplyView::Store(
                StoreReplyView::Token(_),
            ),
            ChoiceView::Recall { profile, token } => reply is Recalled,
            ChoiceView::Ensure { search, token } => reply is Provider,
            ChoiceView::Remember { profile, token, repository } => reply is Remembered,
        }) ==> choice.resume(reply) == ChoiceStep::Continue(choice),
{
}

} // verus!

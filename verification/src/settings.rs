//! The settings that are kept between runs: the profiles in a file, and the tokens in the credential
//! store of the operating system.
use vstd::prelude::*;

use crate::models::{AppError, AppResult, BootstrapView, Entries, Failure, ProfileView, Provider};
use crate::models::{RepositoryProfile, SettingsBootstrap, SettingsView, StoredSettings, outcome};
use crate::models::{provider_keys_differ, saved_profiles_are_selected};
use crate::procedure::{Step, StepView};

verus! {

// ---------------------------------------------------------------------------------------------
// Tokens
// ---------------------------------------------------------------------------------------------
/// The place of a token in the credential store.
#[derive(Debug)]
pub struct CredentialEntry {
    pub service: String,
    pub account: String,
}

/// The model of a [`CredentialEntry`].
#[verifier::ext_equal]
pub struct EntryView {
    pub service: Seq<char>,
    pub account: Seq<char>,
}

impl View for CredentialEntry {
    type V = EntryView;

    open spec fn view(&self) -> EntryView {
        EntryView { service: self.service@, account: self.account@ }
    }
}

/// The place of a provider's token.
pub open spec fn token_entry(provider: Provider) -> EntryView {
    EntryView { service: "com.gitpic.crossplatform"@, account: provider.spec_key() }
}

/// The place of a provider's token in the credential store.
pub fn credential_entry(provider: Provider) -> (r: CredentialEntry)
    ensures
        r@ == token_entry(provider),
{
    CredentialEntry {
        service: "com.gitpic.crossplatform".to_owned(),
        account: provider.key().to_owned(),
    }
}

/// The providers' tokens are in different places.
pub proof fn token_entries_differ(a: Provider, b: Provider)
    ensures
        token_entry(a) == token_entry(b) ==> a == b,
{
    provider_keys_differ(a, b);
}

/// What the credential store said when it was asked for a token.
#[derive(Debug)]
pub enum TokenLookup {
    /// There is no credential store, for the reason given.
    Unavailable(String),
    /// The token could not be read, for the reason given.
    Failed(String),
    /// There is no token.
    Missing,
    Found(String),
}

/// The model of a [`TokenLookup`].
#[verifier::ext_equal]
pub enum TokenLookupView {
    Unavailable(Seq<char>),
    Failed(Seq<char>),
    Missing,
    Found(Seq<char>),
}

impl View for TokenLookup {
    type V = TokenLookupView;

    open spec fn view(&self) -> TokenLookupView {
        match self {
            TokenLookup::Unavailable(reason) => TokenLookupView::Unavailable(reason@),
            TokenLookup::Failed(reason) => TokenLookupView::Failed(reason@),
            TokenLookup::Missing => TokenLookupView::Missing,
            TokenLookup::Found(token) => TokenLookupView::Found(token@),
        }
    }
}

/// What the credential store said when it was given a token.
#[derive(Debug)]
pub enum TokenSave {
    /// There is no credential store, for the reason given.
    Unavailable(String),
    /// The token could not be saved, for the reason given.
    Failed(String),
    Saved,
}

/// The model of a [`TokenSave`].
#[verifier::ext_equal]
pub enum TokenSaveView {
    Unavailable(Seq<char>),
    Failed(Seq<char>),
    Saved,
}

impl View for TokenSave {
    type V = TokenSaveView;

    open spec fn view(&self) -> TokenSaveView {
        match self {
            TokenSave::Unavailable(reason) => TokenSaveView::Unavailable(reason@),
            TokenSave::Failed(reason) => TokenSaveView::Failed(reason@),
            TokenSave::Saved => TokenSaveView::Saved,
        }
    }
}

/// The failure of a credential store that is not there.
pub open spec fn store_unavailable(reason: Seq<char>) -> Failure {
    Failure::Message("The operating system credential store is unavailable: "@ + reason)
}

/// The model of a result that is a token, or none.
pub open spec fn token_outcome(r: AppResult<Option<String>>) -> Result<Option<Seq<char>>, Failure> {
    match r {
        Ok(Some(token)) => Ok(Some(token@)),
        Ok(None) => Ok(None),
        Err(error) => Err(error@),
    }
}

/// A provider's token, as far as the credential store has it.
pub open spec fn token_loaded(provider: Provider, lookup: TokenLookupView) -> Result<
    Option<Seq<char>>,
    Failure,
> {
    match lookup {
        TokenLookupView::Unavailable(reason) => Err(store_unavailable(reason)),
        TokenLookupView::Failed(reason) => Err(
            Failure::Message(
                "Could not read the "@ + provider.spec_display_name()
                    + " token from the operating system credential store: "@ + reason,
            ),
        ),
        TokenLookupView::Missing => Ok(None),
        TokenLookupView::Found(token) => Ok(Some(token)),
    }
}

/// Whether a provider's token is in the credential store now.
pub open spec fn token_saved(provider: Provider, save: TokenSaveView) -> Result<(), Failure> {
    match save {
        TokenSaveView::Unavailable(reason) => Err(store_unavailable(reason)),
        TokenSaveView::Failed(reason) => Err(
            Failure::Message(
                "Could not save the "@ + provider.spec_display_name()
                    + " token in the operating system credential store: "@ + reason,
            ),
        ),
        TokenSaveView::Saved => Ok(()),
    }
}

fn no_store(reason: &str) -> (r: AppError)
    ensures
        r@ == store_unavailable(reason@),
{
    AppError::Message(
        "The operating system credential store is unavailable: ".to_owned().concat(reason),
    )
}

/// A provider's token, of which the credential store said this.
pub fn load_token(provider: Provider, lookup: TokenLookup) -> (r: AppResult<Option<String>>)
    ensures
        token_outcome(r) == token_loaded(provider, lookup@),
{
    match lookup {
        TokenLookup::Unavailable(reason) => Err(no_store(reason.as_str())),
        TokenLookup::Failed(reason) => Err(
            AppError::Message(
                "Could not read the ".to_owned().concat(provider.display_name()).concat(
                    " token from the operating system credential store: ",
                ).concat(reason.as_str()),
            ),
        ),
        TokenLookup::Missing => Ok(None),
        TokenLookup::Found(token) => Ok(Some(token)),
    }
}

/// The end of saving a provider's token, of which the credential store said this.
pub fn save_token(provider: Provider, save: TokenSave) -> (r: AppResult<()>)
    ensures
        outcome(r) == token_saved(provider, save@),
{
    match save {
        TokenSave::Unavailable(reason) => Err(no_store(reason.as_str())),
        TokenSave::Failed(reason) => Err(
            AppError::Message(
                "Could not save the ".to_owned().concat(provider.display_name()).concat(
                    " token in the operating system credential store: ",
                ).concat(reason.as_str()),
            ),
        ),
        TokenSave::Saved => Ok(()),
    }
}

// ---------------------------------------------------------------------------------------------
// The file of the settings
// ---------------------------------------------------------------------------------------------
/// What was found in the file of the settings.
#[derive(Debug)]
pub enum SettingsFile {
    /// The folder of the settings could not be located, for the reason given.
    Unlocated(String),
    /// There is no such file.
    Missing,
    /// The file could not be read, or holds no settings.
    Failed(AppError),
    Read(StoredSettings),
}

/// The model of a [`SettingsFile`].
#[verifier::ext_equal]
pub enum SettingsFileView {
    Unlocated(Seq<char>),
    Missing,
    Failed(Failure),
    Read(SettingsView),
}

impl View for SettingsFile {
    type V = SettingsFileView;

    open spec fn view(&self) -> SettingsFileView {
        match self {
            SettingsFile::Unlocated(reason) => SettingsFileView::Unlocated(reason@),
            SettingsFile::Missing => SettingsFileView::Missing,
            SettingsFile::Failed(error) => SettingsFileView::Failed(error@),
            SettingsFile::Read(settings) => SettingsFileView::Read(settings@),
        }
    }
}

/// The failure of a folder that cannot be located.
pub open spec fn folder_unlocated(reason: Seq<char>) -> Failure {
    Failure::Message("Could not locate the app settings folder: "@ + reason)
}

/// The settings, as far as their file has them. Without a file, nothing was saved yet.
pub open spec fn settings_loaded(file: SettingsFileView) -> Result<SettingsView, Failure> {
    match file {
        SettingsFileView::Unlocated(reason) => Err(folder_unlocated(reason)),
        SettingsFileView::Missing => Ok(SettingsView::initial()),
        SettingsFileView::Failed(failure) => Err(failure),
        SettingsFileView::Read(settings) => Ok(settings),
    }
}

fn no_folder(reason: &str) -> (r: AppError)
    ensures
        r@ == folder_unlocated(reason@),
{
    AppError::Message("Could not locate the app settings folder: ".to_owned().concat(reason))
}

/// The settings, of whose file this is known.
pub fn load_settings(file: SettingsFile) -> (r: AppResult<StoredSettings>)
    ensures
        outcome(r) == settings_loaded(file@),
{
    match file {
        SettingsFile::Unlocated(reason) => Err(no_folder(reason.as_str())),
        SettingsFile::Missing => Ok(StoredSettings::default()),
        SettingsFile::Failed(error) => Err(error),
        SettingsFile::Read(settings) => Ok(settings),
    }
}

// ---------------------------------------------------------------------------------------------
// Requests and replies
// ---------------------------------------------------------------------------------------------
/// The name of the file of the settings.
pub open spec fn settings_file() -> Seq<char> {
    "settings.json"@
}

/// The name of the file in which new settings are written before they replace the old ones.
pub open spec fn temporary_file() -> Seq<char> {
    "settings.json.tmp"@
}

/// A request about what is kept between runs. A file is named by its name in the folder of the
/// settings.
#[derive(Debug)]
pub enum StoreRequest {
    /// Locate the folder of the settings, and say what its file of this name holds.
    ReadSettings { file: String },
    /// Look for the token in this place of the credential store.
    ReadToken { entry: CredentialEntry },
    /// Put the token in this place of the credential store.
    SaveToken { entry: CredentialEntry, token: String },
    /// Locate the folder of the settings.
    Locate,
    /// Create the folder of the settings, and every folder above it.
    CreateFolder,
    /// Write the settings to the file of this name.
    Write { file: String, settings: StoredSettings },
    /// Say whether there is a file of this name.
    Probe { file: String },
    /// Delete the file of this name.
    Remove { file: String },
    /// Give a file another name.
    Rename { from: String, to: String },
}

/// The model of a [`StoreRequest`].
#[verifier::ext_equal]
pub enum StoreRequestView {
    ReadSettings { file: Seq<char> },
    ReadToken { entry: EntryView },
    SaveToken { entry: EntryView, token: Seq<char> },
    Locate,
    CreateFolder,
    Write { file: Seq<char>, settings: SettingsView },
    Probe { file: Seq<char> },
    Remove { file: Seq<char> },
    Rename { from: Seq<char>, to: Seq<char> },
}

impl View for StoreRequest {
    type V = StoreRequestView;

    open spec fn view(&self) -> StoreRequestView {
        match self {
            StoreRequest::ReadSettings { file } => StoreRequestView::ReadSettings { file: file@ },
            StoreRequest::ReadToken { entry } => StoreRequestView::ReadToken { entry: entry@ },
            StoreRequest::SaveToken { entry, token } => StoreRequestView::SaveToken {
                entry: entry@,
                token: token@,
            },
            StoreRequest::Locate => StoreRequestView::Locate,
            StoreRequest::CreateFolder => StoreRequestView::CreateFolder,
            StoreRequest::Write { file, settings } => StoreRequestView::Write {
                file: file@,
                settings: settings@,
            },
            StoreRequest::Probe { file } => StoreRequestView::Probe { file: file@ },
            StoreRequest::Remove { file } => StoreRequestView::Remove { file: file@ },
            StoreRequest::Rename { from, to } => StoreRequestView::Rename { from: from@, to: to@ },
        }
    }
}

/// The request for the settings.
pub open spec fn read_settings() -> StoreRequestView {
    StoreRequestView::ReadSettings { file: settings_file() }
}

/// The request for a provider's token.
pub open spec fn read_token(provider: Provider) -> StoreRequestView {
    StoreRequestView::ReadToken { entry: token_entry(provider) }
}

/// A reply to a [`StoreRequest`]. One that is not of the kind that the pending request asks for has
/// no effect.
#[derive(Debug)]
pub enum StoreReply {
    /// To `ReadSettings`.
    Settings(SettingsFile),
    /// To `ReadToken`.
    Token(TokenLookup),
    /// To `SaveToken`.
    TokenSaved(TokenSave),
    /// To `Locate`: nothing, or the reason why the folder could not be located.
    Located(Option<String>),
    /// To `Probe`.
    Exists(bool),
    /// To `CreateFolder`, `Write`, `Remove` and `Rename`.
    Done(AppResult<()>),
}

/// The model of a [`StoreReply`].
#[verifier::ext_equal]
pub enum StoreReplyView {
    Settings(SettingsFileView),
    Token(TokenLookupView),
    TokenSaved(TokenSaveView),
    Located(Option<Seq<char>>),
    Exists(bool),
    Done(Result<(), Failure>),
}

impl View for StoreReply {
    type V = StoreReplyView;

    open spec fn view(&self) -> StoreReplyView {
        match self {
            StoreReply::Settings(file) => StoreReplyView::Settings(file@),
            StoreReply::Token(lookup) => StoreReplyView::Token(lookup@),
            StoreReply::TokenSaved(save) => StoreReplyView::TokenSaved(save@),
            StoreReply::Located(reason) => StoreReplyView::Located(
                match reason {
                    Some(text) => Some(text@),
                    None => None,
                },
            ),
            StoreReply::Exists(answer) => StoreReplyView::Exists(*answer),
            StoreReply::Done(result) => StoreReplyView::Done(outcome(*result)),
        }
    }
}

pub(crate) fn ask_settings() -> (r: StoreRequest)
    ensures
        r@ == read_settings(),
{
    StoreRequest::ReadSettings { file: "settings.json".to_owned() }
}

pub(crate) fn ask_token(provider: Provider) -> (r: StoreRequest)
    ensures
        r@ == read_token(provider),
{
    StoreRequest::ReadToken { entry: credential_entry(provider) }
}

// ---------------------------------------------------------------------------------------------
// What the user interface needs at its start
// ---------------------------------------------------------------------------------------------
/// The stored profiles that are of a provider, in the order of their keys.
pub open spec fn of_provider(entries: Entries, provider: Provider) -> Seq<ProfileView>
    decreases entries.len(),
{
    if entries.len() == 0 {
        Seq::empty()
    } else {
        let before = of_provider(entries.drop_last(), provider);
        if entries.last().1.provider == provider {
            before.push(entries.last().1)
        } else {
            before
        }
    }
}

/// The stored profiles by provider, and those of one provider in the order of their keys.
pub open spec fn by_provider(entries: Entries) -> Seq<ProfileView> {
    of_provider(entries, Provider::Github) + of_provider(entries, Provider::Gitlab)
}

/// What the procedure is doing.
#[verifier::ext_equal]
pub enum BootstrapStageView {
    /// It reads the settings.
    Settings,
    /// It looks for the token of a provider. Those of the providers before it are known.
    Token { settings: SettingsView, provider: Provider, known: Seq<Provider> },
}

/// Where the procedure stands after a reply.
pub type BootstrapStep = StepView<BootstrapStageView, BootstrapView>;

impl BootstrapStageView {
    /// The pending request.
    pub open spec fn request(self) -> StoreRequestView {
        match self {
            BootstrapStageView::Settings => read_settings(),
            BootstrapStageView::Token { settings, provider, known } => read_token(provider),
        }
    }

    /// The procedure once it is known whether there is a token of the provider.
    pub open spec fn looked(
        settings: SettingsView,
        provider: Provider,
        known: Seq<Provider>,
    ) -> BootstrapStep {
        match provider {
            Provider::Github => StepView::Continue(
                BootstrapStageView::Token { settings, provider: Provider::Gitlab, known },
            ),
            Provider::Gitlab => StepView::Finish(
                Ok(
                    BootstrapView {
                        selected_provider: settings.selected_provider,
                        profiles: by_provider(settings.profiles),
                        token_providers: known,
                    },
                ),
            ),
        }
    }

    /// The procedure after a reply.
    pub open spec fn resume(self, reply: StoreReplyView) -> BootstrapStep {
        match (self, reply) {
            (BootstrapStageView::Settings, StoreReplyView::Settings(file)) => match settings_loaded(
                file,
            ) {
                Ok(settings) => StepView::Continue(
                    BootstrapStageView::Token {
                        settings,
                        provider: Provider::Github,
                        known: Seq::empty(),
                    },
                ),
                Err(failure) => StepView::Finish(Err(failure)),
            },
            (
                BootstrapStageView::Token { settings, provider, known },
                StoreReplyView::Token(lookup),
            ) => match token_loaded(provider, lookup) {
                Ok(Some(token)) => BootstrapStageView::looked(
                    settings,
                    provider,
                    known.push(provider),
                ),
                Ok(None) => BootstrapStageView::looked(settings, provider, known),
                Err(failure) => StepView::Finish(Err(failure)),
            },
            _ => StepView::Continue(self),
        }
    }
}

#[derive(Debug)]
enum BootstrapStage {
    Settings,
    Token { settings: StoredSettings, provider: Provider, known: Vec<Provider> },
}

/// The collection of what the user interface needs at its start.
#[derive(Debug)]
pub struct Bootstrapping {
    stage: BootstrapStage,
}

impl View for Bootstrapping {
    type V = BootstrapStageView;

    closed spec fn view(&self) -> BootstrapStageView {
        match self.stage {
            BootstrapStage::Settings => BootstrapStageView::Settings,
            BootstrapStage::Token { settings, provider, known } => BootstrapStageView::Token {
                settings: settings@,
                provider,
                known: known@,
            },
        }
    }
}

/// Starts to collect what the user interface needs at its start.
pub fn load_bootstrap() -> (r: Bootstrapping)
    ensures
        r@ == BootstrapStageView::Settings,
{
    Bootstrapping { stage: BootstrapStage::Settings }
}

fn push_of_provider(
    entries: &Vec<(String, RepositoryProfile)>,
    provider: Provider,
    profiles: &mut Vec<RepositoryProfile>,
)
    ensures
        final(profiles)@.map_values(|profile: RepositoryProfile| profile@) == old(
            profiles,
        )@.map_values(|profile: RepositoryProfile| profile@) + of_provider(
            entries@.map_values(|entry: (String, RepositoryProfile)| (entry.0@, entry.1@)),
            provider,
        ),
{
    let ghost all = entries@.map_values(
        |entry: (String, RepositoryProfile)| (entry.0@, entry.1@),
    );
    let ghost before = profiles@.map_values(|profile: RepositoryProfile| profile@);
    let mut i: usize = 0;
    assert(all.take(0) =~= Seq::empty());
    assert(before + of_provider(all.take(0), provider) =~= before);
    while i < entries.len()
        invariant
            i <= entries.len(),
            all == entries@.map_values(
                |entry: (String, RepositoryProfile)| (entry.0@, entry.1@),
            ),
            profiles@.map_values(|profile: RepositoryProfile| profile@) == before + of_provider(
                all.take(i as int),
                provider,
            ),
        decreases entries.len() - i,
    {
        let ghost next = all.take(i + 1);
        let ghost so_far = profiles@.map_values(|profile: RepositoryProfile| profile@);
        assert(next.drop_last() =~= all.take(i as int));
        assert(next.last() == all[i as int]);
        if entries[i].1.provider == provider {
            profiles.push(entries[i].1.clone());
            assert(profiles@.map_values(|profile: RepositoryProfile| profile@) =~= so_far.push(
                all[i as int].1,
            ));
            assert(so_far.push(all[i as int].1) =~= before + of_provider(next, provider));
        }
        i = i + 1;
    }
    assert(all.take(i as int) =~= all);
}

impl Bootstrapping {
    /// The pending request.
    pub fn request(&self) -> (r: StoreRequest)
        ensures
            r@ == self@.request(),
    {
        match &self.stage {
            BootstrapStage::Settings => ask_settings(),
            BootstrapStage::Token { settings, provider, known } => ask_token(*provider),
        }
    }

    /// Goes on with the reply to the pending request.
    pub fn resume(self, reply: StoreReply) -> (r: Step<Bootstrapping, SettingsBootstrap>)
        ensures
            r@ == self@.resume(reply@),
    {
        match (self.stage, reply) {
            (BootstrapStage::Settings, StoreReply::Settings(file)) => match load_settings(file) {
                Ok(settings) => {
                    let known: Vec<Provider> = Vec::new();
                    assert(known@ =~= Seq::<Provider>::empty());
                    Step::Continue(
                        Bootstrapping {
                            stage: BootstrapStage::Token {
                                settings,
                                provider: Provider::Github,
                                known,
                            },
                        },
                    )
                },
                Err(error) => Step::Finish(Err(error)),
            },
            (BootstrapStage::Token { settings, provider, mut known }, StoreReply::Token(lookup)) => {
                match load_token(provider, lookup) {
                    Ok(Some(_)) => {
                        known.push(provider);
                    },
                    Ok(None) => {},
                    Err(error) => {
                        return Step::Finish(Err(error));
                    },
                }
                match provider {
                    Provider::Github => Step::Continue(
                        Bootstrapping {
                            stage: BootstrapStage::Token {
                                settings,
                                provider: Provider::Gitlab,
                                known,
                            },
                        },
                    ),
                    Provider::Gitlab => {
                        let entries = settings.profiles.entries();
                        let mut profiles: Vec<RepositoryProfile> = Vec::new();
                        assert(profiles@.map_values(|profile: RepositoryProfile| profile@)
                            =~= Seq::<ProfileView>::empty());
                        push_of_provider(&entries, Provider::Github, &mut profiles);
                        push_of_provider(&entries, Provider::Gitlab, &mut profiles);
                        assert(profiles@.map_values(|profile: RepositoryProfile| profile@)
                            =~= by_provider(settings.profiles@));
                        Step::Finish(
                            Ok(
                                SettingsBootstrap {
                                    selected_provider: settings.selected_provider,
                                    profiles,
                                    token_providers: known,
                                },
                            ),
                        )
                    },
                }
            },
            (stage, _) => Step::Continue(Bootstrapping { stage }),
        }
    }
}

// ---------------------------------------------------------------------------------------------
// Saving a profile
// ---------------------------------------------------------------------------------------------
/// What is done with the files of the settings.
#[derive(Clone, Copy, Debug, PartialEq, Eq, Structural)]
pub enum SaveStage {
    Locate,
    CreateFolder,
    Write,
    Probe,
    Remove,
    Rename,
}

/// The model of a [`ProfileSave`].
#[verifier::ext_equal]
pub enum SaveView {
    /// It reads the settings, to which the profile is to be added.
    Reading { profile: ProfileView },
    /// It replaces the settings by these.
    Replacing { settings: SettingsView, stage: SaveStage },
}

/// Where the procedure stands after a reply.
pub type SaveStep = StepView<SaveView, ()>;

impl SaveView {
    /// The pending request.
    pub open spec fn request(self) -> StoreRequestView {
        match self {
            SaveView::Reading { profile } => read_settings(),
            SaveView::Replacing { settings, stage } => match stage {
                SaveStage::Locate => StoreRequestView::Locate,
                SaveStage::CreateFolder => StoreRequestView::CreateFolder,
                SaveStage::Write => StoreRequestView::Write { file: temporary_file(), settings },
                SaveStage::Probe => StoreRequestView::Probe { file: settings_file() },
                SaveStage::Remove => StoreRequestView::Remove { file: settings_file() },
                SaveStage::Rename => StoreRequestView::Rename {
                    from: temporary_file(),
                    to: settings_file(),
                },
            },
        }
    }

    /// The procedure once a request was carried out.
    pub open spec fn done(settings: SettingsView, stage: SaveStage) -> SaveStep {
        match stage {
            SaveStage::CreateFolder => StepView::Continue(
                SaveView::Replacing { settings, stage: SaveStage::Write },
            ),
            SaveStage::Write => StepView::Continue(
                SaveView::Replacing { settings, stage: SaveStage::Probe },
            ),
            SaveStage::Remove => StepView::Continue(
                SaveView::Replacing { settings, stage: SaveStage::Rename },
            ),
            SaveStage::Rename => StepView::Finish(Ok(())),
            _ => StepView::Continue(SaveView::Replacing { settings, stage }),
        }
    }

    /// The procedure after a reply.
    pub open spec fn resume(self, reply: StoreReplyView) -> SaveStep {
        match self {
            SaveView::Reading { profile } => match reply {
                StoreReplyView::Settings(file) => match settings_loaded(file) {
                    Ok(settings) => StepView::Continue(
                        SaveView::Replacing {
                            settings: settings.with_profile(profile),
                            stage: SaveStage::Locate,
                        },
                    ),
                    Err(failure) => StepView::Finish(Err(failure)),
                },
                _ => StepView::Continue(self),
            },
            SaveView::Replacing { settings, stage } => match (stage, reply) {
                (SaveStage::Locate, StoreReplyView::Located(None)) => StepView::Continue(
                    SaveView::Replacing { settings, stage: SaveStage::CreateFolder },
                ),
                (SaveStage::Locate, StoreReplyView::Located(Some(reason))) => StepView::Finish(
                    Err(folder_unlocated(reason)),
                ),
                (SaveStage::Locate, _) => StepView::Continue(self),
                (SaveStage::Probe, StoreReplyView::Exists(answer)) => StepView::Continue(
                    SaveView::Replacing {
                        settings,
                        stage: if answer {
                            SaveStage::Remove
                        } else {
                            SaveStage::Rename
                        },
                    },
                ),
                (SaveStage::Probe, _) => StepView::Continue(self),
                (_, StoreReplyView::Done(Ok(_))) => SaveView::done(settings, stage),
                (_, StoreReplyView::Done(Err(failure))) => StepView::Finish(Err(failure)),
                _ => StepView::Continue(self),
            },
        }
    }
}

#[derive(Debug)]
enum Save {
    Reading { profile: RepositoryProfile },
    Replacing { settings: StoredSettings, stage: SaveStage },
}

/// The saving of a profile. The new settings are written to a file of their own, which then takes
/// the place of the old one.
#[derive(Debug)]
pub struct ProfileSave {
    save: Save,
}

impl View for ProfileSave {
    type V = SaveView;

    closed spec fn view(&self) -> SaveView {
        match self.save {
            Save::Reading { profile } => SaveView::Reading { profile: profile@ },
            Save::Replacing { settings, stage } => SaveView::Replacing {
                settings: settings@,
                stage,
            },
        }
    }
}

/// Starts to save a profile, whose provider becomes the selected one.
pub fn save_profile(profile: &RepositoryProfile) -> (r: ProfileSave)
    ensures
        r@ == (SaveView::Reading { profile: profile@ }),
{
    ProfileSave { save: Save::Reading { profile: profile.clone() } }
}

impl ProfileSave {
    /// The pending request.
    pub fn request(&self) -> (r: StoreRequest)
        ensures
            r@ == self@.request(),
    {
        match &self.save {
            Save::Reading { profile } => ask_settings(),
            Save::Replacing { settings, stage } => match stage {
                SaveStage::Locate => StoreRequest::Locate,
                SaveStage::CreateFolder => StoreRequest::CreateFolder,
                SaveStage::Write => StoreRequest::Write {
                    file: "settings.json.tmp".to_owned(),
                    settings: settings.clone(),
                },
                SaveStage::Probe => StoreRequest::Probe { file: "settings.json".to_owned() },
                SaveStage::Remove => StoreRequest::Remove { file: "settings.json".to_owned() },
                SaveStage::Rename => StoreRequest::Rename {
                    from: "settings.json.tmp".to_owned(),
                    to: "settings.json".to_owned(),
                },
            },
        }
    }

    /// Goes on with the reply to the pending request.
    pub fn resume(self, reply: StoreReply) -> (r: Step<ProfileSave, ()>)
        ensures
            r@ == self@.resume(reply@),
    {
        match self.save {
            Save::Reading { profile } => match reply {
                StoreReply::Settings(file) => match load_settings(file) {
                    Ok(mut settings) => {
                        settings.store(&profile);
                        replacing(settings, SaveStage::Locate)
                    },
                    Err(error) => Step::Finish(Err(error)),
                },
                _ => Step::Continue(ProfileSave { save: Save::Reading { profile } }),
            },
            Save::Replacing { settings, stage } => match (stage, reply) {
                (SaveStage::Locate, StoreReply::Located(None)) => replacing(
                    settings,
                    SaveStage::CreateFolder,
                ),
                (SaveStage::Locate, StoreReply::Located(Some(reason))) => Step::Finish(
                    Err(no_folder(reason.as_str())),
                ),
                (SaveStage::Locate, _) => replacing(settings, stage),
                (SaveStage::Probe, StoreReply::Exists(answer)) => if answer {
                    replacing(settings, SaveStage::Remove)
                } else {
                    replacing(settings, SaveStage::Rename)
                },
                (SaveStage::Probe, _) => replacing(settings, stage),
                (_, StoreReply::Done(Ok(_))) => match stage {
                    SaveStage::CreateFolder => replacing(settings, SaveStage::Write),
                    SaveStage::Write => replacing(settings, SaveStage::Probe),
                    SaveStage::Remove => replacing(settings, SaveStage::Rename),
                    SaveStage::Rename => Step::Finish(Ok(())),
                    _ => replacing(settings, stage),
                },
                (_, StoreReply::Done(Err(error))) => Step::Finish(Err(error)),
                _ => replacing(settings, stage),
            },
        }
    }
}

fn replacing(settings: StoredSettings, stage: SaveStage) -> (r: Step<ProfileSave, ()>)
    ensures
        r@ == SaveStep::Continue(SaveView::Replacing { settings: settings@, stage }),
{
    Step::Continue(ProfileSave { save: Save::Replacing { settings, stage } })
}

// ---------------------------------------------------------------------------------------------
// Laws
// ---------------------------------------------------------------------------------------------
proof fn lemma_of_provider(entries: Entries, provider: Provider)
    ensures
        forall|i: int|
            0 <= i < of_provider(entries, provider).len() ==> (#[trigger] of_provider(
                entries,
                provider,
            )[i]).provider == provider,
    decreases entries.len(),
{
    if entries.len() > 0 {
        lemma_of_provider(entries.drop_last(), provider);
    }
}

proof fn lemma_by_provider(entries: Entries)
    ensures
        by_provider(entries).to_multiset() == entries.map_values(
            |entry: (Seq<char>, ProfileView)| entry.1,
        ).to_multiset(),
    decreases entries.len(),
{
    broadcast use vstd::seq_lib::group_to_multiset_ensures;

    let value = |entry: (Seq<char>, ProfileView)| entry.1;
    if entries.len() == 0 {
        assert(by_provider(entries) =~= Seq::<ProfileView>::empty());
        assert(entries.map_values(value) =~= Seq::<ProfileView>::empty());
    } else {
        let before = entries.drop_last();
        let last = entries.last().1;
        lemma_by_provider(before);
        let github = of_provider(before, Provider::Github);
        let gitlab = of_provider(before, Provider::Gitlab);
        assert(entries.map_values(value) =~= before.map_values(value).push(last));
        vstd::seq_lib::lemma_multiset_commutative(github, gitlab);
        match last.provider {
            Provider::Github => {
                vstd::seq_lib::lemma_multiset_commutative(github.push(last), gitlab);
                assert(by_provider(entries) =~= github.push(last) + gitlab);
            },
            Provider::Gitlab => {
                vstd::seq_lib::lemma_multiset_commutative(github, gitlab.push(last));
                assert(by_provider(entries) =~= github + gitlab.push(last));
            },
        }
        assert(by_provider(entries).to_multiset() =~= by_provider(before).to_multiset().insert(
            last,
        ));
    }
}

/// The user interface gets every stored profile once, and those for GitHub before those for GitLab.
pub proof fn bootstraps_list_every_profile(entries: Entries)
    ensures
        by_provider(entries).to_multiset() == entries.map_values(
            |entry: (Seq<char>, ProfileView)| entry.1,
        ).to_multiset(),
        forall|i: int, j: int|
            0 <= i < j < by_provider(entries).len() ==> ((#[trigger] by_provider(
                entries,
            )[i]).provider == Provider::Gitlab ==> (#[trigger] by_provider(entries)[j]).provider
                == Provider::Gitlab),
{
    lemma_by_provider(entries);
    lemma_of_provider(entries, Provider::Github);
    lemma_of_provider(entries, Provider::Gitlab);
}

/// The settings are the procedure's result as they were read, and a provider counts as one whose
/// token is known exactly where the credential store has it.
pub proof fn bootstraps_tell_what_is_kept(
    settings: SettingsView,
    github: TokenLookupView,
    gitlab: TokenLookupView,
)
    requires
        github is Missing || github is Found,
        gitlab is Missing || gitlab is Found,
    ensures
        ({
            let first = BootstrapStageView::Settings.resume(
                StoreReplyView::Settings(SettingsFileView::Read(settings)),
            );
            &&& first matches StepView::Continue(second)
            &&& second.resume(StoreReplyView::Token(github)) matches StepView::Continue(third)
            &&& third.resume(StoreReplyView::Token(gitlab)) matches StepView::Finish(Ok(result))
            &&& result.selected_provider == settings.selected_provider
            &&& result.profiles == by_provider(settings.profiles)
            &&& result.token_providers.contains(Provider::Github) == (github is Found)
            &&& result.token_providers.contains(Provider::Gitlab) == (gitlab is Found)
            &&& result.token_providers.no_duplicates()
        }),
{
    let none = Seq::<Provider>::empty();
    let some = none.push(Provider::Github);
    assert(some[0] == Provider::Github);
    assert(none.push(Provider::Gitlab)[0] == Provider::Gitlab);
    assert(some.push(Provider::Gitlab)[0] == Provider::Github);
    assert(some.push(Provider::Gitlab)[1] == Provider::Gitlab);
}

/// The tokens in the credential store, by their places.
pub type Tokens = Map<EntryView, Seq<char>>;

/// The tokens once a request has been carried out.
pub open spec fn tokens_after(tokens: Tokens, request: StoreRequestView) -> Tokens {
    match request {
        StoreRequestView::SaveToken { entry, token } => tokens.insert(entry, token),
        _ => tokens,
    }
}

/// What the credential store says of the place of a provider's token.
pub open spec fn token_lookup(tokens: Tokens, provider: Provider) -> TokenLookupView {
    if tokens.contains_key(token_entry(provider)) {
        TokenLookupView::Found(tokens[token_entry(provider)])
    } else {
        TokenLookupView::Missing
    }
}

/// A token that was saved for a provider is the one that is loaded for it, and that of the other
/// provider is what it was.
pub proof fn saved_tokens_are_read_back(
    tokens: Tokens,
    provider: Provider,
    token: Seq<char>,
    other: Provider,
)
    ensures
        ({
            let request = StoreRequestView::SaveToken { entry: token_entry(provider), token };
            let after = tokens_after(tokens, request);
            &&& token_loaded(provider, token_lookup(after, provider)) == Ok::<
                Option<Seq<char>>,
                Failure,
            >(Some(token))
            &&& other != provider ==> token_lookup(after, other) == token_lookup(tokens, other)
        }),
{
    token_entries_differ(provider, other);
}

/// The files in the folder of the settings, by their names.
pub type Files = Map<Seq<char>, SettingsView>;

/// The files once a request has been carried out.
pub open spec fn performed(files: Files, request: StoreRequestView) -> Files {
    match request {
        StoreRequestView::Write { file, settings } => files.insert(file, settings),
        StoreRequestView::Remove { file } => files.remove(file),
        StoreRequestView::Rename { from, to } => files.insert(to, files[from]).remove(from),
        _ => files,
    }
}

/// The reply to a request that can be carried out.
pub open spec fn file_reply(files: Files, request: StoreRequestView) -> StoreReplyView {
    match request {
        StoreRequestView::ReadSettings { file } => StoreReplyView::Settings(
            if files.contains_key(file) {
                SettingsFileView::Read(files[file])
            } else {
                SettingsFileView::Missing
            },
        ),
        StoreRequestView::Locate => StoreReplyView::Located(None),
        StoreRequestView::Probe { file } => StoreReplyView::Exists(files.contains_key(file)),
        _ => StoreReplyView::Done(Ok(())),
    }
}

/// The settings that are in the file of the settings.
pub open spec fn kept(files: Files) -> Result<SettingsView, Failure> {
    settings_loaded(
        if files.contains_key(settings_file()) {
            SettingsFileView::Read(files[settings_file()])
        } else {
            SettingsFileView::Missing
        },
    )
}

impl SaveView {
    /// How many requests are still to be made, at most.
    pub open spec fn remaining(self) -> nat {
        match self {
            SaveView::Reading { profile } => 7,
            SaveView::Replacing { settings, stage } => match stage {
                SaveStage::Locate => 6,
                SaveStage::CreateFolder => 5,
                SaveStage::Write => 4,
                SaveStage::Probe => 3,
                SaveStage::Remove => 2,
                SaveStage::Rename => 1,
            },
        }
    }
}

/// The result of the procedure, and the files that it leaves behind, where every request is carried
/// out.
pub open spec fn save_run(save: SaveView, files: Files) -> (Result<(), Failure>, Files)
    decreases save.remaining(),
{
    let request = save.request();
    match save.resume(file_reply(files, request)) {
        StepView::Continue(next) => save_run(next, performed(files, request)),
        StepView::Finish(result) => (result, performed(files, request)),
    }
}

proof fn lemma_file_names_differ()
    ensures
        settings_file() != temporary_file(),
{
    reveal_strlit("settings.json");
    reveal_strlit("settings.json.tmp");
    assert(settings_file().len() != temporary_file().len());
}

/// A profile that was saved is read back: the settings are those that were there, with the profile
/// in them, its provider is the selected one, and its file is the only one that has changed.
pub proof fn saved_profiles_are_read_back(profile: ProfileView, files: Files)
    ensures
        ({
            let (result, after) = save_run(SaveView::Reading { profile }, files);
            &&& result == Ok::<(), Failure>(())
            &&& kept(files) matches Ok(before)
            &&& kept(after) == Ok::<SettingsView, Failure>(before.with_profile(profile))
            &&& before.with_profile(profile).selected() == Some(profile)
            &&& !after.contains_key(temporary_file())
            &&& after.remove(settings_file()) == files.remove(settings_file()).remove(
                temporary_file(),
            )
        }),
{
    lemma_file_names_differ();
    let before = kept(files)->Ok_0;
    let settings = before.with_profile(profile);
    saved_profiles_are_selected(before, profile, profile.provider);
    let written = files.insert(temporary_file(), settings);
    let cleared = written.remove(settings_file());
    let after = save_run(SaveView::Reading { profile }, files).1;
    reveal_with_fuel(save_run, 7);
    if files.contains_key(settings_file()) {
        let renamed = cleared.insert(settings_file(), settings).remove(temporary_file());
        assert(after == renamed);
    } else {
        let renamed = written.insert(settings_file(), settings).remove(temporary_file());
        assert(after == renamed);
    }
    assert(after.remove(settings_file()) =~= files.remove(settings_file()).remove(
        temporary_file(),
    ));
}

/// The reply says that the request could not be carried out.
pub open spec fn failed(reply: StoreReplyView) -> bool {
    match reply {
        StoreReplyView::Settings(file) => file is Unlocated || file is Failed,
        StoreReplyView::Located(reason) => reason is Some,
        StoreReplyView::Done(result) => result is Err,
        _ => false,
    }
}

/// What a request may make of the files, when it gets this reply. One that could not be carried out
/// changes nothing, but that what is left of a file that was to be written is uncertain.
pub open spec fn leads_to(
    files: Files,
    request: StoreRequestView,
    reply: StoreReplyView,
    after: Files,
) -> bool {
    if failed(reply) {
        match request {
            StoreRequestView::Write { file, settings } => after.remove(file) == files.remove(file),
            _ => after == files,
        }
    } else {
        reply == file_reply(files, request) && after == performed(files, request)
    }
}

impl SaveView {
    /// Until they have been written in full, the new settings leave the old ones, `before`, alone;
    /// from then on they are in the temporary file.
    pub open spec fn safe(self, before: Files, files: Files) -> bool {
        match self {
            SaveView::Reading { profile } => kept(files) == kept(before),
            SaveView::Replacing { settings, stage } => {
                &&& stage != SaveStage::Rename ==> kept(files) == kept(before)
                &&& stage == SaveStage::Probe || stage == SaveStage::Remove || stage
                    == SaveStage::Rename ==> files.contains_key(temporary_file())
                    && files[temporary_file()] == settings
            },
        }
    }
}

/// Saving starts with the settings as they are.
pub proof fn saving_starts_safe(profile: ProfileView, files: Files)
    ensures
        (SaveView::Reading { profile }).safe(files, files),
{
}

/// Settings are never lost. Whatever fails, the old ones are still in their file, or the new ones
/// are complete in the temporary file; and where saving succeeds, the new ones are in their file.
pub proof fn settings_are_never_lost(
    save: SaveView,
    before: Files,
    files: Files,
    reply: StoreReplyView,
    after: Files,
)
    requires
        save.safe(before, files),
        leads_to(files, save.request(), reply, after),
    ensures
        match save.resume(reply) {
            StepView::Continue(next) => next.safe(before, after),
            StepView::Finish(Ok(_)) => save matches SaveView::Replacing { settings, stage }
                && kept(after) == Ok::<SettingsView, Failure>(settings),
            StepView::Finish(Err(_)) => kept(after) == kept(before) || (save matches
                SaveView::Replacing { settings, stage } && after.contains_key(temporary_file())
                && after[temporary_file()] == settings),
        },
{
    lemma_file_names_differ();
    if save matches SaveView::Replacing { settings, stage } && stage == SaveStage::Write && failed(
        reply,
    ) {
        let file = settings_file();
        assert(after.remove(temporary_file()).contains_key(file) == files.remove(
            temporary_file(),
        ).contains_key(file));
        assert(after.remove(temporary_file())[file] == files.remove(temporary_file())[file]);
        assert(kept(after) == kept(files));
    }
}

// ---------------------------------------------------------------------------------------------
// What is kept, and how it is reported
// ---------------------------------------------------------------------------------------------
/// A token is kept under the application's name and that of the provider. One that was found is given
/// back as it is; one that is missing is none; and what went wrong is reported with the reason.
pub proof fn tokens_are_kept_by_provider(provider: Provider, token: Seq<char>, reason: Seq<char>)
    ensures
        ({
            let name = match provider {
                Provider::Github => "GitHub"@,
                Provider::Gitlab => "GitLab"@,
            };
            let entry = EntryView {
                service: "com.gitpic.crossplatform"@,
                account: match provider {
                    Provider::Github => "github"@,
                    Provider::Gitlab => "gitlab"@,
                },
            };
            let unavailable = Failure::Message(
                "The operating system credential store is unavailable: "@ + reason,
            );
            &&& read_token(provider) == (StoreRequestView::ReadToken { entry })
            &&& token_entry(provider) == entry
            &&& token_loaded(provider, TokenLookupView::Found(token)) == Ok::<
                Option<Seq<char>>,
                Failure,
            >(Some(token))
            &&& token_loaded(provider, TokenLookupView::Missing) == Ok::<Option<Seq<char>>, Failure>(
                None,
            )
            &&& token_loaded(provider, TokenLookupView::Unavailable(reason)) == Err::<
                Option<Seq<char>>,
                Failure,
            >(unavailable)
            &&& token_loaded(provider, TokenLookupView::Failed(reason)) == Err::<
                Option<Seq<char>>,
                Failure,
            >(
                Failure::Message(
                    "Could not read the "@ + name
                        + " token from the operating system credential store: "@ + reason,
                ),
            )
            &&& token_saved(provider, TokenSaveView::Saved) == Ok::<(), Failure>(())
            &&& token_saved(provider, TokenSaveView::Unavailable(reason)) == Err::<(), Failure>(
                unavailable,
            )
            &&& token_saved(provider, TokenSaveView::Failed(reason)) == Err::<(), Failure>(
                Failure::Message(
                    "Could not save the "@ + name
                        + " token in the operating system credential store: "@ + reason,
                ),
            )
        }),
{
}

/// The settings are those of their file. Without a file they are those of a first start; a folder that
/// cannot be located and a file that cannot be read are reported.
pub proof fn settings_are_those_of_their_file(
    settings: SettingsView,
    reason: Seq<char>,
    failure: Failure,
)
    ensures
        read_settings() == (StoreRequestView::ReadSettings { file: "settings.json"@ }),
        settings_loaded(SettingsFileView::Read(settings)) == Ok::<SettingsView, Failure>(settings),
        settings_loaded(SettingsFileView::Missing) matches Ok(initial) && initial.selected_provider
            == Provider::Github && initial.profiles.len() == 0,
        settings_loaded(SettingsFileView::Failed(failure)) == Err::<SettingsView, Failure>(failure),
        settings_loaded(SettingsFileView::Unlocated(reason)) == Err::<SettingsView, Failure>(
            Failure::Message("Could not locate the app settings folder: "@ + reason),
        ),
{
}

/// The user interface lists the profiles of GitHub before those of GitLab, and those of one provider in
/// the order of their keys: a profile with a further key comes last among those of its provider, and
/// the others stay where they are.
pub proof fn profiles_are_listed_by_provider(entries: Entries, entry: (Seq<char>, ProfileView))
    ensures
        by_provider(Seq::empty()).len() == 0,
        exists|github: Seq<ProfileView>, gitlab: Seq<ProfileView>|
            {
                &&& by_provider(entries) == #[trigger] (github + gitlab)
                &&& forall|i: int|
                    0 <= i < github.len() ==> (#[trigger] github[i]).provider == Provider::Github
                &&& forall|i: int|
                    0 <= i < gitlab.len() ==> (#[trigger] gitlab[i]).provider == Provider::Gitlab
                &&& entry.1.provider == Provider::Github ==> by_provider(entries.push(entry))
                    == github.push(entry.1) + gitlab
                &&& entry.1.provider == Provider::Gitlab ==> by_provider(entries.push(entry))
                    == github + gitlab.push(entry.1)
            },
{
    let github = of_provider(entries, Provider::Github);
    let gitlab = of_provider(entries, Provider::Gitlab);
    lemma_of_provider(entries, Provider::Github);
    lemma_of_provider(entries, Provider::Gitlab);
    assert(entries.push(entry).drop_last() =~= entries);
    assert(by_provider(entries) == github + gitlab);
}

/// What the user interface needs is collected from the settings and from the two places of the tokens,
/// GitHub's first; whatever cannot be read is reported.
pub proof fn bootstraps_report_what_cannot_be_read(
    file: SettingsFileView,
    settings: SettingsView,
    provider: Provider,
    known: Seq<Provider>,
    lookup: TokenLookupView,
)
    ensures
        BootstrapStageView::Settings.request() == (StoreRequestView::ReadSettings {
            file: "settings.json"@,
        }),
        match settings_loaded(file) {
            Ok(loaded) => {
                &&& BootstrapStageView::Settings.resume(StoreReplyView::Settings(file))
                    matches StepView::Continue(next)
                &&& next.request() == (StoreRequestView::ReadToken {
                    entry: EntryView {
                        service: "com.gitpic.crossplatform"@,
                        account: "github"@,
                    },
                })
                &&& next == (BootstrapStageView::Token {
                    settings: loaded,
                    provider: Provider::Github,
                    known: Seq::empty(),
                })
            },
            Err(failure) => BootstrapStageView::Settings.resume(StoreReplyView::Settings(file))
                == BootstrapStep::Finish(Err(failure)),
        },
        token_loaded(provider, lookup) matches Err(failure) ==> (BootstrapStageView::Token {
            settings,
            provider,
            known,
        }).resume(StoreReplyView::Token(lookup)) == BootstrapStep::Finish(Err(failure)),
        (BootstrapStageView::Token { settings, provider: Provider::Github, known }).resume(
            StoreReplyView::Token(TokenLookupView::Missing),
        ) == BootstrapStep::Continue(
            BootstrapStageView::Token { settings, provider: Provider::Gitlab, known },
        ),
        (BootstrapStageView::Token { settings, provider: Provider::Gitlab, known }).request()
            == (StoreRequestView::ReadToken {
            entry: EntryView { service: "com.gitpic.crossplatform"@, account: "gitlab"@ },
        }),
{
}

/// A profile is saved in this order: the settings are read, their folder is located and created, the
/// new settings are written to a file of their own, the old file is removed if it is there, and the new
/// one takes its name. The first failure ends it, as it was.
pub proof fn settings_are_replaced_in_order(
    profile: ProfileView,
    settings: SettingsView,
    failure: Failure,
    reason: Seq<char>,
    present: bool,
)
    ensures
        ({
            let reading = SaveView::Reading { profile };
            let locating = SaveView::Replacing {
                settings: settings.with_profile(profile),
                stage: SaveStage::Locate,
            };
            let creating = SaveView::Replacing { settings, stage: SaveStage::CreateFolder };
            let writing = SaveView::Replacing { settings, stage: SaveStage::Write };
            let probing = SaveView::Replacing { settings, stage: SaveStage::Probe };
            let removing = SaveView::Replacing { settings, stage: SaveStage::Remove };
            let renaming = SaveView::Replacing { settings, stage: SaveStage::Rename };
            let done = StoreReplyView::Done(Ok(()));
            let failed = StoreReplyView::Done(Err(failure));
            &&& reading.request() == (StoreRequestView::ReadSettings { file: "settings.json"@ })
            &&& reading.resume(StoreReplyView::Settings(SettingsFileView::Read(settings)))
                == SaveStep::Continue(locating)
            &&& reading.resume(StoreReplyView::Settings(SettingsFileView::Failed(failure)))
                == SaveStep::Finish(Err(failure))
            &&& locating.request() == StoreRequestView::Locate
            &&& locating.resume(StoreReplyView::Located(Some(reason))) == SaveStep::Finish(
                Err(Failure::Message("Could not locate the app settings folder: "@ + reason)),
            )
            &&& (SaveView::Replacing { settings, stage: SaveStage::Locate }).resume(
                StoreReplyView::Located(None),
            ) == SaveStep::Continue(creating)
            &&& creating.request() == StoreRequestView::CreateFolder
            &&& creating.resume(done) == SaveStep::Continue(writing)
            &&& writing.request() == (StoreRequestView::Write {
                file: "settings.json.tmp"@,
                settings,
            })
            &&& writing.resume(done) == SaveStep::Continue(probing)
            &&& probing.request() == (StoreRequestView::Probe { file: "settings.json"@ })
            &&& probing.resume(StoreReplyView::Exists(present)) == SaveStep::Continue(
                if present {
                    removing
                } else {
                    renaming
                },
            )
            &&& removing.request() == (StoreRequestView::Remove { file: "settings.json"@ })
            &&& removing.resume(done) == SaveStep::Continue(renaming)
            &&& renaming.request() == (StoreRequestView::Rename {
                from: "settings.json.tmp"@,
                to: "settings.json"@,
            })
            &&& renaming.resume(done) == SaveStep::Finish(Ok(()))
            &&& creating.resume(failed) == SaveStep::Finish(Err(failure))
            &&& writing.resume(failed) == SaveStep::Finish(Err(failure))
            &&& removing.resume(failed) == SaveStep::Finish(Err(failure))
            &&& renaming.resume(failed) == SaveStep::Finish(Err(failure))
        }),
{
}

/// A reply that is not of the kind that the pending request asks for has no effect.
pub proof fn other_replies_have_no_effect(
    bootstrap: BootstrapStageView,
    save: SaveView,
    reply: StoreReplyView,
)
    ensures
        !(match bootstrap.request() {
            StoreRequestView::ReadSettings { file } => reply is Settings,
            _ => reply is Token,
        }) ==> bootstrap.resume(reply) == BootstrapStep::Continue(bootstrap),
        !(match save.request() {
            StoreRequestView::ReadSettings { file } => reply is Settings,
            StoreRequestView::Locate => reply is Located,
            StoreRequestView::Probe { file } => reply is Exists,
            _ => reply is Done,
        }) ==> save.resume(reply) == SaveStep::Continue(save),
{
}

} // verus!

//! The values that the application works on: providers, repository profiles, stored settings,
//! credentials, repositories, upload results and errors.
use vstd::prelude::*;

use crate::text::{alphanumeric, chars_of, is_alphanumeric, is_name_char, is_white_space, name_char};
use crate::text::{comes_before, lemma_precedes_irreflexive, lemma_precedes_total};
use crate::text::{lemma_precedes_transitive, precedes, same, trim, trimmed, trimming_is_idempotent};
use crate::text::{trimming_empties_blank_texts_alone, trimming_removes_white_space_alone};

verus! {

// ---------------------------------------------------------------------------------------------
// Errors
// ---------------------------------------------------------------------------------------------
/// Why an operation failed. The variants other than `Message` hold the words of the failed file
/// operation, JSON parse or network request.
#[derive(Debug)]
pub enum AppError {
    Message(String),
    Io(String),
    Json(String),
    Http(String),
}

/// The model of an [`AppError`].
#[verifier::ext_equal]
pub enum Failure {
    Message(Seq<char>),
    Io(Seq<char>),
    Json(Seq<char>),
    Http(Seq<char>),
}

impl View for AppError {
    type V = Failure;

    open spec fn view(&self) -> Failure {
        match self {
            AppError::Message(detail) => Failure::Message(detail@),
            AppError::Io(detail) => Failure::Io(detail@),
            AppError::Json(detail) => Failure::Json(detail@),
            AppError::Http(detail) => Failure::Http(detail@),
        }
    }
}

impl Failure {
    /// The words in which a failure is reported to the user.
    pub open spec fn text(self) -> Seq<char> {
        match self {
            Failure::Message(detail) => detail,
            Failure::Io(detail) => "File operation failed: "@ + detail,
            Failure::Json(detail) => "Saved settings are invalid: "@ + detail,
            Failure::Http(detail) => "Network request failed: "@ + detail,
        }
    }
}

impl AppError {
    /// An error that is reported in the given words.
    pub fn message(message: &str) -> (r: AppError)
        ensures
            r@ == Failure::Message(message@),
    {
        AppError::Message(message.to_owned())
    }

    /// The words in which the error is reported to the user.
    pub fn text(&self) -> (r: String)
        ensures
            r@ == self@.text(),
    {
        match self {
            AppError::Message(detail) => detail.clone(),
            AppError::Io(detail) => "File operation failed: ".to_owned().concat(detail.as_str()),
            AppError::Json(detail) => "Saved settings are invalid: ".to_owned().concat(
                detail.as_str(),
            ),
            AppError::Http(detail) => "Network request failed: ".to_owned().concat(
                detail.as_str(),
            ),
        }
    }
}

impl Clone for AppError {
    fn clone(&self) -> (r: AppError)
        ensures
            r@ == self@,
    {
        match self {
            AppError::Message(detail) => AppError::Message(detail.clone()),
            AppError::Io(detail) => AppError::Io(detail.clone()),
            AppError::Json(detail) => AppError::Json(detail.clone()),
            AppError::Http(detail) => AppError::Http(detail.clone()),
        }
    }
}

/// What an operation of the application returns.
pub type AppResult<T> = Result<T, AppError>;

/// The model of a result: the models of its value and of its error.
pub open spec fn outcome<T: View>(r: AppResult<T>) -> Result<T::V, Failure> {
    match r {
        Ok(value) => Ok(value@),
        Err(error) => Err(error@),
    }
}

// ---------------------------------------------------------------------------------------------
// Providers
// ---------------------------------------------------------------------------------------------
/// A service that hosts repositories.
#[derive(Clone, Copy, Debug, PartialEq, Eq, Structural, PartialOrd, Ord, Hash)]
pub enum Provider {
    Github,
    Gitlab,
}

impl Default for Provider {
    fn default() -> (r: Provider)
        ensures
            r == Provider::Github,
    {
        Provider::Github
    }
}

impl Provider {
    /// The key under which a provider's profile and token are kept.
    pub open spec fn spec_key(self) -> Seq<char> {
        match self {
            Provider::Github => "github"@,
            Provider::Gitlab => "gitlab"@,
        }
    }

    /// The provider's name as users know it.
    pub open spec fn spec_display_name(self) -> Seq<char> {
        match self {
            Provider::Github => "GitHub"@,
            Provider::Gitlab => "GitLab"@,
        }
    }

    /// The provider's host name.
    pub open spec fn spec_host(self) -> Seq<char> {
        match self {
            Provider::Github => "github.com"@,
            Provider::Gitlab => "gitlab.com"@,
        }
    }

    /// The key under which a provider's profile and token are kept.
    pub fn key(self) -> (r: &'static str)
        ensures
            r@ == self.spec_key(),
    {
        match self {
            Provider::Github => "github",
            Provider::Gitlab => "gitlab",
        }
    }

    /// The provider's name as users know it.
    pub fn display_name(self) -> (r: &'static str)
        ensures
            r@ == self.spec_display_name(),
    {
        match self {
            Provider::Github => "GitHub",
            Provider::Gitlab => "GitLab",
        }
    }

    /// The provider's host name.
    pub fn host(self) -> (r: &'static str)
        ensures
            r@ == self.spec_host(),
    {
        match self {
            Provider::Github => "github.com",
            Provider::Gitlab => "gitlab.com",
        }
    }
}

/// Different providers have different keys, so that neither overwrites what the other has stored.
pub proof fn provider_keys_differ(a: Provider, b: Provider)
    ensures
        a.spec_key() == b.spec_key() ==> a == b,
{
    reveal_strlit("github");
    reveal_strlit("gitlab");
    assert("github"@[3] != "gitlab"@[3]);
}

/// Who may see a repository.
#[derive(Clone, Copy, Debug, PartialEq, Eq, Structural)]
pub enum Visibility {
    Private,
    Public,
}

impl Default for Visibility {
    fn default() -> (r: Visibility)
        ensures
            r == Visibility::Private,
    {
        Visibility::Private
    }
}

// ---------------------------------------------------------------------------------------------
// Repository profiles
// ---------------------------------------------------------------------------------------------
/// The account and the repository that a user set up for a provider.
#[derive(Debug)]
pub struct RepositoryProfile {
    pub provider: Provider,
    pub username: String,
    pub repository_name: String,
    pub visibility: Visibility,
}

/// The model of a [`RepositoryProfile`].
#[verifier::ext_equal]
pub struct ProfileView {
    pub provider: Provider,
    pub username: Seq<char>,
    pub repository_name: Seq<char>,
    pub visibility: Visibility,
}

impl View for RepositoryProfile {
    type V = ProfileView;

    open spec fn view(&self) -> ProfileView {
        ProfileView {
            provider: self.provider,
            username: self.username@,
            repository_name: self.repository_name@,
            visibility: self.visibility,
        }
    }
}

impl Clone for RepositoryProfile {
    fn clone(&self) -> (r: RepositoryProfile)
        ensures
            r@ == self@,
    {
        RepositoryProfile {
            provider: self.provider,
            username: self.username.clone(),
            repository_name: self.repository_name.clone(),
            visibility: self.visibility,
        }
    }
}

impl vstd::std_specs::cmp::PartialEqSpecImpl for RepositoryProfile {
    open spec fn obeys_eq_spec() -> bool {
        true
    }

    open spec fn eq_spec(&self, other: &RepositoryProfile) -> bool {
        self@ == other@
    }
}

impl PartialEq for RepositoryProfile {
    fn eq(&self, other: &RepositoryProfile) -> (r: bool) {
        self.provider == other.provider && self.username == other.username && self.repository_name
            == other.repository_name && self.visibility == other.visibility
    }
}

impl Eq for RepositoryProfile {

}

/// The longest repository name that is accepted.
pub const LONGEST_NAME: usize = 100;

/// A repository name: it starts with a letter or a digit and goes on with letters, digits,
/// periods, hyphens and underscores.
pub open spec fn is_repository_name(name: Seq<char>) -> bool {
    &&& 0 < name.len() <= LONGEST_NAME
    &&& is_alphanumeric(name[0])
    &&& forall|i: int| 0 <= i < name.len() ==> is_name_char(#[trigger] name[i])
}

impl ProfileView {
    /// The profile without the white space around its texts.
    pub open spec fn normal(self) -> ProfileView {
        ProfileView {
            username: trimmed(self.username),
            repository_name: trimmed(self.repository_name),
            ..self
        }
    }

    /// Whether the profile can be used, and the first reason why not.
    pub open spec fn validity(self) -> Result<(), Failure> {
        if trimmed(self.username).len() == 0 {
            Err(
                Failure::Message(
                    "Enter the username associated with the personal access token."@,
                ),
            )
        } else if !is_repository_name(trimmed(self.repository_name)) {
            Err(
                Failure::Message(
                    "Repository names must start with a letter or number and contain only letters, numbers, periods, hyphens, or underscores."@,
                ),
            )
        } else {
            Ok(())
        }
    }
}

fn repository_name_ok(name: &str) -> (r: bool)
    ensures
        r == is_repository_name(name@),
{
    let v = chars_of(name);
    if v.len() == 0 || v.len() > LONGEST_NAME || !alphanumeric(v[0]) {
        return false;
    }
    let mut i: usize = 0;
    while i < v.len()
        invariant
            i <= v.len(),
            v@ == name@,
            forall|k: int| 0 <= k < i ==> is_name_char(#[trigger] v@[k]),
        decreases v.len() - i,
    {
        if !name_char(v[i]) {
            return false;
        }
        i = i + 1;
    }
    true
}

impl RepositoryProfile {
    /// The profile without the white space around its texts.
    pub fn normalized(&self) -> (r: RepositoryProfile)
        ensures
            r@ == self@.normal(),
    {
        RepositoryProfile {
            provider: self.provider,
            username: trim(self.username.as_str()).to_owned(),
            repository_name: trim(self.repository_name.as_str()).to_owned(),
            visibility: self.visibility,
        }
    }

    /// Accepts a profile that names a user and has a well-formed repository name.
    pub fn validate(&self) -> (r: AppResult<()>)
        ensures
            outcome(r) == self@.validity(),
    {
        if trim(self.username.as_str()).is_empty() {
            return Err(
                AppError::message("Enter the username associated with the personal access token."),
            );
        }
        if !repository_name_ok(trim(self.repository_name.as_str())) {
            return Err(
                AppError::message(
                    "Repository names must start with a letter or number and contain only letters, numbers, periods, hyphens, or underscores.",
                ),
            );
        }
        Ok(())
    }
}

// ---------------------------------------------------------------------------------------------
// Stored settings
// ---------------------------------------------------------------------------------------------
/// Stored profiles, each with the key that it is stored under.
pub type Entries = Seq<(Seq<char>, ProfileView)>;

/// No key comes twice, and the keys are in the order of texts.
pub open spec fn ordered(entries: Entries) -> bool {
    forall|i: int, j: int|
        0 <= i < j < entries.len() ==> precedes(#[trigger] entries[i].0, #[trigger] entries[j].0)
}

/// The profile under a key.
pub open spec fn stored(entries: Entries, key: Seq<char>) -> Option<ProfileView>
    decreases entries.len(),
{
    if entries.len() == 0 {
        None
    } else if entries[0].0 == key {
        Some(entries[0].1)
    } else {
        stored(entries.drop_first(), key)
    }
}

/// The entries once a profile has been stored under a key. It takes the place of the one that was
/// there.
pub open spec fn storing(entries: Entries, key: Seq<char>, profile: ProfileView) -> Entries
    decreases entries.len(),
{
    if entries.len() == 0 {
        seq![(key, profile)]
    } else if entries[0].0 == key {
        seq![(key, profile)] + entries.drop_first()
    } else if precedes(key, entries[0].0) {
        seq![(key, profile)] + entries
    } else {
        seq![entries[0]] + storing(entries.drop_first(), key, profile)
    }
}

/// What was stored last under a key is what is found under it, and nothing else has changed.
pub proof fn storing_is_read_back(
    entries: Entries,
    key: Seq<char>,
    profile: ProfileView,
    other: Seq<char>,
)
    ensures
        stored(storing(entries, key, profile), key) == Some(profile),
        other != key ==> stored(storing(entries, key, profile), other) == stored(entries, other),
    decreases entries.len(),
{
    let after = storing(entries, key, profile);
    if entries.len() == 0 {
        assert(after.drop_first() =~= entries);
    } else if entries[0].0 == key {
        assert(after.drop_first() =~= entries.drop_first());
    } else if precedes(key, entries[0].0) {
        assert(after.drop_first() =~= entries);
    } else {
        storing_is_read_back(entries.drop_first(), key, profile, other);
        assert(after.drop_first() =~= storing(entries.drop_first(), key, profile));
    }
}

proof fn lemma_storing(entries: Entries, key: Seq<char>, profile: ProfileView, at: int)
    requires
        ordered(entries),
        0 <= at <= entries.len(),
        forall|i: int| 0 <= i < at ==> precedes(#[trigger] entries[i].0, key),
        at < entries.len() ==> !precedes(entries[at].0, key),
    ensures
        storing(entries, key, profile) == entries.take(at) + seq![(key, profile)] + entries.skip(
            if at < entries.len() && entries[at].0 == key {
                at + 1
            } else {
                at
            },
        ),
        ordered(storing(entries, key, profile)),
    decreases entries.len(),
{
    let past = if at < entries.len() && entries[at].0 == key {
        at + 1
    } else {
        at
    };
    let after = entries.take(at) + seq![(key, profile)] + entries.skip(past);
    if entries.len() > 0 {
        if at == 0 {
            if entries[0].0 != key {
                lemma_precedes_total(key, entries[0].0);
            }
        } else {
            let rest = entries.drop_first();
            assert(precedes(entries[0].0, key));
            lemma_precedes_irreflexive(key);
            if precedes(key, entries[0].0) {
                lemma_precedes_transitive(key, entries[0].0, key);
            }
            lemma_storing(rest, key, profile, at - 1);
            assert(after =~= seq![entries[0]] + storing(rest, key, profile));
        }
    }
    assert(storing(entries, key, profile) =~= after);
    assert forall|i: int, j: int| 0 <= i < j < after.len() implies precedes(
        #[trigger] after[i].0,
        #[trigger] after[j].0,
    ) by {
        let shift = past - at - 1;
        if at < entries.len() && entries[at].0 != key {
            lemma_precedes_total(key, entries[at].0);
        }
        if j > at {
            assert(after[j] == entries[j + shift]);
            if at < j + shift && at < entries.len() {
                assert(precedes(entries[at].0, entries[j + shift].0));
            }
            if entries[at].0 != key && at < j + shift {
                lemma_precedes_transitive(key, entries[at].0, entries[j + shift].0);
            }
            if i > at {
                assert(after[i] == entries[i + shift]);
            } else if i < at {
                assert(after[i] == entries[i]);
            }
        } else {
            assert(after[i] == entries[i]);
            if j < at {
                assert(after[j] == entries[j]);
            }
        }
    }
}

proof fn place_of(entries: Entries, key: Seq<char>, from: int) -> (at: int)
    requires
        0 <= from <= entries.len(),
        forall|i: int| 0 <= i < from ==> precedes(#[trigger] entries[i].0, key),
    ensures
        0 <= at <= entries.len(),
        forall|i: int| 0 <= i < at ==> precedes(#[trigger] entries[i].0, key),
        at < entries.len() ==> !precedes(entries[at].0, key),
    decreases entries.len() - from,
{
    if from < entries.len() && precedes(entries[from].0, key) {
        place_of(entries, key, from + 1)
    } else {
        from
    }
}

/// Storing a profile leaves the keys in order, each of them once.
pub proof fn storing_keeps_order(entries: Entries, key: Seq<char>, profile: ProfileView)
    requires
        ordered(entries),
    ensures
        ordered(storing(entries, key, profile)),
{
    let at = place_of(entries, key, 0);
    lemma_storing(entries, key, profile, at);
}

spec fn entry_view(entry: (String, RepositoryProfile)) -> (Seq<char>, ProfileView) {
    (entry.0@, entry.1@)
}

/// The stored profiles, each under a key.
#[derive(Debug)]
pub struct Profiles {
    entries: Vec<(String, RepositoryProfile)>,
}

impl View for Profiles {
    type V = Entries;

    closed spec fn view(&self) -> Entries {
        self.entries@.map_values(|entry: (String, RepositoryProfile)| entry_view(entry))
    }
}

impl Profiles {
    #[verifier::type_invariant]
    closed spec fn inv(self) -> bool {
        ordered(self@)
    }

    /// No profiles.
    pub fn new() -> (r: Profiles)
        ensures
            r@ == Seq::<(Seq<char>, ProfileView)>::empty(),
    {
        let r = Profiles { entries: Vec::new() };
        assert(r@ =~= Seq::<(Seq<char>, ProfileView)>::empty());
        r
    }

    /// Stores a profile under a key, in the place of one that was there.
    pub fn insert(&mut self, key: &str, profile: RepositoryProfile)
        ensures
            final(self)@ == storing(old(self)@, key@, profile@),
    {
        proof {
            use_type_invariant(&*self);
        }
        let ghost before = self@;
        let mut entries: Vec<(String, RepositoryProfile)> = Vec::new();
        std::mem::swap(&mut entries, &mut self.entries);
        let mut at: usize = 0;
        while at < entries.len() && comes_before(entries[at].0.as_str(), key)
            invariant
                at <= entries.len(),
                entries@.map_values(|entry: (String, RepositoryProfile)| entry_view(entry))
                    == before,
                forall|i: int| 0 <= i < at ==> precedes(#[trigger] before[i].0, key@),
            decreases entries.len() - at,
        {
            assert(before[at as int].0 == entries@[at as int].0@);
            at = at + 1;
        }
        proof {
            if at < entries.len() {
                assert(before[at as int].0 == entries@[at as int].0@);
            }
            lemma_storing(before, key@, profile@, at as int);
        }
        if at < entries.len() && same(entries[at].0.as_str(), key) {
            entries.set(at, (key.to_owned(), profile));
        } else {
            entries.insert(at, (key.to_owned(), profile));
        }
        assert(entries@.map_values(|entry: (String, RepositoryProfile)| entry_view(entry))
            =~= storing(before, key@, profile@));
        self.entries = entries;
    }

    /// The profile under a key.
    pub fn get(&self, key: &str) -> (r: Option<&RepositoryProfile>)
        ensures
            match r {
                Some(profile) => stored(self@, key@) == Some(profile@),
                None => stored(self@, key@) is None,
            },
    {
        let mut at: usize = 0;
        assert(self@.skip(0) =~= self@);
        while at < self.entries.len()
            invariant
                at <= self.entries.len(),
                self@.len() == self.entries.len(),
                stored(self@.skip(at as int), key@) == stored(self@, key@),
            decreases self.entries.len() - at,
        {
            assert(self@[at as int] == entry_view(self.entries@[at as int]));
            if same(self.entries[at].0.as_str(), key) {
                return Some(&self.entries[at].1);
            }
            assert(self@.skip(at as int).drop_first() =~= self@.skip(at + 1));
            at = at + 1;
        }
        None
    }

    /// The keys and their profiles, in the order of the keys.
    pub fn entries(&self) -> (r: Vec<(String, RepositoryProfile)>)
        ensures
            r@.map_values(|entry: (String, RepositoryProfile)| (entry.0@, entry.1@)) == self@,
            ordered(self@),
    {
        proof {
            use_type_invariant(self);
        }
        let mut r: Vec<(String, RepositoryProfile)> = Vec::new();
        let mut at: usize = 0;
        while at < self.entries.len()
            invariant
                at <= self.entries.len(),
                r.len() == at,
                forall|i: int|
                    0 <= i < at ==> (#[trigger] r@[i]).0@ == self@[i].0 && r@[i].1@ == self@[i].1,
                self@.len() == self.entries.len(),
            decreases self.entries.len() - at,
        {
            assert(self@[at as int] == entry_view(self.entries@[at as int]));
            r.push((self.entries[at].0.clone(), self.entries[at].1.clone()));
            at = at + 1;
        }
        assert(r@.map_values(|entry: (String, RepositoryProfile)| (entry.0@, entry.1@)) =~= self@);
        r
    }
}

impl Clone for Profiles {
    fn clone(&self) -> (r: Profiles)
        ensures
            r@ == self@,
    {
        let entries = self.entries();
        assert(entries@.map_values(|entry: (String, RepositoryProfile)| entry_view(entry))
            =~= self@);
        Profiles { entries }
    }
}

/// What the application keeps between its runs.
#[derive(Debug)]
pub struct StoredSettings {
    pub selected_provider: Provider,
    pub profiles: Profiles,
}

/// The model of [`StoredSettings`].
#[verifier::ext_equal]
pub struct SettingsView {
    pub selected_provider: Provider,
    pub profiles: Entries,
}

impl View for StoredSettings {
    type V = SettingsView;

    open spec fn view(&self) -> SettingsView {
        SettingsView { selected_provider: self.selected_provider, profiles: self.profiles@ }
    }
}

impl SettingsView {
    /// What is kept before anything was saved.
    pub open spec fn initial() -> SettingsView {
        SettingsView { selected_provider: Provider::Github, profiles: Seq::empty() }
    }

    /// The profile of the selected provider.
    pub open spec fn selected(self) -> Option<ProfileView> {
        stored(self.profiles, self.selected_provider.spec_key())
    }

    /// The settings once a profile has been saved: its provider is selected, and it is stored under
    /// the provider's key.
    pub open spec fn with_profile(self, profile: ProfileView) -> SettingsView {
        SettingsView {
            selected_provider: profile.provider,
            profiles: storing(self.profiles, profile.provider.spec_key(), profile),
        }
    }
}

impl Default for StoredSettings {
    fn default() -> (r: StoredSettings)
        ensures
            r@ == SettingsView::initial(),
    {
        StoredSettings { selected_provider: Provider::default(), profiles: Profiles::new() }
    }
}

impl Clone for StoredSettings {
    fn clone(&self) -> (r: StoredSettings)
        ensures
            r@ == self@,
    {
        StoredSettings {
            selected_provider: self.selected_provider,
            profiles: self.profiles.clone(),
        }
    }
}

impl StoredSettings {
    /// The profile of the selected provider.
    pub fn selected(&self) -> (r: Option<&RepositoryProfile>)
        ensures
            match r {
                Some(profile) => self@.selected() == Some(profile@),
                None => self@.selected() is None,
            },
    {
        self.profiles.get(self.selected_provider.key())
    }

    /// Selects a profile's provider, and stores the profile.
    pub fn store(&mut self, profile: &RepositoryProfile)
        ensures
            final(self)@ == old(self)@.with_profile(profile@),
    {
        self.selected_provider = profile.provider;
        self.profiles.insert(profile.provider.key(), profile.clone());
    }
}

/// A saved profile is the one that is selected, and the profile of the other provider is what it
/// was.
pub proof fn saved_profiles_are_selected(
    settings: SettingsView,
    profile: ProfileView,
    other: Provider,
)
    ensures
        settings.with_profile(profile).selected() == Some(profile),
        other != profile.provider ==> stored(
            settings.with_profile(profile).profiles,
            other.spec_key(),
        ) == stored(settings.profiles, other.spec_key()),
{
    storing_is_read_back(settings.profiles, profile.provider.spec_key(), profile, other.spec_key());
    provider_keys_differ(profile.provider, other);
}

/// What the user interface needs at its start: the selected provider, the profiles, and the
/// providers whose token is known.
#[derive(Clone, Debug)]
pub struct SettingsBootstrap {
    pub selected_provider: Provider,
    pub profiles: Vec<RepositoryProfile>,
    pub token_providers: Vec<Provider>,
}

/// The model of a [`SettingsBootstrap`].
#[verifier::ext_equal]
pub struct BootstrapView {
    pub selected_provider: Provider,
    pub profiles: Seq<ProfileView>,
    pub token_providers: Seq<Provider>,
}

impl View for SettingsBootstrap {
    type V = BootstrapView;

    open spec fn view(&self) -> BootstrapView {
        BootstrapView {
            selected_provider: self.selected_provider,
            profiles: self.profiles@.map_values(|profile: RepositoryProfile| profile@),
            token_providers: self.token_providers@,
        }
    }
}

// ---------------------------------------------------------------------------------------------
// Credentials, repositories and results
// ---------------------------------------------------------------------------------------------
/// A user's name and personal access token.
#[derive(Debug)]
pub struct Credentials {
    pub username: String,
    pub token: String,
}

/// The model of [`Credentials`].
#[verifier::ext_equal]
pub struct CredentialsView {
    pub username: Seq<char>,
    pub token: Seq<char>,
}

impl View for Credentials {
    type V = CredentialsView;

    open spec fn view(&self) -> CredentialsView {
        CredentialsView { username: self.username@, token: self.token@ }
    }
}

impl Clone for Credentials {
    fn clone(&self) -> (r: Credentials)
        ensures
            r@ == self@,
    {
        Credentials { username: self.username.clone(), token: self.token.clone() }
    }
}

/// A repository at a provider.
#[derive(Debug)]
pub struct RepositoryInfo {
    pub provider: Provider,
    pub owner: String,
    pub name: String,
    pub clone_url: String,
    pub web_url: String,
    pub default_branch: String,
}

/// The model of a [`RepositoryInfo`].
#[verifier::ext_equal]
pub struct RepositoryView {
    pub provider: Provider,
    pub owner: Seq<char>,
    pub name: Seq<char>,
    pub clone_url: Seq<char>,
    pub web_url: Seq<char>,
    pub default_branch: Seq<char>,
}

impl View for RepositoryInfo {
    type V = RepositoryView;

    open spec fn view(&self) -> RepositoryView {
        RepositoryView {
            provider: self.provider,
            owner: self.owner@,
            name: self.name@,
            clone_url: self.clone_url@,
            web_url: self.web_url@,
            default_branch: self.default_branch@,
        }
    }
}

impl Clone for RepositoryInfo {
    fn clone(&self) -> (r: RepositoryInfo)
        ensures
            r@ == self@,
    {
        RepositoryInfo {
            provider: self.provider,
            owner: self.owner.clone(),
            name: self.name.clone(),
            clone_url: self.clone_url.clone(),
            web_url: self.web_url.clone(),
            default_branch: self.default_branch.clone(),
        }
    }
}

impl vstd::std_specs::cmp::PartialEqSpecImpl for RepositoryInfo {
    open spec fn obeys_eq_spec() -> bool {
        true
    }

    open spec fn eq_spec(&self, other: &RepositoryInfo) -> bool {
        self@ == other@
    }
}

impl PartialEq for RepositoryInfo {
    fn eq(&self, other: &RepositoryInfo) -> (r: bool) {
        self.provider == other.provider && self.owner == other.owner && self.name == other.name
            && self.clone_url == other.clone_url && self.web_url == other.web_url
            && self.default_branch == other.default_branch
    }
}

impl Eq for RepositoryInfo {

}

/// What an upload achieved.
#[derive(Debug)]
pub struct UploadResult {
    pub image_count: usize,
    pub commit: String,
    pub repository_url: String,
}

/// The model of an [`UploadResult`].
#[verifier::ext_equal]
pub struct UploadResultView {
    pub image_count: nat,
    pub commit: Seq<char>,
    pub repository_url: Seq<char>,
}

impl View for UploadResult {
    type V = UploadResultView;

    open spec fn view(&self) -> UploadResultView {
        UploadResultView {
            image_count: self.image_count as nat,
            commit: self.commit@,
            repository_url: self.repository_url@,
        }
    }
}

impl Clone for UploadResult {
    fn clone(&self) -> (r: UploadResult)
        ensures
            r@ == self@,
    {
        UploadResult {
            image_count: self.image_count,
            commit: self.commit.clone(),
            repository_url: self.repository_url.clone(),
        }
    }
}

/// Tidying a profile up twice is tidying it up once, and it does not matter to whether the profile
/// can be used.
pub proof fn normalizing_is_idempotent(profile: ProfileView)
    ensures
        profile.normal().normal() == profile.normal(),
        profile.normal().validity() == profile.validity(),
{
    trimming_is_idempotent(profile.username);
    trimming_is_idempotent(profile.repository_name);
}

// ---------------------------------------------------------------------------------------------
// What the values are for
// ---------------------------------------------------------------------------------------------
/// A failure is reported in its own words, after what kind of failure it is where it is not one of the
/// application's own.
pub proof fn failures_are_put_into_words(detail: Seq<char>)
    ensures
        Failure::Message(detail).text() == detail,
        Failure::Io(detail).text() == "File operation failed: "@ + detail,
        Failure::Json(detail).text() == "Saved settings are invalid: "@ + detail,
        Failure::Http(detail).text() == "Network request failed: "@ + detail,
{
}

/// A repository name is accepted exactly where it has one to a hundred characters, of which the first
/// is an ASCII letter or digit and every other one of those, a period, a hyphen or an underscore.
pub proof fn repository_names_are_plain_text(name: Seq<char>)
    ensures
        is_repository_name(name) <==> {
            &&& 1 <= name.len() <= 100
            &&& ('a' <= name[0] <= 'z' || 'A' <= name[0] <= 'Z' || '0' <= name[0] <= '9')
            &&& forall|i: int|
                1 <= i < name.len() ==> {
                    let c = #[trigger] name[i];
                    'a' <= c <= 'z' || 'A' <= c <= 'Z' || '0' <= c <= '9' || c == '.' || c == '-'
                        || c == '_'
                }
        },
{
    if 1 <= name.len() <= 100 && is_alphanumeric(name[0]) {
        if forall|i: int| 1 <= i < name.len() ==> is_name_char(#[trigger] name[i]) {
            assert forall|i: int| 0 <= i < name.len() implies is_name_char(#[trigger] name[i]) by {
                if i == 0 {
                    assert(is_alphanumeric(name[0]));
                }
            }
        }
    }
}

/// A profile can be used exactly where its username holds anything but white space and its repository
/// name, without the white space around it, is one. The username is looked at first.
pub proof fn profiles_need_a_user_and_a_repository(
    profile: ProfileView,
    before: Seq<char>,
    name: Seq<char>,
    after: Seq<char>,
)
    requires
        profile.repository_name == before + name + after,
        forall|i: int| 0 <= i < before.len() ==> is_white_space(#[trigger] before[i]),
        forall|i: int| 0 <= i < after.len() ==> is_white_space(#[trigger] after[i]),
        name.len() > 0 ==> !is_white_space(name[0]) && !is_white_space(name.last()),
    ensures
        profile.validity() == if forall|i: int|
            0 <= i < profile.username.len() ==> is_white_space(#[trigger] profile.username[i]) {
            Err(
                Failure::Message(
                    "Enter the username associated with the personal access token."@,
                ),
            )
        } else if is_repository_name(name) {
            Ok(())
        } else {
            Err(
                Failure::Message(
                    "Repository names must start with a letter or number and contain only letters, numbers, periods, hyphens, or underscores."@,
                ),
            )
        },
{
    trimming_removes_white_space_alone(before, name, after);
    trimming_empties_blank_texts_alone(profile.username);
}

/// Tidying a profile up takes the white space around its username and its repository name away, and
/// changes nothing else.
pub proof fn normalizing_takes_white_space_away(
    profile: ProfileView,
    before: Seq<char>,
    inner: Seq<char>,
    after: Seq<char>,
)
    requires
        forall|i: int| 0 <= i < before.len() ==> is_white_space(#[trigger] before[i]),
        forall|i: int| 0 <= i < after.len() ==> is_white_space(#[trigger] after[i]),
        inner.len() > 0 ==> !is_white_space(inner[0]) && !is_white_space(inner.last()),
    ensures
        profile.normal().provider == profile.provider,
        profile.normal().visibility == profile.visibility,
        profile.username == before + inner + after ==> profile.normal().username == inner,
        profile.repository_name == before + inner + after ==> profile.normal().repository_name
            == inner,
{
    trimming_removes_white_space_alone(before, inner, after);
}

/// Of entries whose keys are in order, the profile under a key is found exactly where there is one, and
/// it is that one.
pub proof fn stored_profiles_are_found(entries: Entries, key: Seq<char>)
    requires
        ordered(entries),
    ensures
        forall|i: int|
            0 <= i < entries.len() && (#[trigger] entries[i]).0 == key ==> stored(entries, key)
                == Some(entries[i].1),
        (forall|i: int| 0 <= i < entries.len() ==> (#[trigger] entries[i]).0 != key) ==> stored(
            entries,
            key,
        ) is None,
    decreases entries.len(),
{
    if entries.len() > 0 {
        let rest = entries.drop_first();
        assert forall|i: int, j: int| 0 <= i < j < rest.len() implies precedes(
            #[trigger] rest[i].0,
            #[trigger] rest[j].0,
        ) by {
            assert(rest[i] == entries[i + 1] && rest[j] == entries[j + 1]);
        }
        stored_profiles_are_found(rest, key);
        lemma_precedes_irreflexive(key);
        assert forall|i: int| 0 <= i < entries.len() && (#[trigger] entries[i]).0 == key implies stored(
            entries,
            key,
        ) == Some(entries[i].1) by {
            if i > 0 {
                assert(precedes(entries[0].0, entries[i].0));
                assert(rest[i - 1] == entries[i]);
            }
        }
        if forall|i: int| 0 <= i < entries.len() ==> (#[trigger] entries[i]).0 != key {
            assert(entries[0].0 != key);
            assert forall|i: int| 0 <= i < rest.len() implies (#[trigger] rest[i]).0 != key by {
                assert(rest[i] == entries[i + 1]);
            }
        }
    }
}

/// Before anything was saved, GitHub is selected, and there is no profile.
pub proof fn nothing_is_kept_at_first(key: Seq<char>)
    ensures
        SettingsView::initial().selected_provider == Provider::Github,
        SettingsView::initial().profiles.len() == 0,
        stored(SettingsView::initial().profiles, key) is None,
        SettingsView::initial().selected() is None,
{
}

/// A profile is saved as it is, under the key of its provider, and its provider is then the selected
/// one. Every other key keeps what was under it.
pub proof fn profiles_are_saved_as_they_are(
    settings: SettingsView,
    profile: ProfileView,
    key: Seq<char>,
)
    ensures
        ({
            let after = settings.with_profile(profile);
            let own = match profile.provider {
                Provider::Github => "github"@,
                Provider::Gitlab => "gitlab"@,
            };
            &&& after.selected_provider == profile.provider
            &&& stored(after.profiles, own) == Some(profile)
            &&& key != own ==> stored(after.profiles, key) == stored(settings.profiles, key)
        }),
{
    storing_is_read_back(settings.profiles, profile.provider.spec_key(), profile, key);
}

} // verus!

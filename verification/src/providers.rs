//! Finding a user's repository at a provider, or creating it.
//!
//! The procedure asks the provider for the token's owner, then for the repository, and creates it
//! where it does not exist. It never holds the token: a request says only how the token is to be
//! shown to the provider.
use vstd::prelude::*;

use crate::json::{JsonView, display, json_parsed, json_text, json_view, member, parse, string};
use crate::models::{AppError, AppResult, Failure, ProfileView, Provider, RepositoryInfo};
use crate::models::{RepositoryProfile, RepositoryView, Visibility, is_repository_name};
use crate::percent::{encoded, encoding_is_injective, percent_encode};
use crate::procedure::{Step, StepView};
use crate::text::{chars_of, last_index, last_position, lemma_is_last_index, lemma_last_index};
use crate::text::{lowered, same_ignoring_case};

verus! {

// ---------------------------------------------------------------------------------------------
// Requests
// ---------------------------------------------------------------------------------------------
/// What a request does.
#[derive(Clone, Copy, Debug, PartialEq, Eq, Structural)]
pub enum Method {
    Get,
    Post,
}

/// How the token is shown to a provider: in the `Authorization` header, as a bearer token, or as the
/// value of the `PRIVATE-TOKEN` header.
#[derive(Clone, Copy, Debug, PartialEq, Eq, Structural)]
pub enum Authorization {
    Bearer,
    PrivateToken,
}

/// A header of a request.
#[derive(Debug)]
pub struct Header {
    pub name: String,
    pub value: String,
}

/// What a provider is told of a repository that it is to create.
#[derive(Debug)]
pub enum NewRepository {
    Github { name: String, private: bool, auto_init: bool },
    Gitlab { name: String, path: String, visibility: String, lfs_enabled: bool },
}

/// The model of a [`NewRepository`].
#[verifier::ext_equal]
pub enum NewRepositoryView {
    Github { name: Seq<char>, private: bool, auto_init: bool },
    Gitlab { name: Seq<char>, path: Seq<char>, visibility: Seq<char>, lfs_enabled: bool },
}

impl View for NewRepository {
    type V = NewRepositoryView;

    open spec fn view(&self) -> NewRepositoryView {
        match self {
            NewRepository::Github { name, private, auto_init } => NewRepositoryView::Github {
                name: name@,
                private: *private,
                auto_init: *auto_init,
            },
            NewRepository::Gitlab { name, path, visibility, lfs_enabled } => {
                NewRepositoryView::Gitlab {
                    name: name@,
                    path: path@,
                    visibility: visibility@,
                    lfs_enabled: *lfs_enabled,
                }
            },
        }
    }
}

/// The status code of something that does not exist.
pub const NOT_FOUND: u16 = 404;

/// What the body of a reply is expected to hold.
#[derive(Clone, Copy, Debug, PartialEq, Eq, Structural)]
pub enum Expected {
    User,
    /// A repository that was looked for.
    FoundRepository,
    /// A repository that was created.
    CreatedRepository,
}

impl Expected {
    /// The body of a reply with this status is looked at. That of a repository that was not found
    /// is not.
    pub open spec fn spec_reads_body(self, status: u16) -> bool {
        !(self == Expected::FoundRepository && status == NOT_FOUND)
    }

    /// Whether the body of a reply with this status is looked at.
    pub fn reads_body(self, status: u16) -> (r: bool)
        ensures
            r == self.spec_reads_body(status),
    {
        !(self == Expected::FoundRepository && status == NOT_FOUND)
    }
}

/// A request to a provider.
#[derive(Debug)]
pub struct ProviderRequest {
    pub provider: Provider,
    pub expected: Expected,
    pub method: Method,
    pub url: String,
    pub headers: Vec<Header>,
    pub authorization: Authorization,
    pub body: Option<NewRepository>,
}

/// The model of a [`ProviderRequest`]. A header is a pair of its name and its value.
#[verifier::ext_equal]
pub struct ProviderRequestView {
    pub provider: Provider,
    pub expected: Expected,
    pub method: Method,
    pub url: Seq<char>,
    pub headers: Seq<(Seq<char>, Seq<char>)>,
    pub authorization: Authorization,
    pub body: Option<NewRepositoryView>,
}

impl View for ProviderRequest {
    type V = ProviderRequestView;

    open spec fn view(&self) -> ProviderRequestView {
        ProviderRequestView {
            provider: self.provider,
            expected: self.expected,
            method: self.method,
            url: self.url@,
            headers: self.headers@.map_values(|header: Header| (header.name@, header.value@)),
            authorization: self.authorization,
            body: match self.body {
                Some(repository) => Some(repository@),
                None => None,
            },
        }
    }
}

/// The headers of every request to a provider.
pub open spec fn provider_headers(provider: Provider) -> Seq<(Seq<char>, Seq<char>)> {
    match provider {
        Provider::Github => seq![
            ("Accept"@, "application/vnd.github+json"@),
            ("X-GitHub-Api-Version"@, "2022-11-28"@),
            ("User-Agent"@, "GitPic/1.0"@),
        ],
        Provider::Gitlab => seq![
            ("Accept"@, "application/json"@),
            ("User-Agent"@, "GitPic/1.0"@),
        ],
    }
}

/// How the token is shown to a provider.
pub open spec fn provider_authorization(provider: Provider) -> Authorization {
    match provider {
        Provider::Github => Authorization::Bearer,
        Provider::Gitlab => Authorization::PrivateToken,
    }
}

/// A request to a provider.
pub open spec fn provider_request(
    provider: Provider,
    expected: Expected,
    method: Method,
    url: Seq<char>,
    body: Option<NewRepositoryView>,
) -> ProviderRequestView {
    ProviderRequestView {
        provider,
        expected,
        method,
        url,
        headers: provider_headers(provider),
        authorization: provider_authorization(provider),
        body,
    }
}

/// The address of the token's owner.
pub open spec fn user_url(provider: Provider) -> Seq<char> {
    match provider {
        Provider::Github => "https://api.github.com/user"@,
        Provider::Gitlab => "https://gitlab.com/api/v4/user"@,
    }
}

/// The address of a repository of a user. GitLab takes the path of a project as one segment.
pub open spec fn repository_url(provider: Provider, login: Seq<char>, name: Seq<char>) -> Seq<char> {
    match provider {
        Provider::Github => "https://api.github.com/repos/"@ + login + "/"@ + name,
        Provider::Gitlab => "https://gitlab.com/api/v4/projects/"@ + encoded(
            login + "/"@ + name,
        ),
    }
}

/// The address at which repositories are created.
pub open spec fn creation_url(provider: Provider) -> Seq<char> {
    match provider {
        Provider::Github => "https://api.github.com/user/repos"@,
        Provider::Gitlab => "https://gitlab.com/api/v4/projects"@,
    }
}

/// What a provider is told of the repository of a profile.
pub open spec fn new_repository(profile: ProfileView) -> NewRepositoryView {
    match profile.provider {
        Provider::Github => NewRepositoryView::Github {
            name: profile.repository_name,
            private: profile.visibility == Visibility::Private,
            auto_init: false,
        },
        Provider::Gitlab => NewRepositoryView::Gitlab {
            name: profile.repository_name,
            path: profile.repository_name,
            visibility: match profile.visibility {
                Visibility::Private => "private"@,
                Visibility::Public => "public"@,
            },
            lfs_enabled: true,
        },
    }
}

fn header(name: &str, value: &str) -> (r: Header)
    ensures
        r.name@ == name@,
        r.value@ == value@,
{
    Header { name: name.to_owned(), value: value.to_owned() }
}

fn request_to(
    provider: Provider,
    expected: Expected,
    method: Method,
    url: String,
    body: Option<NewRepository>,
) -> (r: ProviderRequest)
    ensures
        r@ == provider_request(
            provider,
            expected,
            method,
            url@,
            match body {
                Some(repository) => Some(repository@),
                None => None,
            },
        ),
{
    let mut headers: Vec<Header> = Vec::new();
    let authorization = match provider {
        Provider::Github => {
            headers.push(header("Accept", "application/vnd.github+json"));
            headers.push(header("X-GitHub-Api-Version", "2022-11-28"));
            headers.push(header("User-Agent", "GitPic/1.0"));
            Authorization::Bearer
        },
        Provider::Gitlab => {
            headers.push(header("Accept", "application/json"));
            headers.push(header("User-Agent", "GitPic/1.0"));
            Authorization::PrivateToken
        },
    };
    let r = ProviderRequest { provider, expected, method, url, headers, authorization, body };
    assert(r@.headers =~= provider_headers(provider));
    r
}

// ---------------------------------------------------------------------------------------------
// Responses that report an error
// ---------------------------------------------------------------------------------------------
/// The words of `reqwest::StatusCode::canonical_reason` for a status code.
pub uninterp spec fn canonical_reason(status: u16) -> Option<Seq<char>>;

/// Calls `reqwest::StatusCode::canonical_reason`, after `from_u16`. What it returns depends on the
/// code alone; a number that is no status code has no reason.
#[verifier::external_body]
fn reason(status: u16) -> (r: Option<&'static str>)
    ensures
        match r {
            Some(text) => canonical_reason(status) == Some(text@),
            None => canonical_reason(status) is None,
        },
{
    match reqwest::StatusCode::from_u16(status) {
        Ok(code) => code.canonical_reason(),
        Err(_) => None,
    }
}

/// The status codes of success.
pub open spec fn is_success(status: u16) -> bool {
    200 <= status < 300
}

/// The model of an optional text.
pub open spec fn optional(text: Option<String>) -> Option<Seq<char>> {
    match text {
        Some(text) => Some(text@),
        None => None,
    }
}

/// The words of a provider for what went wrong, of those that its reply may hold: the text of its
/// message, or else the text of its error, or else its message whatever it is.
pub open spec fn first_message(
    message: Option<Seq<char>>,
    error: Option<Seq<char>>,
    message_json: Option<Seq<char>>,
) -> Option<Seq<char>> {
    match message {
        Some(text) => Some(text),
        None => match error {
            Some(text) => Some(text),
            None => message_json,
        },
    }
}

/// Chooses the words of a provider for what went wrong.
pub fn choose_message(
    message: Option<String>,
    error: Option<String>,
    message_json: Option<String>,
) -> (r: Option<String>)
    ensures
        optional(r) == first_message(optional(message), optional(error), optional(message_json)),
{
    match message {
        Some(text) => Some(text),
        None => match error {
            Some(text) => Some(text),
            None => message_json,
        },
    }
}

/// The text of the member of a JSON value under a key.
pub open spec fn member_string(value: JsonView, key: Seq<char>) -> Option<Seq<char>> {
    match value.member(key) {
        Some(found) => found.text(),
        None => None,
    }
}

/// The member of a JSON value under a key, written as JSON.
pub open spec fn member_text(value: JsonView, key: Seq<char>) -> Option<Seq<char>> {
    match value.member(key) {
        Some(found) => Some(json_text(found)),
        None => None,
    }
}

/// The words in the body of a provider's reply for what went wrong.
pub open spec fn body_message(body: Seq<char>) -> Option<Seq<char>> {
    match json_parsed(body) {
        Some(value) => first_message(
            member_string(value, "message"@),
            member_string(value, "error"@),
            member_text(value, "message"@),
        ),
        None => None,
    }
}

fn string_under(value: &serde_json::Value, key: &str) -> (r: Option<String>)
    ensures
        optional(r) == member_string(json_view(*value), key@),
{
    match member(value, key) {
        Some(found) => match string(found) {
            Some(text) => Some(text.to_owned()),
            None => None,
        },
        None => None,
    }
}

fn text_under(value: &serde_json::Value, key: &str) -> (r: Option<String>)
    ensures
        optional(r) == member_text(json_view(*value), key@),
{
    match member(value, key) {
        Some(found) => Some(display(found)),
        None => None,
    }
}

/// The words in the body of a provider's reply for what went wrong, if it holds any.
pub fn provider_error_message(body: &str) -> (r: Option<String>)
    ensures
        optional(r) == body_message(body@),
{
    match parse(body) {
        Some(value) => choose_message(
            string_under(&value, "message"),
            string_under(&value, "error"),
            text_under(&value, "message"),
        ),
        None => None,
    }
}

/// What a refused request is reported as: that the provider rejected the credentials or the request,
/// and why, in its own words, or else in those for the status code.
pub open spec fn refusal(
    provider: Provider,
    status: u16,
    message: Option<Seq<char>>,
    reason: Option<Seq<char>>,
) -> Failure {
    let why = match message {
        Some(text) => text,
        None => match reason {
            Some(text) => text,
            None => "The provider rejected the request."@,
        },
    };
    let what = if status == 401 || status == 403 {
        " rejected the credentials or token permissions"@
    } else {
        " request failed"@
    };
    Failure::Message(provider.spec_display_name() + what + ": "@ + why)
}

/// The error for a request that a provider refused with a status code, for the reason that its reply
/// gives, or else the one that goes with the code.
pub fn request_refused(
    provider: Provider,
    status: u16,
    message: Option<String>,
    reason: Option<String>,
) -> (r: AppError)
    ensures
        r@ == refusal(provider, status, optional(message), optional(reason)),
{
    let why = match message {
        Some(text) => text,
        None => match reason {
            Some(text) => text,
            None => "The provider rejected the request.".to_owned(),
        },
    };
    let what = if status == 401 || status == 403 {
        " rejected the credentials or token permissions"
    } else {
        " request failed"
    };
    AppError::message(
        provider.display_name().to_owned().concat(what).concat(": ").concat(why.as_str()).as_str(),
    )
}

/// What a reply is reported as that is not what was asked for.
pub open spec fn not_understood(provider: Provider) -> Failure {
    Failure::Message(
        provider.spec_display_name() + " returned a response GitPic could not understand."@,
    )
}

/// What a reply comes to: a refusal where its status is not one of success, and otherwise what was
/// read from its body, if that could be read.
pub open spec fn decoded<T>(
    provider: Provider,
    status: u16,
    body: Seq<char>,
    content: Option<T>,
) -> Result<T, Failure> {
    if !is_success(status) {
        Err(refusal(provider, status, body_message(body), canonical_reason(status)))
    } else {
        match content {
            Some(value) => Ok(value),
            None => Err(not_understood(provider)),
        }
    }
}

/// Turns a reply with the given status and body into what was read from the body, or into an error.
pub fn decode_response<T>(
    provider: Provider,
    status: u16,
    body: &str,
    content: Option<T>,
) -> (r: AppResult<T>)
    ensures
        match r {
            Ok(value) => decoded(provider, status, body@, content) == Ok::<T, Failure>(value),
            Err(error) => decoded(provider, status, body@, content) == Err::<T, Failure>(error@),
        },
{
    if !(200 <= status && status < 300) {
        let why = match reason(status) {
            Some(text) => Some(text.to_owned()),
            None => None,
        };
        return Err(request_refused(provider, status, provider_error_message(body), why));
    }
    match content {
        Some(value) => Ok(value),
        None => Err(
            AppError::message(
                provider.display_name().to_owned().concat(
                    " returned a response GitPic could not understand.",
                ).as_str(),
            ),
        ),
    }
}

// ---------------------------------------------------------------------------------------------
// What providers say of users and repositories
// ---------------------------------------------------------------------------------------------
/// What GitHub says of a repository.
#[derive(Debug)]
pub struct GitHubRepository {
    pub name: String,
    pub clone_url: String,
    pub html_url: String,
    pub default_branch: Option<String>,
    pub owner: String,
}

/// What GitLab says of a project.
#[derive(Debug)]
pub struct GitLabProject {
    pub path: String,
    pub path_with_namespace: String,
    pub http_url_to_repo: String,
    pub web_url: String,
    pub default_branch: Option<String>,
}

/// What was read from the body of a reply.
#[derive(Debug)]
pub enum Content {
    /// A user of either provider, by the name under which the user logs in.
    User(String),
    GitHub(GitHubRepository),
    GitLab(GitLabProject),
}

/// The model of a [`Content`].
#[verifier::ext_equal]
pub enum ContentView {
    User(Seq<char>),
    GitHub {
        name: Seq<char>,
        clone_url: Seq<char>,
        html_url: Seq<char>,
        default_branch: Option<Seq<char>>,
        owner: Seq<char>,
    },
    GitLab {
        path: Seq<char>,
        path_with_namespace: Seq<char>,
        http_url_to_repo: Seq<char>,
        web_url: Seq<char>,
        default_branch: Option<Seq<char>>,
    },
}

impl View for Content {
    type V = ContentView;

    open spec fn view(&self) -> ContentView {
        match self {
            Content::User(login) => ContentView::User(login@),
            Content::GitHub(repository) => ContentView::GitHub {
                name: repository.name@,
                clone_url: repository.clone_url@,
                html_url: repository.html_url@,
                default_branch: optional(repository.default_branch),
                owner: repository.owner@,
            },
            Content::GitLab(project) => ContentView::GitLab {
                path: project.path@,
                path_with_namespace: project.path_with_namespace@,
                http_url_to_repo: project.http_url_to_repo@,
                web_url: project.web_url@,
                default_branch: optional(project.default_branch),
            },
        }
    }
}

/// The reply to a request.
#[derive(Debug)]
pub enum ProviderReply {
    /// The request could not be made, or its reply not be received.
    Failed(AppError),
    /// A response, and what could be read from its body.
    Response { status: u16, body: String, content: Option<Content> },
}

/// The model of a [`ProviderReply`].
#[verifier::ext_equal]
pub enum ProviderReplyView {
    Failed(Failure),
    Response { status: u16, body: Seq<char>, content: Option<ContentView> },
}

impl View for ProviderReply {
    type V = ProviderReplyView;

    open spec fn view(&self) -> ProviderReplyView {
        match self {
            ProviderReply::Failed(error) => ProviderReplyView::Failed(error@),
            ProviderReply::Response { status, body, content } => ProviderReplyView::Response {
                status: *status,
                body: body@,
                content: match content {
                    Some(value) => Some(value@),
                    None => None,
                },
            },
        }
    }
}

/// The name of the user that a reply is about.
pub open spec fn user_of(content: Option<ContentView>) -> Option<Seq<char>> {
    match content {
        Some(ContentView::User(login)) => Some(login),
        _ => None,
    }
}

/// The default branch that a provider names, or `main` where it names none.
pub open spec fn branch_or_main(branch: Option<Seq<char>>) -> Seq<char> {
    match branch {
        Some(name) => name,
        None => "main"@,
    }
}

/// The owner in the full path of a project: what comes before its last slash, or else the user who
/// asked for it.
pub open spec fn owner_in_path(path: Seq<char>, login: Seq<char>) -> Seq<char> {
    if last_index(path, '/') >= 0 {
        path.take(last_index(path, '/'))
    } else {
        login
    }
}

/// The repository that a provider's reply to a user is about.
pub open spec fn repository_of(
    provider: Provider,
    login: Seq<char>,
    content: Option<ContentView>,
) -> Option<RepositoryView> {
    match (provider, content) {
        (
            Provider::Github,
            Some(ContentView::GitHub { name, clone_url, html_url, default_branch, owner }),
        ) => Some(
            RepositoryView {
                provider,
                owner,
                name,
                clone_url,
                web_url: html_url,
                default_branch: branch_or_main(default_branch),
            },
        ),
        (
            Provider::Gitlab,
            Some(
                ContentView::GitLab {
                    path,
                    path_with_namespace,
                    http_url_to_repo,
                    web_url,
                    default_branch,
                },
            ),
        ) => Some(
            RepositoryView {
                provider,
                owner: owner_in_path(path_with_namespace, login),
                name: path,
                clone_url: http_url_to_repo,
                web_url,
                default_branch: branch_or_main(default_branch),
            },
        ),
        _ => None,
    }
}

fn branch_named(branch: Option<String>) -> (r: String)
    ensures
        r@ == branch_or_main(optional(branch)),
{
    match branch {
        Some(name) => name,
        None => "main".to_owned(),
    }
}

fn path_owner(path: &str, login: &str) -> (r: String)
    ensures
        r@ == owner_in_path(path@, login@),
{
    let v = chars_of(path);
    match last_position(&v, '/') {
        Some(at) => {
            proof {
                lemma_last_index(path@, '/');
            }
            let owner = path.substring_char(0, at);
            assert(owner@ =~= path@.take(at as int));
            owner.to_owned()
        },
        None => login.to_owned(),
    }
}

fn described_user(content: Option<Content>) -> (r: Option<String>)
    ensures
        optional(r) == user_of(
            match content {
                Some(value) => Some(value@),
                None => None,
            },
        ),
{
    match content {
        Some(Content::User(login)) => Some(login),
        _ => None,
    }
}

fn described_repository(provider: Provider, login: &str, content: Option<Content>) -> (r: Option<
    RepositoryInfo,
>)
    ensures
        match r {
            Some(info) => Some(info@),
            None => None,
        } == repository_of(
            provider,
            login@,
            match content {
                Some(value) => Some(value@),
                None => None,
            },
        ),
{
    match (provider, content) {
        (Provider::Github, Some(Content::GitHub(repository))) => Some(
            RepositoryInfo {
                provider,
                owner: repository.owner,
                name: repository.name,
                clone_url: repository.clone_url,
                web_url: repository.html_url,
                default_branch: branch_named(repository.default_branch),
            },
        ),
        (Provider::Gitlab, Some(Content::GitLab(project))) => Some(
            RepositoryInfo {
                provider,
                owner: path_owner(project.path_with_namespace.as_str(), login),
                name: project.path,
                clone_url: project.http_url_to_repo,
                web_url: project.web_url,
                default_branch: branch_named(project.default_branch),
            },
        ),
        _ => None,
    }
}

// ---------------------------------------------------------------------------------------------
// The procedure, as a model
// ---------------------------------------------------------------------------------------------
/// What the procedure is doing.
#[verifier::ext_equal]
pub enum EnsureStageView {
    /// It asks who owns the token.
    User,
    /// It asks for the repository of the token's owner.
    Lookup { login: Seq<char> },
    /// It has the repository created.
    Create { login: Seq<char> },
}

/// The model of an [`EnsureRepository`].
#[verifier::ext_equal]
pub struct EnsureView {
    pub profile: ProfileView,
    pub stage: EnsureStageView,
}

/// Where the procedure stands after a reply.
pub type EnsureStep = StepView<EnsureView, RepositoryView>;

/// The failure of a token that belongs to somebody else.
pub open spec fn wrong_owner(provider: Provider, login: Seq<char>, username: Seq<char>) -> Failure {
    Failure::Message(
        "The "@ + provider.spec_display_name() + " token belongs to “"@ + login + "”, not “"@
            + username + "”."@,
    )
}

impl EnsureView {
    /// The procedure at its start.
    pub open spec fn start(profile: ProfileView) -> EnsureView {
        EnsureView { profile, stage: EnsureStageView::User }
    }

    /// The pending request.
    pub open spec fn request(self) -> ProviderRequestView {
        let provider = self.profile.provider;
        match self.stage {
            EnsureStageView::User => provider_request(
                provider,
                Expected::User,
                Method::Get,
                user_url(provider),
                None,
            ),
            EnsureStageView::Lookup { login } => provider_request(
                provider,
                Expected::FoundRepository,
                Method::Get,
                repository_url(provider, login, self.profile.repository_name),
                None,
            ),
            EnsureStageView::Create { login } => provider_request(
                provider,
                Expected::CreatedRepository,
                Method::Post,
                creation_url(provider),
                Some(new_repository(self.profile)),
            ),
        }
    }

    /// The procedure once the owner of the token is known. The case of letters does not matter.
    pub open spec fn identified(self, login: Seq<char>) -> EnsureStep {
        if lowered(login) == lowered(self.profile.username) {
            StepView::Continue(EnsureView { stage: EnsureStageView::Lookup { login }, ..self })
        } else {
            StepView::Finish(
                Err(wrong_owner(self.profile.provider, login, self.profile.username)),
            )
        }
    }

    /// The result once the provider has replied with a repository, or not.
    pub open spec fn described(
        self,
        login: Seq<char>,
        status: u16,
        body: Seq<char>,
        content: Option<ContentView>,
    ) -> EnsureStep {
        let provider = self.profile.provider;
        StepView::Finish(
            decoded(provider, status, body, repository_of(provider, login, content)),
        )
    }

    /// The procedure after a reply.
    pub open spec fn resume(self, reply: ProviderReplyView) -> EnsureStep {
        match reply {
            ProviderReplyView::Failed(failure) => StepView::Finish(Err(failure)),
            ProviderReplyView::Response { status, body, content } => match self.stage {
                EnsureStageView::User => match decoded(
                    self.profile.provider,
                    status,
                    body,
                    user_of(content),
                ) {
                    Ok(login) => self.identified(login),
                    Err(failure) => StepView::Finish(Err(failure)),
                },
                EnsureStageView::Lookup { login } => if status == NOT_FOUND {
                    StepView::Continue(
                        EnsureView { stage: EnsureStageView::Create { login }, ..self },
                    )
                } else {
                    self.described(login, status, body, content)
                },
                EnsureStageView::Create { login } => self.described(login, status, body, content),
            },
        }
    }
}

// ---------------------------------------------------------------------------------------------
// The procedure
// ---------------------------------------------------------------------------------------------
#[derive(Debug)]
enum EnsureStage {
    User,
    Lookup { login: String },
    Create { login: String },
}

impl View for EnsureStage {
    type V = EnsureStageView;

    closed spec fn view(&self) -> EnsureStageView {
        match self {
            EnsureStage::User => EnsureStageView::User,
            EnsureStage::Lookup { login } => EnsureStageView::Lookup { login: login@ },
            EnsureStage::Create { login } => EnsureStageView::Create { login: login@ },
        }
    }
}

/// The search for a user's repository, which is created where it does not exist.
#[derive(Debug)]
pub struct EnsureRepository {
    profile: RepositoryProfile,
    stage: EnsureStage,
}

impl View for EnsureRepository {
    type V = EnsureView;

    closed spec fn view(&self) -> EnsureView {
        EnsureView { profile: self.profile@, stage: self.stage@ }
    }
}

/// Starts to look for the repository of a profile.
pub fn ensure_repository(profile: &RepositoryProfile) -> (r: EnsureRepository)
    ensures
        r@ == EnsureView::start(profile@),
{
    EnsureRepository { profile: profile.clone(), stage: EnsureStage::User }
}

fn lookup_url(provider: Provider, login: &str, name: &str) -> (r: String)
    ensures
        r@ == repository_url(provider, login@, name@),
{
    match provider {
        Provider::Github => "https://api.github.com/repos/".to_owned().concat(login).concat(
            "/",
        ).concat(name),
        Provider::Gitlab => {
            let path = login.to_owned().concat("/").concat(name);
            "https://gitlab.com/api/v4/projects/".to_owned().concat(
                percent_encode(path.as_str()).as_str(),
            )
        },
    }
}

fn repository_to_create(profile: &RepositoryProfile) -> (r: NewRepository)
    ensures
        r@ == new_repository(profile@),
{
    let name = profile.repository_name.clone();
    match profile.provider {
        Provider::Github => NewRepository::Github {
            name,
            private: profile.visibility == Visibility::Private,
            auto_init: false,
        },
        Provider::Gitlab => NewRepository::Gitlab {
            name,
            path: profile.repository_name.clone(),
            visibility: match profile.visibility {
                Visibility::Private => "private".to_owned(),
                Visibility::Public => "public".to_owned(),
            },
            lfs_enabled: true,
        },
    }
}

impl EnsureRepository {
    /// The pending request.
    pub fn request(&self) -> (r: ProviderRequest)
        ensures
            r@ == self@.request(),
    {
        let provider = self.profile.provider;
        match &self.stage {
            EnsureStage::User => {
                let url = match provider {
                    Provider::Github => "https://api.github.com/user",
                    Provider::Gitlab => "https://gitlab.com/api/v4/user",
                };
                request_to(provider, Expected::User, Method::Get, url.to_owned(), None)
            },
            EnsureStage::Lookup { login } => {
                let url = lookup_url(
                    provider,
                    login.as_str(),
                    self.profile.repository_name.as_str(),
                );
                request_to(provider, Expected::FoundRepository, Method::Get, url, None)
            },
            EnsureStage::Create { login } => {
                let url = match provider {
                    Provider::Github => "https://api.github.com/user/repos",
                    Provider::Gitlab => "https://gitlab.com/api/v4/projects",
                };
                let body = repository_to_create(&self.profile);
                request_to(
                    provider,
                    Expected::CreatedRepository,
                    Method::Post,
                    url.to_owned(),
                    Some(body),
                )
            },
        }
    }

    /// The profile whose repository is looked for.
    pub fn profile(&self) -> (r: &RepositoryProfile)
        ensures
            r@ == self@.profile,
    {
        &self.profile
    }

    /// Goes on with the reply to the pending request.
    pub fn resume(self, reply: ProviderReply) -> (r: Step<EnsureRepository, RepositoryInfo>)
        ensures
            r@ == self@.resume(reply@),
    {
        let (status, body, content) = match reply {
            ProviderReply::Failed(error) => {
                return Step::Finish(Err(error));
            },
            ProviderReply::Response { status, body, content } => (status, body, content),
        };
        let EnsureRepository { profile, stage } = self;
        let provider = profile.provider;
        match stage {
            EnsureStage::User => match decode_response(
                provider,
                status,
                body.as_str(),
                described_user(content),
            ) {
                Ok(login) => {
                    if same_ignoring_case(login.as_str(), profile.username.as_str()) {
                        Step::Continue(
                            EnsureRepository { profile, stage: EnsureStage::Lookup { login } },
                        )
                    } else {
                        let text = "The ".to_owned().concat(provider.display_name()).concat(
                            " token belongs to “",
                        ).concat(login.as_str()).concat("”, not “").concat(
                            profile.username.as_str(),
                        ).concat("”.");
                        Step::Finish(Err(AppError::message(text.as_str())))
                    }
                },
                Err(error) => Step::Finish(Err(error)),
            },
            EnsureStage::Lookup { login } => if status == NOT_FOUND {
                Step::Continue(EnsureRepository { profile, stage: EnsureStage::Create { login } })
            } else {
                Step::Finish(
                    decode_response(
                        provider,
                        status,
                        body.as_str(),
                        described_repository(provider, login.as_str(), content),
                    ),
                )
            },
            EnsureStage::Create { login } => Step::Finish(
                decode_response(
                    provider,
                    status,
                    body.as_str(),
                    described_repository(provider, login.as_str(), content),
                ),
            ),
        }
    }
}

// ---------------------------------------------------------------------------------------------
// Laws
// ---------------------------------------------------------------------------------------------
impl EnsureView {
    /// Once the owner of the token is known, it is the user of the profile.
    pub open spec fn sound(self) -> bool {
        match self.stage {
            EnsureStageView::User => true,
            EnsureStageView::Lookup { login } => lowered(login) == lowered(self.profile.username),
            EnsureStageView::Create { login } => lowered(login) == lowered(self.profile.username),
        }
    }
}

/// The requests that the procedure makes when it gets these replies, up to the one that is pending
/// or got the last reply.
pub open spec fn ensure_requests(
    procedure: EnsureView,
    replies: Seq<ProviderReplyView>,
) -> Seq<ProviderRequestView>
    decreases replies.len(),
{
    seq![procedure.request()] + if replies.len() == 0 {
        Seq::empty()
    } else {
        match procedure.resume(replies[0]) {
            StepView::Continue(next) => ensure_requests(next, replies.drop_first()),
            StepView::Finish(result) => Seq::empty(),
        }
    }
}

/// The procedure starts with nothing known of the token's owner.
pub proof fn ensuring_starts_sound(profile: ProfileView)
    ensures
        EnsureView::start(profile).sound(),
{
}

/// The procedure keeps to its profile, looks for no repository but that of the profile's user, and
/// has a repository created only where the provider says that there is none. A repository that it
/// finds is one of the profile's provider.
pub proof fn ensuring_stays_sound(procedure: EnsureView, reply: ProviderReplyView)
    requires
        procedure.sound(),
    ensures
        match procedure.resume(reply) {
            StepView::Continue(next) => {
                &&& next.sound()
                &&& next.profile == procedure.profile
                &&& next.stage is Create ==> procedure.stage is Lookup && (reply matches
                    ProviderReplyView::Response { status, .. } && status == NOT_FOUND)
            },
            StepView::Finish(Ok(repository)) => repository.provider == procedure.profile.provider,
            StepView::Finish(Err(failure)) => true,
        },
{
}

/// A token of another user finds nothing: the procedure ends and says whose token it is.
pub proof fn foreign_tokens_are_refused(
    profile: ProfileView,
    status: u16,
    body: Seq<char>,
    login: Seq<char>,
)
    requires
        is_success(status),
        lowered(login) != lowered(profile.username),
    ensures
        EnsureView::start(profile).resume(
            ProviderReplyView::Response {
                status,
                body,
                content: Some(ContentView::User(login)),
            },
        ) == EnsureStep::Finish(Err(wrong_owner(profile.provider, login, profile.username))),
{
}

/// A request that the provider refuses ends the procedure with the provider's reason, but for a
/// repository that is looked for and not found.
pub proof fn refused_requests_are_reported(
    procedure: EnsureView,
    status: u16,
    body: Seq<char>,
    content: Option<ContentView>,
)
    requires
        !is_success(status),
        procedure.request().expected.spec_reads_body(status),
    ensures
        procedure.resume(ProviderReplyView::Response { status, body, content })
            == EnsureStep::Finish(
            Err(
                refusal(
                    procedure.profile.provider,
                    status,
                    body_message(body),
                    canonical_reason(status),
                ),
            ),
        ),
{
}

/// A body that is not to be looked at makes no difference.
pub proof fn unread_bodies_do_not_matter(
    procedure: EnsureView,
    status: u16,
    first_body: Seq<char>,
    first_content: Option<ContentView>,
    second_body: Seq<char>,
    second_content: Option<ContentView>,
)
    requires
        !procedure.request().expected.spec_reads_body(status),
    ensures
        procedure.resume(
            ProviderReplyView::Response { status, body: first_body, content: first_content },
        ) == procedure.resume(
            ProviderReplyView::Response { status, body: second_body, content: second_content },
        ),
{
}

/// The procedure makes three requests at most: for the token's owner, for the repository, and for
/// its creation. Only the last changes anything at the provider, and it is made only after the
/// second was answered that there is no such repository.
pub proof fn ensuring_creates_at_most_once(profile: ProfileView, replies: Seq<ProviderReplyView>)
    ensures
        ({
            let requests = ensure_requests(EnsureView::start(profile), replies);
            &&& 1 <= requests.len() <= 3
            &&& forall|i: int|
                0 <= i < requests.len() ==> (#[trigger] requests[i].method == Method::Post <==> i
                    == 2)
            &&& requests.len() == 3 ==> replies.len() >= 2 && (replies[1] matches
                ProviderReplyView::Response { status, .. } && status == NOT_FOUND)
        }),
{
    let first = EnsureView::start(profile);
    if replies.len() > 0 {
        if let StepView::Continue(second) = first.resume(replies[0]) {
            let rest = replies.drop_first();
            if rest.len() > 0 {
                assert(rest[0] == replies[1]);
                if let StepView::Continue(third) = second.resume(rest[0]) {
                    let last = rest.drop_first();
                    assert(third.stage is Create);
                    assert(ensure_requests(third, last) =~= seq![third.request()]);
                    assert(ensure_requests(second, rest) =~= seq![
                        second.request(),
                        third.request(),
                    ]);
                    assert(ensure_requests(first, replies) =~= seq![
                        first.request(),
                        second.request(),
                        third.request(),
                    ]);
                } else {
                    assert(ensure_requests(second, rest) =~= seq![second.request()]);
                    assert(ensure_requests(first, replies) =~= seq![
                        first.request(),
                        second.request(),
                    ]);
                }
            } else {
                assert(ensure_requests(second, rest) =~= seq![second.request()]);
                assert(ensure_requests(first, replies) =~= seq![first.request(), second.request()]);
            }
        } else {
            assert(ensure_requests(first, replies) =~= seq![first.request()]);
        }
    } else {
        assert(ensure_requests(first, replies) =~= seq![first.request()]);
    }
}

proof fn lemma_same_prefix(prefix: Seq<char>, a: Seq<char>, b: Seq<char>)
    requires
        prefix + a == prefix + b,
    ensures
        a == b,
{
    assert(a =~= (prefix + a).skip(prefix.len() as int));
    assert(b =~= (prefix + b).skip(prefix.len() as int));
}

/// Different repositories of a provider have different addresses.
pub proof fn repository_addresses_differ(
    provider: Provider,
    first_login: Seq<char>,
    first_name: Seq<char>,
    second_login: Seq<char>,
    second_name: Seq<char>,
)
    requires
        is_repository_name(first_name),
        is_repository_name(second_name),
        repository_url(provider, first_login, first_name) == repository_url(
            provider,
            second_login,
            second_name,
        ),
    ensures
        first_login == second_login,
        first_name == second_name,
{
    reveal_strlit("/");
    let first = first_login + "/"@ + first_name;
    let second = second_login + "/"@ + second_name;
    match provider {
        Provider::Github => {
            let prefix = "https://api.github.com/repos/"@;
            assert(repository_url(provider, first_login, first_name) =~= prefix + first);
            assert(repository_url(provider, second_login, second_name) =~= prefix + second);
            lemma_same_prefix(prefix, first, second);
        },
        Provider::Gitlab => {
            let prefix = "https://gitlab.com/api/v4/projects/"@;
            lemma_same_prefix(prefix, encoded(first), encoded(second));
            encoding_is_injective(first, second);
        },
    }
    lemma_is_last_index(first, '/', first_login.len() as int);
    lemma_is_last_index(second, '/', second_login.len() as int);
    assert(first_login =~= first.take(first_login.len() as int));
    assert(second_login =~= second.take(second_login.len() as int));
    assert(first_name =~= first.skip(first_login.len() as int + 1));
    assert(second_name =~= second.skip(second_login.len() as int + 1));
}

// ---------------------------------------------------------------------------------------------
// What the procedure is for
// ---------------------------------------------------------------------------------------------
/// Whenever a repository is to be created, the provider is told of the profile's own: of its name, and
/// of its visibility. At GitHub it is private exactly where the profile says so; at GitLab its
/// visibility is named, and its path is its name. GitHub is not to put anything into it, and GitLab is
/// to store large files.
pub proof fn created_repositories_are_those_of_the_profile(
    profile: ProfileView,
    replies: Seq<ProviderReplyView>,
    i: int,
)
    requires
        0 <= i < ensure_requests(EnsureView::start(profile), replies).len(),
    ensures
        ({
            let request = ensure_requests(EnsureView::start(profile), replies)[i];
            &&& request.provider == profile.provider
            &&& request.method == Method::Get <==> request.body is None
            &&& request.body matches Some(NewRepositoryView::Github { name, private, auto_init })
                ==> {
                &&& profile.provider == Provider::Github
                &&& name == profile.repository_name
                &&& private == (profile.visibility == Visibility::Private)
                &&& private != (profile.visibility == Visibility::Public)
                &&& !auto_init
                &&& request.url == "https://api.github.com/user/repos"@
            }
            &&& request.body matches Some(
                NewRepositoryView::Gitlab { name, path, visibility, lfs_enabled },
            ) ==> {
                &&& profile.provider == Provider::Gitlab
                &&& name == profile.repository_name
                &&& path == profile.repository_name
                &&& visibility == "private"@ <==> profile.visibility == Visibility::Private
                &&& visibility == "public"@ <==> profile.visibility == Visibility::Public
                &&& lfs_enabled
                &&& request.url == "https://gitlab.com/api/v4/projects"@
            }
        }),
{
    lemma_every_request(EnsureView::start(profile), replies, i);
    reveal_strlit("private");
    reveal_strlit("public");
    assert("private"@.len() == 7);
    assert("public"@.len() == 6);
}

/// Every request of a run is that of the procedure at one of its stages.
proof fn lemma_every_request(procedure: EnsureView, replies: Seq<ProviderReplyView>, i: int)
    requires
        0 <= i < ensure_requests(procedure, replies).len(),
    ensures
        exists|stage: EnsureStageView|
            ensure_requests(procedure, replies)[i] == #[trigger] (EnsureView {
                profile: procedure.profile,
                stage,
            }).request(),
    decreases replies.len(),
{
    let requests = ensure_requests(procedure, replies);
    if i == 0 {
        let same = EnsureView { profile: procedure.profile, stage: procedure.stage };
        assert(same == procedure);
        assert(requests[0] == same.request());
    } else {
        let next = procedure.resume(replies[0])->Continue_0;
        assert(requests[i] == ensure_requests(next, replies.drop_first())[i - 1]);
        lemma_every_request(next, replies.drop_first(), i - 1);
        assert(next.profile == procedure.profile);
    }
}

/// Two profiles that differ in their visibility alone have different repositories created.
pub proof fn visibilities_are_told_apart(a: ProfileView, b: ProfileView, login: Seq<char>)
    requires
        a.provider == b.provider,
        a.visibility != b.visibility,
    ensures
        (EnsureView { profile: a, stage: EnsureStageView::Create { login } }).request().body != (
        EnsureView { profile: b, stage: EnsureStageView::Create { login } }).request().body,
{
    reveal_strlit("private");
    reveal_strlit("public");
    assert("private"@.len() == 7);
    assert("public"@.len() == 6);
}

/// What a request asks for, and where: the token's owner, the repository of the profile's name that
/// belongs to the owner, or its creation. GitLab takes the path of a project as one segment, which is
/// percent-encoded.
pub proof fn requests_go_to_the_provider(profile: ProfileView, login: Seq<char>)
    ensures
        ({
            let user = (EnsureView { profile, stage: EnsureStageView::User }).request();
            let lookup = (EnsureView { profile, stage: EnsureStageView::Lookup { login } }).request();
            let create = (EnsureView { profile, stage: EnsureStageView::Create { login } }).request();
            let name = profile.repository_name;
            &&& user.method == Method::Get && user.expected == Expected::User
            &&& lookup.method == Method::Get && lookup.expected == Expected::FoundRepository
            &&& create.method == Method::Post && create.expected == Expected::CreatedRepository
            &&& match profile.provider {
                Provider::Github => {
                    &&& user.url == "https://api.github.com/user"@
                    &&& lookup.url == "https://api.github.com/repos/"@ + login + seq!['/'] + name
                    &&& create.url == "https://api.github.com/user/repos"@
                },
                Provider::Gitlab => {
                    &&& user.url == "https://gitlab.com/api/v4/user"@
                    &&& lookup.url == "https://gitlab.com/api/v4/projects/"@ + encoded(
                        login + seq!['/'] + name,
                    )
                    &&& create.url == "https://gitlab.com/api/v4/projects"@
                },
            }
        }),
{
    reveal_strlit("/");
    assert("/"@ =~= seq!['/']);
}

/// Every request says what it accepts and who asks, and how the token is to be shown. The headers
/// depend on the provider alone.
pub proof fn requests_introduce_themselves(procedure: EnsureView)
    ensures
        ({
            let request = procedure.request();
            match procedure.profile.provider {
                Provider::Github => {
                    &&& request.authorization == Authorization::Bearer
                    &&& request.headers.len() == 3
                    &&& request.headers[0] == ("Accept"@, "application/vnd.github+json"@)
                    &&& request.headers[1] == ("X-GitHub-Api-Version"@, "2022-11-28"@)
                    &&& request.headers[2] == ("User-Agent"@, "GitPic/1.0"@)
                },
                Provider::Gitlab => {
                    &&& request.authorization == Authorization::PrivateToken
                    &&& request.headers.len() == 2
                    &&& request.headers[0] == ("Accept"@, "application/json"@)
                    &&& request.headers[1] == ("User-Agent"@, "GitPic/1.0"@)
                },
            }
        }),
{
}

/// A refusal says which provider refused, whether it was the credentials that it rejected, and why: in
/// the provider's words, or else in those for the status, or else in words of its own.
pub proof fn refusals_say_who_and_why(
    provider: Provider,
    status: u16,
    message: Option<Seq<char>>,
    reason: Option<Seq<char>>,
)
    ensures
        ({
            let name = match provider {
                Provider::Github => "GitHub"@,
                Provider::Gitlab => "GitLab"@,
            };
            let why = if message is Some {
                message->0
            } else if reason is Some {
                reason->0
            } else {
                "The provider rejected the request."@
            };
            let what = if status == 401 || status == 403 {
                " rejected the credentials or token permissions: "@
            } else {
                " request failed: "@
            };
            refusal(provider, status, message, reason) == Failure::Message(name + what + why)
        }),
{
    reveal_strlit(" rejected the credentials or token permissions: ");
    reveal_strlit(" rejected the credentials or token permissions");
    reveal_strlit(" request failed: ");
    reveal_strlit(" request failed");
    reveal_strlit(": ");
    assert(" rejected the credentials or token permissions: "@
        =~= " rejected the credentials or token permissions"@ + ": "@);
    assert(" request failed: "@ =~= " request failed"@ + ": "@);
    let text = refusal(provider, status, message, reason)->Message_0;
    let name = provider.spec_display_name();
    let why = if message is Some {
        message->0
    } else if reason is Some {
        reason->0
    } else {
        "The provider rejected the request."@
    };
    if status == 401 || status == 403 {
        assert(text =~= name + " rejected the credentials or token permissions: "@ + why);
    } else {
        assert(text =~= name + " request failed: "@ + why);
    }
}

/// The words of a provider for what went wrong: where its reply is an object with a message that is a
/// text, that text; where it has none but an error that is a text, that one; and where its message is
/// no text, the message as JSON.
pub proof fn providers_are_quoted(body: Seq<char>, members: Map<Seq<char>, JsonView>)
    requires
        json_parsed(body) == Some(JsonView::Object(members)),
    ensures
        ({
            let has_message = members.contains_key("message"@);
            let has_error = members.contains_key("error"@);
            &&& has_message && members["message"@] is Text ==> body_message(body) == Some(
                members["message"@]->Text_0,
            )
            &&& !(has_message && members["message"@] is Text) && has_error && members["error"@]
                is Text ==> body_message(body) == Some(members["error"@]->Text_0)
            &&& !(has_error && members["error"@] is Text) && has_message && !(members["message"@]
                is Text) ==> body_message(body) == Some(json_text(members["message"@]))
            &&& !(has_error && members["error"@] is Text) && !has_message ==> body_message(body)
                is None
        }),
{
}

/// A reply that is no JSON object has no words for what went wrong.
pub proof fn other_replies_are_not_quoted(body: Seq<char>)
    requires
        json_parsed(body) is None || !(json_parsed(body)->0 is Object),
    ensures
        body_message(body) is None,
{
}

/// A reply succeeds exactly where its status is one of the hundred from two hundred on. Its content is
/// then what was read; content that could not be read is reported as such, under the provider's name.
pub proof fn replies_succeed_by_their_status(
    provider: Provider,
    status: u16,
    body: Seq<char>,
    content: Option<Seq<char>>,
)
    ensures
        200 <= status <= 299 && content is Some ==> decoded(provider, status, body, content) == Ok::<
            Seq<char>,
            Failure,
        >(content->0),
        200 <= status <= 299 && content is None ==> decoded(provider, status, body, content)
            == Err::<Seq<char>, Failure>(
            Failure::Message(
                match provider {
                    Provider::Github => "GitHub"@,
                    Provider::Gitlab => "GitLab"@,
                } + " returned a response GitPic could not understand."@,
            ),
        ),
        status < 200 || status > 299 ==> decoded(provider, status, body, content) == Err::<
            Seq<char>,
            Failure,
        >(refusal(provider, status, body_message(body), canonical_reason(status))),
{
}

/// A repository that a provider found or created is reported with its own name, addresses and default
/// branch; a branch that the provider does not name is `main`. GitHub names the owner. At GitLab the
/// owner is what comes before the last slash of the full path, or else the user who asked.
pub proof fn repositories_are_reported_as_described(
    procedure: EnsureView,
    login: Seq<char>,
    status: u16,
    body: Seq<char>,
    content: ContentView,
    owner: Seq<char>,
    rest: Seq<char>,
)
    requires
        procedure.stage == (EnsureStageView::Lookup { login }) || procedure.stage
            == (EnsureStageView::Create { login }),
        200 <= status <= 299,
        !rest.contains('/'),
    ensures
        ({
            let reply = ProviderReplyView::Response { status, body, content: Some(content) };
            let after = procedure.resume(reply);
            &&& procedure.profile.provider == Provider::Github ==> (content matches
                ContentView::GitHub {
                name,
                clone_url,
                html_url,
                default_branch,
                owner: named,
            } ==> after == EnsureStep::Finish(
                Ok(
                    RepositoryView {
                        provider: Provider::Github,
                        owner: named,
                        name,
                        clone_url,
                        web_url: html_url,
                        default_branch: if default_branch is Some {
                            default_branch->0
                        } else {
                            "main"@
                        },
                    },
                ),
            ))
            &&& procedure.profile.provider == Provider::Gitlab ==> (content matches
                ContentView::GitLab {
                path,
                path_with_namespace,
                http_url_to_repo,
                web_url,
                default_branch,
            } ==> {
                let found = RepositoryView {
                    provider: Provider::Gitlab,
                    owner,
                    name: path,
                    clone_url: http_url_to_repo,
                    web_url,
                    default_branch: if default_branch is Some {
                        default_branch->0
                    } else {
                        "main"@
                    },
                };
                &&& path_with_namespace == owner + seq!['/'] + rest ==> after == EnsureStep::Finish(
                    Ok(found),
                )
                &&& path_with_namespace == rest ==> after == EnsureStep::Finish(
                    Ok(RepositoryView { owner: login, ..found }),
                )
            })
        }),
{
    let path = owner + seq!['/'] + rest;
    assert forall|k: int| 0 <= k < rest.len() implies rest[k] != '/' by {
        assert(rest.contains(rest[k]));
    }
    lemma_is_last_index(rest, '/', -1);
    assert forall|k: int| owner.len() < k < path.len() implies path[k] != '/' by {
        assert(path[k] == rest[k - owner.len() - 1]);
    }
    lemma_is_last_index(path, '/', owner.len() as int);
    assert(path.take(owner.len() as int) =~= owner);
}

/// A user who is the profile's, whatever the case of letters, has the repository looked for under the
/// name by which the provider knows the user. A repository that is not found is created; whatever else
/// the reply, the procedure then ends.
pub proof fn missing_repositories_are_created(
    procedure: EnsureView,
    login: Seq<char>,
    status: u16,
    body: Seq<char>,
    content: Option<ContentView>,
    failure: Failure,
)
    ensures
        ({
            let reply = ProviderReplyView::Response { status, body, content };
            let profile = procedure.profile;
            let name = match profile.provider {
                Provider::Github => "GitHub"@,
                Provider::Gitlab => "GitLab"@,
            };
            &&& procedure.resume(ProviderReplyView::Failed(failure)) == EnsureStep::Finish(
                Err(failure),
            )
            &&& procedure.stage is User && 200 <= status <= 299 && content == Some(
                ContentView::User(login),
            ) ==> procedure.resume(reply) == if lowered(login) == lowered(profile.username) {
                EnsureStep::Continue(
                    EnsureView { profile, stage: EnsureStageView::Lookup { login } },
                )
            } else {
                EnsureStep::Finish(
                    Err(
                        Failure::Message(
                            "The "@ + name + " token belongs to “"@ + login + "”, not “"@
                                + profile.username + "”."@,
                        ),
                    ),
                )
            }
            &&& procedure.stage == (EnsureStageView::Lookup { login }) && status == 404
                ==> procedure.resume(reply) == EnsureStep::Continue(
                EnsureView { profile, stage: EnsureStageView::Create { login } },
            )
            &&& procedure.stage is Lookup && status != 404 ==> procedure.resume(reply) is Finish
            &&& procedure.stage is Create ==> procedure.resume(reply) is Finish
        }),
{
}

/// The body of a reply is looked at, but for that of a repository that was looked for and not found.
pub proof fn bodies_are_read_unless_nothing_was_found(expected: Expected, status: u16)
    ensures
        expected.spec_reads_body(status) <==> expected != Expected::FoundRepository || status != 404,
{
}

} // verus!

//! The surroundings of a Git command: the program that is run, its environment variables, and the
//! helper from which Git gets the credentials.
use vstd::prelude::*;

use crate::models::{Credentials, CredentialsView};
use crate::text::words;

verus! {

/// The operating systems that are told apart.
#[derive(Clone, Copy, Debug, PartialEq, Eq, Structural)]
pub enum Platform {
    Macos,
    Windows,
    Other,
}

// ---------------------------------------------------------------------------------------------
// The credentials helper
// ---------------------------------------------------------------------------------------------
/// The program that Git runs to ask for a user's name or password, and the credentials that it
/// answers with.
#[derive(Debug)]
pub struct AskPass {
    /// The name of the program's file.
    pub file_name: String,
    /// What the program's file holds.
    pub script: String,
    pub username: String,
    pub token: String,
}

/// The model of an [`AskPass`].
#[verifier::ext_equal]
pub struct AskPassView {
    pub file_name: Seq<char>,
    pub script: Seq<char>,
    pub username: Seq<char>,
    pub token: Seq<char>,
}

impl View for AskPass {
    type V = AskPassView;

    open spec fn view(&self) -> AskPassView {
        AskPassView {
            file_name: self.file_name@,
            script: self.script@,
            username: self.username@,
            token: self.token@,
        }
    }
}

/// The helper's file name.
pub open spec fn helper_name(platform: Platform) -> Seq<char> {
    if platform == Platform::Windows {
        "askpass.cmd"@
    } else {
        "askpass.sh"@
    }
}

/// The helper's text. It answers from its environment, and holds no credentials itself.
pub open spec fn helper_text(platform: Platform) -> Seq<char> {
    if platform == Platform::Windows {
        "@echo off\r\necho %~1 | findstr /I \"Username\" >nul\r\nif %errorlevel%==0 (echo %GITPIC_USERNAME%) else (echo %GITPIC_TOKEN%)\r\n"@
    } else {
        "#!/bin/sh\ncase \"$1\" in\n  *sername*) printf '%s\\n' \"$GITPIC_USERNAME\" ;;\n  *) printf '%s\\n' \"$GITPIC_TOKEN\" ;;\nesac\n"@
    }
}

/// The helper from which Git gets the given credentials.
pub open spec fn ask_pass(platform: Platform, credentials: CredentialsView) -> AskPassView {
    AskPassView {
        file_name: helper_name(platform),
        script: helper_text(platform),
        username: credentials.username,
        token: credentials.token,
    }
}

impl AskPass {
    /// The helper from which Git gets the given credentials.
    pub fn new(platform: Platform, credentials: &Credentials) -> (r: AskPass)
        ensures
            r@ == ask_pass(platform, credentials@),
    {
        let (file_name, script) = match platform {
            Platform::Windows => (
                "askpass.cmd",
                "@echo off\r\necho %~1 | findstr /I \"Username\" >nul\r\nif %errorlevel%==0 (echo %GITPIC_USERNAME%) else (echo %GITPIC_TOKEN%)\r\n",
            ),
            _ => (
                "askpass.sh",
                "#!/bin/sh\ncase \"$1\" in\n  *sername*) printf '%s\\n' \"$GITPIC_USERNAME\" ;;\n  *) printf '%s\\n' \"$GITPIC_TOKEN\" ;;\nesac\n",
            ),
        };
        AskPass {
            file_name: file_name.to_owned(),
            script: script.to_owned(),
            username: credentials.username.clone(),
            token: credentials.token.clone(),
        }
    }
}

/// Neither the user's name nor the token goes into the helper's file: on one platform it is the same
/// for all credentials. The helper answers with the credentials that it was made for.
pub proof fn helpers_hold_no_credentials(
    platform: Platform,
    a: CredentialsView,
    b: CredentialsView,
)
    ensures
        ask_pass(platform, a).file_name == ask_pass(platform, b).file_name,
        ask_pass(platform, a).script == ask_pass(platform, b).script,
        ask_pass(platform, a).username == a.username,
        ask_pass(platform, a).token == a.token,
{
}

// ---------------------------------------------------------------------------------------------
// Environment variables
// ---------------------------------------------------------------------------------------------
/// The value of an environment variable: a text, or a path that is known where Git is run.
#[derive(Debug)]
pub enum VariableValue {
    Text(String),
    /// The path of the credentials helper.
    AskPassPath,
    /// The folders in which programs are looked for.
    SearchPath,
}

/// The model of a [`VariableValue`].
#[verifier::ext_equal]
pub enum ValueView {
    Text(Seq<char>),
    AskPassPath,
    SearchPath,
}

impl View for VariableValue {
    type V = ValueView;

    open spec fn view(&self) -> ValueView {
        match self {
            VariableValue::Text(text) => ValueView::Text(text@),
            VariableValue::AskPassPath => ValueView::AskPassPath,
            VariableValue::SearchPath => ValueView::SearchPath,
        }
    }
}

/// An environment variable.
#[derive(Debug)]
pub struct Variable {
    pub name: String,
    pub value: VariableValue,
}

/// The model of a [`Variable`].
#[verifier::ext_equal]
pub struct VariableView {
    pub name: Seq<char>,
    pub value: ValueView,
}

impl View for Variable {
    type V = VariableView;

    open spec fn view(&self) -> VariableView {
        VariableView { name: self.name@, value: self.value@ }
    }
}

/// The environment variables of a Git command, in the order in which they are set.
#[derive(Debug)]
pub struct Environment {
    pub variables: Vec<Variable>,
}

impl View for Environment {
    type V = Seq<VariableView>;

    open spec fn view(&self) -> Seq<VariableView> {
        self.variables@.map_values(|variable: Variable| variable@)
    }
}

/// The variable that holds the token for the credentials helper.
pub open spec fn token_variable() -> Seq<char> {
    "GITPIC_TOKEN"@
}

/// The environment variables of a Git command: Git asks the helper, and only the helper, for the
/// credentials, and the helper finds them in its environment.
pub open spec fn environment(helper: AskPassView) -> Seq<VariableView> {
    seq![
        VariableView { name: "GIT_ASKPASS"@, value: ValueView::AskPassPath },
        VariableView { name: "GIT_ASKPASS_REQUIRE"@, value: ValueView::Text("force"@) },
        VariableView { name: "GIT_TERMINAL_PROMPT"@, value: ValueView::Text("0"@) },
        VariableView {
            name: "GITPIC_USERNAME"@,
            value: ValueView::Text(helper.username),
        },
        VariableView { name: token_variable(), value: ValueView::Text(helper.token) },
        VariableView { name: "PATH"@, value: ValueView::SearchPath },
    ]
}

fn variable(name: &str, value: VariableValue) -> (r: Variable)
    ensures
        r@ == (VariableView { name: name@, value: value@ }),
{
    Variable { name: name.to_owned(), value }
}

/// The environment variables with which a Git command is run.
pub fn git_environment(helper: &AskPass) -> (r: Environment)
    ensures
        r@ == environment(helper@),
{
    let mut variables: Vec<Variable> = Vec::new();
    variables.push(variable("GIT_ASKPASS", VariableValue::AskPassPath));
    variables.push(variable("GIT_ASKPASS_REQUIRE", VariableValue::Text("force".to_owned())));
    variables.push(variable("GIT_TERMINAL_PROMPT", VariableValue::Text("0".to_owned())));
    variables.push(
        variable("GITPIC_USERNAME", VariableValue::Text(helper.username.clone())),
    );
    variables.push(variable("GITPIC_TOKEN", VariableValue::Text(helper.token.clone())));
    variables.push(variable("PATH", VariableValue::SearchPath));
    let r = Environment { variables };
    assert(r@ =~= environment(helper@));
    r
}

/// The token reaches a Git command in one environment variable alone: with another token, all the
/// other variables are the same.
pub proof fn the_token_is_in_one_variable(
    platform: Platform,
    a: CredentialsView,
    b: CredentialsView,
    i: int,
)
    requires
        a.username == b.username,
        0 <= i < environment(ask_pass(platform, a)).len(),
    ensures
        ({
            let first = environment(ask_pass(platform, a));
            let second = environment(ask_pass(platform, b));
            &&& first.len() == second.len()
            &&& first[i].name == second[i].name
            &&& first[i].name != token_variable() ==> first[i] == second[i]
            &&& first[i].name == token_variable() ==> first[i].value == ValueView::Text(a.token)
        }),
{
    reveal_strlit("GIT_ASKPASS");
    reveal_strlit("GIT_ASKPASS_REQUIRE");
    reveal_strlit("GIT_TERMINAL_PROMPT");
    reveal_strlit("GITPIC_USERNAME");
    reveal_strlit("GITPIC_TOKEN");
    reveal_strlit("PATH");
    assert("GITPIC_TOKEN"@.len() == 12);
}

// ---------------------------------------------------------------------------------------------
// The Git program
// ---------------------------------------------------------------------------------------------
/// Which program Git is.
#[derive(Debug)]
pub enum GitExecutable {
    /// The one that the user's environment names.
    Chosen,
    /// The one at this path, or of this name.
    Named(String),
    /// The one that was found below the folder in the environment variable of this number among
    /// those of [`windows_install_variables`].
    Installed(usize),
}

/// The model of a [`GitExecutable`].
#[verifier::ext_equal]
pub enum ExecutableView {
    Chosen,
    Named(Seq<char>),
    Installed(int),
}

impl View for GitExecutable {
    type V = ExecutableView;

    open spec fn view(&self) -> ExecutableView {
        match self {
            GitExecutable::Chosen => ExecutableView::Chosen,
            GitExecutable::Named(name) => ExecutableView::Named(name@),
            GitExecutable::Installed(number) => ExecutableView::Installed(*number as int),
        }
    }
}

/// The environment variables of Windows that name folders in which programs are installed, in the
/// order in which Git is looked for there.
pub fn windows_install_variables() -> (r: Vec<String>)
    ensures
        r.deep_view() == seq!["ProgramFiles"@, "ProgramFiles(x86)"@, "LOCALAPPDATA"@],
{
    let r = words(&["ProgramFiles", "ProgramFiles(x86)", "LOCALAPPDATA"]);
    assert(r.deep_view() =~= seq!["ProgramFiles"@, "ProgramFiles(x86)"@, "LOCALAPPDATA"@]);
    r
}

/// The folders and the file that lead to Git from a folder in which programs are installed, on
/// Windows.
pub fn windows_git_path() -> (r: Vec<String>)
    ensures
        r.deep_view() == seq!["Git"@, "cmd"@, "git.exe"@],
{
    let r = words(&["Git", "cmd", "git.exe"]);
    assert(r.deep_view() =~= seq!["Git"@, "cmd"@, "git.exe"@]);
    r
}

/// The environment variable in which a user can name the Git program.
pub fn chosen_git_variable() -> (r: &'static str)
    ensures
        r@ == "GITPIC_GIT_PATH"@,
{
    "GITPIC_GIT_PATH"
}

/// The number of the first folder in which Git was found, or -1 where it was found in none.
pub open spec fn first_found(found: Seq<bool>) -> int
    decreases found.len(),
{
    if found.len() == 0 {
        -1
    } else if found[0] {
        0
    } else if first_found(found.drop_first()) < 0 {
        -1
    } else {
        1 + first_found(found.drop_first())
    }
}

/// Which program Git is, by the operating system and, on Windows, by where it was found.
pub open spec fn platform_executable(platform: Platform, found: Seq<bool>) -> ExecutableView {
    match platform {
        Platform::Macos => ExecutableView::Named("/usr/bin/git"@),
        Platform::Windows => if first_found(found) >= 0 {
            ExecutableView::Installed(first_found(found))
        } else {
            ExecutableView::Named("git.exe"@)
        },
        Platform::Other => ExecutableView::Named("git"@),
    }
}

proof fn lemma_first_found(found: Seq<bool>, at: int)
    requires
        0 <= at <= found.len(),
        at < found.len() ==> found[at],
        forall|k: int| 0 <= k < at ==> !#[trigger] found[k],
    ensures
        first_found(found) == if at < found.len() {
            at
        } else {
            -1
        },
    decreases found.len(),
{
    if at > 0 {
        let rest = found.drop_first();
        assert forall|k: int| 0 <= k < at - 1 implies !#[trigger] rest[k] by {
            assert(rest[k] == found[k + 1]);
        }
        assert(!found[0]);
        lemma_first_found(rest, at - 1);
    }
}

/// Which program Git is where the user's environment names none. On Windows `found` says, for each
/// of the folders where programs are installed, whether Git is there.
pub fn platform_git_executable(platform: Platform, found: &Vec<bool>) -> (r: GitExecutable)
    ensures
        r@ == platform_executable(platform, found@),
{
    match platform {
        Platform::Macos => GitExecutable::Named("/usr/bin/git".to_owned()),
        Platform::Other => GitExecutable::Named("git".to_owned()),
        Platform::Windows => {
            let mut i: usize = 0;
            while i < found.len()
                invariant
                    i <= found.len(),
                    platform == Platform::Windows,
                    forall|k: int| 0 <= k < i ==> !#[trigger] found@[k],
                decreases found.len() - i,
            {
                if found[i] {
                    proof {
                        lemma_first_found(found@, i as int);
                    }
                    return GitExecutable::Installed(i);
                }
                i = i + 1;
            }
            proof {
                lemma_first_found(found@, i as int);
            }
            GitExecutable::Named("git.exe".to_owned())
        },
    }
}

/// Which program Git is: the one that the user's environment names, if it names one.
pub fn git_executable(chosen: bool, platform: Platform, found: &Vec<bool>) -> (r: GitExecutable)
    ensures
        r@ == if chosen {
            ExecutableView::Chosen
        } else {
            platform_executable(platform, found@)
        },
{
    if chosen {
        GitExecutable::Chosen
    } else {
        platform_git_executable(platform, found)
    }
}

// ---------------------------------------------------------------------------------------------
// Where programs are looked for
// ---------------------------------------------------------------------------------------------
/// A part of the list of folders in which programs are looked for.
#[derive(Debug)]
pub enum SearchFolder {
    /// The folder of the Git program.
    Executable,
    /// The folder of this path.
    Fixed(String),
    /// The folders that the environment names.
    Inherited,
}

/// The model of a [`SearchFolder`].
#[verifier::ext_equal]
pub enum FolderView {
    Executable,
    Fixed(Seq<char>),
    Inherited,
}

impl View for SearchFolder {
    type V = FolderView;

    open spec fn view(&self) -> FolderView {
        match self {
            SearchFolder::Executable => FolderView::Executable,
            SearchFolder::Fixed(path) => FolderView::Fixed(path@),
            SearchFolder::Inherited => FolderView::Inherited,
        }
    }
}

/// The folders in which programs are looked for, in the order of the search.
#[derive(Debug)]
pub struct SearchFolders {
    pub folders: Vec<SearchFolder>,
}

impl View for SearchFolders {
    type V = Seq<FolderView>;

    open spec fn view(&self) -> Seq<FolderView> {
        self.folders@.map_values(|folder: SearchFolder| folder@)
    }
}

/// The folders in which Git finds its own programs: first the one that Git is in, if its path names
/// one; on macOS then those of Homebrew and of the system; and at last those that the environment
/// names, if it does.
pub open spec fn search_folders(
    platform: Platform,
    in_folder: bool,
    inherited: bool,
) -> Seq<FolderView> {
    let first = if in_folder {
        seq![FolderView::Executable]
    } else {
        Seq::empty()
    };
    let second = if platform == Platform::Macos {
        seq![
            FolderView::Fixed("/opt/homebrew/bin"@),
            FolderView::Fixed("/usr/local/bin"@),
            FolderView::Fixed("/usr/bin"@),
            FolderView::Fixed("/bin"@),
        ]
    } else {
        Seq::empty()
    };
    let third = if inherited {
        seq![FolderView::Inherited]
    } else {
        Seq::empty()
    };
    first + second + third
}

/// The folders in which programs are looked for when Git is run.
pub fn git_path_environment(platform: Platform, in_folder: bool, inherited: bool) -> (r:
    SearchFolders)
    ensures
        r@ == search_folders(platform, in_folder, inherited),
{
    let mut folders: Vec<SearchFolder> = Vec::new();
    if in_folder {
        folders.push(SearchFolder::Executable);
    }
    match platform {
        Platform::Macos => {
            folders.push(SearchFolder::Fixed("/opt/homebrew/bin".to_owned()));
            folders.push(SearchFolder::Fixed("/usr/local/bin".to_owned()));
            folders.push(SearchFolder::Fixed("/usr/bin".to_owned()));
            folders.push(SearchFolder::Fixed("/bin".to_owned()));
        },
        _ => {},
    }
    if inherited {
        folders.push(SearchFolder::Inherited);
    }
    let r = SearchFolders { folders };
    assert(r@ =~= search_folders(platform, in_folder, inherited));
    r
}

// ---------------------------------------------------------------------------------------------
// What the surroundings are for
// ---------------------------------------------------------------------------------------------
/// A Git command finds the credentials that it is run with, character for character, in the two
/// variables that the helper reads; and Git is told to ask the helper, and never the terminal.
pub proof fn git_finds_the_credentials(platform: Platform, credentials: CredentialsView)
    ensures
        ({
            let variables = environment(ask_pass(platform, credentials));
            &&& variables.len() == 6
            &&& variables[0] == (VariableView {
                name: "GIT_ASKPASS"@,
                value: ValueView::AskPassPath,
            })
            &&& variables[1] == (VariableView {
                name: "GIT_ASKPASS_REQUIRE"@,
                value: ValueView::Text("force"@),
            })
            &&& variables[2] == (VariableView {
                name: "GIT_TERMINAL_PROMPT"@,
                value: ValueView::Text("0"@),
            })
            &&& variables[3] == (VariableView {
                name: "GITPIC_USERNAME"@,
                value: ValueView::Text(credentials.username),
            })
            &&& variables[4] == (VariableView {
                name: "GITPIC_TOKEN"@,
                value: ValueView::Text(credentials.token),
            })
            &&& variables[5] == (VariableView { name: "PATH"@, value: ValueView::SearchPath })
        }),
{
}

/// On Windows, Git is the first that was found: none of the folders before it holds one. Where it was
/// found nowhere, it is the program of that name.
pub proof fn the_first_git_is_taken(found: Seq<bool>)
    ensures
        platform_executable(Platform::Macos, found) == ExecutableView::Named("/usr/bin/git"@),
        platform_executable(Platform::Other, found) == ExecutableView::Named("git"@),
        match platform_executable(Platform::Windows, found) {
            ExecutableView::Installed(at) => {
                &&& 0 <= at < found.len()
                &&& found[at]
                &&& forall|k: int| 0 <= k < at ==> !#[trigger] found[k]
            },
            ExecutableView::Named(name) => name == "git.exe"@ && forall|k: int|
                0 <= k < found.len() ==> !#[trigger] found[k],
            ExecutableView::Chosen => false,
        },
{
    lemma_found_first(found);
}

proof fn lemma_found_first(found: Seq<bool>)
    ensures
        -1 <= first_found(found) < found.len(),
        first_found(found) >= 0 ==> found[first_found(found)] && forall|k: int|
            0 <= k < first_found(found) ==> !#[trigger] found[k],
        first_found(found) < 0 ==> forall|k: int| 0 <= k < found.len() ==> !#[trigger] found[k],
    decreases found.len(),
{
    if found.len() > 0 && !found[0] {
        let rest = found.drop_first();
        lemma_found_first(rest);
        assert forall|k: int|
            0 <= k < found.len() && (first_found(found) < 0 || k < first_found(found)) implies
            !#[trigger] found[k] by {
            if k > 0 {
                assert(found[k] == rest[k - 1]);
            }
        }
    }
}

/// Programs are looked for first where Git is, if that is a folder, then on macOS in the folders of
/// Homebrew and of the system, and last where the environment says.
pub proof fn folders_are_searched_in_order(platform: Platform, in_folder: bool, inherited: bool)
    ensures
        ({
            let folders = search_folders(platform, in_folder, inherited);
            let skipped: int = if in_folder {
                1
            } else {
                0
            };
            let fixed: int = if platform == Platform::Macos {
                4
            } else {
                0
            };
            &&& folders.len() == skipped + fixed + if inherited {
                1int
            } else {
                0int
            }
            &&& in_folder ==> folders[0] == FolderView::Executable
            &&& platform == Platform::Macos ==> {
                &&& folders[skipped] == FolderView::Fixed("/opt/homebrew/bin"@)
                &&& folders[skipped + 1] == FolderView::Fixed("/usr/local/bin"@)
                &&& folders[skipped + 2] == FolderView::Fixed("/usr/bin"@)
                &&& folders[skipped + 3] == FolderView::Fixed("/bin"@)
            }
            &&& inherited ==> folders[skipped + fixed] == FolderView::Inherited
        }),
{
}

} // verus!

//! The names that a path is made of, as the operating systems divide it.
use vstd::prelude::*;

use crate::git::environment::Platform;
use crate::text::{chars_of, last_index, last_position, lemma_is_last_index, lemma_last_index, same};

verus! {

// ---------------------------------------------------------------------------------------------
// Separators
// ---------------------------------------------------------------------------------------------
/// How a path is divided into names.
#[derive(Clone, Copy, Debug, PartialEq, Eq, Structural)]
pub enum Division {
    /// At slashes.
    Slash,
    /// At slashes and backslashes.
    Either,
    /// At backslashes.
    Backslash,
}

impl Division {
    /// The character divides a path.
    pub open spec fn spec_divides(self, c: char) -> bool {
        match self {
            Division::Slash => c == '/',
            Division::Either => c == '/' || c == '\\',
            Division::Backslash => c == '\\',
        }
    }

    /// Whether the character divides a path.
    pub fn divides(self, c: char) -> (r: bool)
        ensures
            r == self.spec_divides(c),
    {
        match self {
            Division::Slash => c == '/',
            Division::Either => c == '/' || c == '\\',
            Division::Backslash => c == '\\',
        }
    }
}

/// No character of the text divides a path.
pub open spec fn undivided(division: Division, text: Seq<char>) -> bool {
    forall|i: int| 0 <= i < text.len() ==> !division.spec_divides(#[trigger] text[i])
}

/// How paths are divided on a platform. A verbatim path of Windows, which begins with `\\?\`, is
/// divided at backslashes alone.
pub open spec fn division(platform: Platform, path: Seq<char>) -> Division {
    if platform != Platform::Windows {
        Division::Slash
    } else if verbatim(path) {
        Division::Backslash
    } else {
        Division::Either
    }
}

/// The path begins with `\\?\`.
pub open spec fn verbatim(path: Seq<char>) -> bool {
    path.len() >= 4 && path[0] == '\\' && path[1] == '\\' && path[2] == '?' && path[3] == '\\'
}

// ---------------------------------------------------------------------------------------------
// What stands before the names
// ---------------------------------------------------------------------------------------------
/// A letter and a colon, which name a drive, stand at a position of the path.
pub open spec fn drive_at(path: Seq<char>, at: int) -> bool {
    &&& at + 2 <= path.len()
    &&& 'a' <= path[at] <= 'z' || 'A' <= path[at] <= 'Z'
    &&& path[at + 1] == ':'
}

/// How many characters there are from a position on up to the next division of the path.
pub open spec fn run(division: Division, path: Seq<char>, from: int) -> int
    decreases path.len() - from,
{
    if from < 0 || from >= path.len() || division.spec_divides(path[from]) {
        0
    } else {
        1 + run(division, path, from + 1)
    }
}

/// The length of the prefix of a verbatim path: a server and a share after `UNC`, a drive, or any
/// one name.
pub open spec fn verbatim_prefix(path: Seq<char>) -> int {
    if path.len() >= 8 && path[4] == 'U' && path[5] == 'N' && path[6] == 'C'
        && Division::Either.spec_divides(path[7]) {
        let server = run(Division::Backslash, path, 8);
        let share = run(Division::Backslash, path, 9 + server);
        8 + server + if share > 0 {
            1 + share
        } else {
            0
        }
    } else if drive_at(path, 4) && (path.len() == 6 || Division::Either.spec_divides(path[6])) {
        6
    } else {
        4 + run(Division::Backslash, path, 4)
    }
}

/// The length of the prefix of a path, which only Windows knows: that of a verbatim path; a device
/// after `\\.\`; a server and a share after `\\`; or a drive.
pub open spec fn prefix_length(platform: Platform, path: Seq<char>) -> int {
    if platform != Platform::Windows {
        0
    } else if verbatim(path) {
        verbatim_prefix(path)
    } else if path.len() >= 2 && Division::Either.spec_divides(path[0])
        && Division::Either.spec_divides(path[1]) {
        if path.len() >= 4 && path[2] == '.' && Division::Either.spec_divides(path[3]) {
            4 + run(Division::Either, path, 4)
        } else {
            let server = run(Division::Either, path, 2);
            let share = run(Division::Either, path, 3 + server);
            if server > 0 && share > 0 {
                3 + server + share
            } else {
                0
            }
        }
    } else if drive_at(path, 0) {
        2
    } else {
        0
    }
}

/// Where the names of a path begin: behind its prefix, and behind the root that may follow.
pub open spec fn body_start(platform: Platform, path: Seq<char>) -> int {
    let prefix = prefix_length(platform, path);
    let root = if platform == Platform::Windows {
        Division::Either
    } else {
        Division::Slash
    };
    if prefix < path.len() && root.spec_divides(path[prefix]) {
        prefix + 1
    } else {
        prefix
    }
}

proof fn lemma_run(division: Division, path: Seq<char>, from: int)
    requires
        0 <= from,
    ensures
        0 <= run(division, path, from),
        from <= path.len() ==> from + run(division, path, from) <= path.len(),
        from > path.len() ==> run(division, path, from) == 0,
        from + run(division, path, from) < path.len() ==> division.spec_divides(
            path[from + run(division, path, from)],
        ),
    decreases path.len() - from,
{
    if from < path.len() {
        lemma_run(division, path, from + 1);
    }
}

/// The names begin within the path. What stands right before them is a division or a colon.
proof fn lemma_body_start(platform: Platform, path: Seq<char>)
    ensures
        0 <= prefix_length(platform, path) <= path.len(),
        prefix_length(platform, path) <= body_start(platform, path) <= path.len(),
        body_start(platform, path) > 0 && body_start(platform, path) < path.len() ==> {
            let c = path[body_start(platform, path) - 1];
            c == '/' || c == '\\' || c == ':'
        },
        platform == Platform::Windows && verbatim(path) ==> prefix_length(platform, path) >= 4,
{
    lemma_run(Division::Backslash, path, 4);
    lemma_run(Division::Either, path, 4);
    lemma_run(Division::Either, path, 2);
    lemma_run(Division::Either, path, 3 + run(Division::Either, path, 2));
    if path.len() >= 8 {
        lemma_run(Division::Backslash, path, 8);
        lemma_run(Division::Backslash, path, 9 + run(Division::Backslash, path, 8));
    }
}

// ---------------------------------------------------------------------------------------------
// The last name
// ---------------------------------------------------------------------------------------------
/// Every name names a file but the empty one and those of the folder itself and of its parent.
pub open spec fn names_file(name: Seq<char>) -> bool {
    name.len() > 0 && name != "."@ && name != ".."@
}

/// The names without what stands behind the last of them and means nothing: divisions, and, but in a
/// verbatim path, periods that stand for the folder itself.
pub open spec fn without_tail(division: Division, body: Seq<char>) -> Seq<char>
    decreases body.len(),
{
    if body.len() > 0 && division.spec_divides(body.last()) {
        without_tail(division, body.drop_last())
    } else if division != Division::Backslash && body.len() >= 2 && body.last() == '.'
        && division.spec_divides(body[body.len() - 2]) {
        without_tail(division, body.drop_last())
    } else {
        body
    }
}

/// The position behind the last division of the names.
pub open spec fn last_start(division: Division, body: Seq<char>) -> int
    decreases body.len(),
{
    if body.len() == 0 || division.spec_divides(body.last()) {
        body.len() as int
    } else {
        last_start(division, body.drop_last())
    }
}

/// The name that a path ends in, which is that of a file or a folder. A path that ends at the root,
/// in the folder itself or in its parent has none.
pub open spec fn last_component(platform: Platform, path: Seq<char>) -> Option<Seq<char>> {
    let division = division(platform, path);
    let body = without_tail(division, path.skip(body_start(platform, path)));
    let name = body.skip(last_start(division, body));
    if names_file(name) {
        Some(name)
    } else {
        None
    }
}

/// The text is a name of its own: it is the last name of the path that it makes.
pub open spec fn plain(platform: Platform, name: Seq<char>) -> bool {
    last_component(platform, name) == Some(name)
}

proof fn lemma_without_tail(division: Division, body: Seq<char>)
    ensures
        without_tail(division, body).len() <= body.len(),
        without_tail(division, body) == body.take(without_tail(division, body).len() as int),
    decreases body.len(),
{
    if body.len() > 0 {
        let shorter = body.drop_last();
        lemma_without_tail(division, shorter);
        let rest = without_tail(division, shorter);
        assert(shorter.take(rest.len() as int) =~= body.take(rest.len() as int));
    }
    assert(body.take(body.len() as int) =~= body);
}

proof fn lemma_last_start(division: Division, body: Seq<char>)
    ensures
        0 <= last_start(division, body) <= body.len(),
        last_start(division, body) > 0 ==> division.spec_divides(
            body[last_start(division, body) - 1],
        ),
        forall|k: int|
            last_start(division, body) <= k < body.len() ==> !division.spec_divides(
                #[trigger] body[k],
            ),
    decreases body.len(),
{
    if body.len() > 0 && !division.spec_divides(body.last()) {
        lemma_last_start(division, body.drop_last());
        assert forall|k: int|
            last_start(division, body) <= k < body.len() implies !division.spec_divides(
            #[trigger] body[k],
        ) by {
            if k < body.len() - 1 {
                assert(body[k] == body.drop_last()[k]);
            }
        }
    }
}

proof fn lemma_is_last_start(division: Division, body: Seq<char>, at: int)
    requires
        0 <= at <= body.len(),
        at > 0 ==> division.spec_divides(body[at - 1]),
        forall|k: int| at <= k < body.len() ==> !division.spec_divides(#[trigger] body[k]),
    ensures
        last_start(division, body) == at,
{
    lemma_last_start(division, body);
    let found = last_start(division, body);
    if found < at {
        assert(!division.spec_divides(body[at - 1]));
    } else if found > at {
        assert(!division.spec_divides(body[found - 1]));
    }
}

/// The last name of a path is a part of it, which no character divides. What stands right before it
/// is a division or a colon. Where the path ends neither in a division nor in a period, or in a
/// period that no division stands before, the last name is at its end.
pub(crate) proof fn lemma_last_component(platform: Platform, path: Seq<char>) -> (start: int)
    ensures
        last_component(platform, path) matches Some(name) ==> {
            &&& names_file(name)
            &&& undivided(division(platform, path), name)
            &&& body_start(platform, path) <= start
            &&& 0 <= start <= start + name.len() <= path.len()
            &&& name == path.subrange(start, start + name.len())
            &&& start > 0 ==> path[start - 1] == '/' || path[start - 1] == '\\' || path[start - 1]
                == ':'
            &&& !division(platform, path).spec_divides(path.last()) && (path.last() == '.'
                && path.len() >= 2 ==> !division(platform, path).spec_divides(
                path[path.len() - 2],
            )) ==> start + name.len() == path.len()
        },
{
    let division = division(platform, path);
    let from = body_start(platform, path);
    let whole = path.skip(from);
    let body = without_tail(division, whole);
    let at = last_start(division, body);
    lemma_body_start(platform, path);
    lemma_without_tail(division, whole);
    lemma_last_start(division, body);
    let name = body.skip(at);
    let start = from + at;
    assert(name =~= path.subrange(start, start + name.len()));
    if at > 0 {
        assert(body[at - 1] == path[start - 1]);
    }
    if whole.len() > 0 {
        assert(whole.last() == path.last());
    }
    if whole.len() >= 2 {
        assert(whole[whole.len() - 2] == path[path.len() - 2]);
    }
    start
}

/// A text that nothing divides, and that begins with no drive, is a name of its own; and there is no
/// other.
pub(crate) proof fn lemma_plain(platform: Platform, name: Seq<char>)
    ensures
        plain(platform, name) <==> {
            &&& names_file(name)
            &&& undivided(
                if platform == Platform::Windows {
                    Division::Either
                } else {
                    Division::Slash
                },
                name,
            )
            &&& !(platform == Platform::Windows && drive_at(name, 0))
        },
{
    let loose = if platform == Platform::Windows {
        Division::Either
    } else {
        Division::Slash
    };
    if names_file(name) && undivided(loose, name) && !(platform == Platform::Windows && drive_at(
        name,
        0,
    )) {
        assert(!loose.spec_divides(name[0]));
        assert(prefix_length(platform, name) == 0);
        assert(body_start(platform, name) == 0);
        assert(division(platform, name) == loose);
        assert(!loose.spec_divides(name[name.len() - 1]));
        if name.len() >= 2 {
            assert(!loose.spec_divides(name[name.len() - 2]));
        }
        assert(name.skip(0) =~= name);
        assert(without_tail(loose, name) == name);
        lemma_is_last_start(loose, name, 0);
    }
    if plain(platform, name) {
        let start = lemma_last_component(platform, name);
        lemma_body_start(platform, name);
        assert(start == 0);
        assert(prefix_length(platform, name) == 0);
        if platform == Platform::Windows {
            assert(!verbatim(name));
            assert(division(platform, name) == Division::Either);
            assert(!Division::Either.spec_divides(name[0]));
        }
    }
}

/// Outside Windows, the last name of a path is always a name of its own.
pub proof fn last_names_are_plain(platform: Platform, path: Seq<char>)
    requires
        platform != Platform::Windows,
    ensures
        last_component(platform, path) matches Some(name) ==> plain(platform, name),
{
    let start = lemma_last_component(platform, path);
    if let Some(name) = last_component(platform, path) {
        lemma_plain(platform, name);
    }
}

// ---------------------------------------------------------------------------------------------
// Finding the last name
// ---------------------------------------------------------------------------------------------
fn drive_stands_at(v: &Vec<char>, at: usize) -> (r: bool)
    requires
        at <= 4,
    ensures
        r == drive_at(v@, at as int),
{
    v.len() >= at + 2 && (('a' <= v[at] && v[at] <= 'z') || ('A' <= v[at] && v[at] <= 'Z')) && v[at
        + 1] == ':'
}

fn run_length(division: Division, v: &Vec<char>, from: usize) -> (r: usize)
    ensures
        r as int == run(division, v@, from as int),
{
    let mut i: usize = from;
    while i < v.len() && !division.divides(v[i])
        invariant
            from <= i,
            from < v.len() ==> i <= v.len(),
            from >= v.len() ==> i == from,
            run(division, v@, from as int) == (i - from) + run(division, v@, i as int),
        decreases v.len() - i,
    {
        i = i + 1;
    }
    i - from
}

fn names_from(platform: Platform, v: &Vec<char>) -> (r: usize)
    ensures
        r as int == body_start(platform, v@),
        r <= v.len(),
{
    proof {
        lemma_body_start(platform, v@);
    }
    let either = Division::Either;
    let windows = matches!(platform, Platform::Windows);
    let prefix: usize = if !windows {
        0
    } else if is_verbatim(v) {
        if v.len() >= 8 && v[4] == 'U' && v[5] == 'N' && v[6] == 'C' && either.divides(v[7]) {
            proof {
                lemma_run(Division::Backslash, v@, 8);
                lemma_run(Division::Backslash, v@, 9 + run(Division::Backslash, v@, 8));
            }
            let server = run_length(Division::Backslash, v, 8);
            if server < v.len() - 8 {
                let share = run_length(Division::Backslash, v, 9 + server);
                if share > 0 {
                    9 + server + share
                } else {
                    8 + server
                }
            } else {
                8 + server
            }
        } else if drive_stands_at(v, 4) && (v.len() == 6 || either.divides(v[6])) {
            6
        } else {
            proof {
                lemma_run(Division::Backslash, v@, 4);
            }
            4 + run_length(Division::Backslash, v, 4)
        }
    } else if v.len() >= 2 && either.divides(v[0]) && either.divides(v[1]) {
        if v.len() >= 4 && v[2] == '.' && either.divides(v[3]) {
            proof {
                lemma_run(either, v@, 4);
            }
            4 + run_length(either, v, 4)
        } else {
            proof {
                lemma_run(either, v@, 2);
                lemma_run(either, v@, 3 + run(either, v@, 2));
            }
            let server = run_length(either, v, 2);
            if server > 0 && server < v.len() - 2 {
                let share = run_length(either, v, 3 + server);
                if share > 0 {
                    3 + server + share
                } else {
                    0
                }
            } else {
                0
            }
        }
    } else if drive_stands_at(v, 0) {
        2
    } else {
        0
    };
    assert(prefix as int == prefix_length(platform, v@));
    let root = if windows {
        Division::Either
    } else {
        Division::Slash
    };
    if prefix < v.len() && root.divides(v[prefix]) {
        prefix + 1
    } else {
        prefix
    }
}

fn is_verbatim(v: &Vec<char>) -> (r: bool)
    ensures
        r == verbatim(v@),
{
    v.len() >= 4 && v[0] == '\\' && v[1] == '\\' && v[2] == '?' && v[3] == '\\'
}

fn file_named(name: &str) -> (r: bool)
    ensures
        r == names_file(name@),
{
    !name.is_empty() && !same(name, ".") && !same(name, "..")
}

/// The name that a path ends in.
pub fn last_name(platform: Platform, path: &str) -> (r: Option<&str>)
    ensures
        match r {
            Some(name) => last_component(platform, path@) == Some(name@),
            None => last_component(platform, path@) is None,
        },
{
    let v = chars_of(path);
    let division = match platform {
        Platform::Windows => if is_verbatim(&v) {
            Division::Backslash
        } else {
            Division::Either
        },
        _ => Division::Slash,
    };
    let verbatim = matches!(division, Division::Backslash);
    let start = names_from(platform, &v);
    let ghost whole = path@.skip(start as int);
    let mut end: usize = v.len();
    assert(v@.subrange(start as int, end as int) =~= whole);
    while end > start && (division.divides(v[end - 1]) || (!verbatim && end - start > 1 && v[end
        - 1] == '.' && division.divides(v[end - 2])))
        invariant
            start <= end <= v.len(),
            verbatim == (division == Division::Backslash),
            without_tail(division, v@.subrange(start as int, end as int)) == without_tail(
                division,
                whole,
            ),
        decreases end,
    {
        let ghost before = v@.subrange(start as int, end as int);
        assert(before.drop_last() =~= v@.subrange(start as int, end - 1));
        assert(before.last() == v@[end - 1]);
        if end - start > 1 {
            assert(before[before.len() - 2] == v@[end - 2]);
        }
        end = end - 1;
    }
    let ghost body = v@.subrange(start as int, end as int);
    assert(without_tail(division, whole) == body) by {
        if body.len() > 0 {
            assert(body.last() == v@[end - 1]);
        }
        if body.len() >= 2 {
            assert(body[body.len() - 2] == v@[end - 2]);
        }
    }
    let mut from: usize = end;
    while from > start && !division.divides(v[from - 1])
        invariant
            start <= from <= end <= v.len(),
            body == v@.subrange(start as int, end as int),
            forall|k: int|
                from - start <= k < body.len() ==> !division.spec_divides(#[trigger] body[k]),
        decreases from,
    {
        assert(body[from - 1 - start] == v@[from - 1]);
        from = from - 1;
    }
    proof {
        if from > start {
            assert(body[from - 1 - start] == v@[from - 1]);
        }
        lemma_is_last_start(division, body, from - start);
    }
    let name = path.substring_char(from, end);
    assert(name@ =~= body.skip(from - start));
    if file_named(name) {
        Some(name)
    } else {
        None
    }
}

// ---------------------------------------------------------------------------------------------
// Stems and extensions
// ---------------------------------------------------------------------------------------------
/// The part of a file name after its last period. A name that has no period, or only one that it
/// begins with, has no extension.
pub open spec fn name_extension(name: Seq<char>) -> Option<Seq<char>> {
    if names_file(name) && last_index(name, '.') > 0 {
        Some(name.skip(last_index(name, '.') + 1))
    } else {
        None
    }
}

/// The part of a file name before its last period, or the whole name where it has no extension.
pub open spec fn name_stem(name: Seq<char>) -> Seq<char> {
    if name_extension(name) is Some {
        name.take(last_index(name, '.'))
    } else {
        name
    }
}

/// The extension of the last name of a path.
pub open spec fn extension(platform: Platform, path: Seq<char>) -> Option<Seq<char>> {
    match last_component(platform, path) {
        Some(name) => name_extension(name),
        None => None,
    }
}

/// The stem of the last name of a path.
pub open spec fn stem(platform: Platform, path: Seq<char>) -> Option<Seq<char>> {
    match last_component(platform, path) {
        Some(name) => Some(name_stem(name)),
        None => None,
    }
}

/// The extension of a file name.
pub fn extension_of(name: &str) -> (r: Option<String>)
    ensures
        match r {
            Some(text) => name_extension(name@) == Some(text@),
            None => name_extension(name@) is None,
        },
{
    let v = chars_of(name);
    if !file_named(name) {
        return None;
    }
    match last_position(&v, '.') {
        Some(at) => {
            if at == 0 {
                None
            } else {
                proof {
                    lemma_last_index(name@, '.');
                }
                assert(at < v.len());
                let text = name.substring_char(at + 1, v.len());
                assert(text@ =~= name@.skip(at + 1));
                Some(text.to_owned())
            }
        },
        None => None,
    }
}

/// The extension of the file that a path leads to.
pub fn file_extension(platform: Platform, path: &str) -> (r: Option<String>)
    ensures
        match r {
            Some(text) => extension(platform, path@) == Some(text@),
            None => extension(platform, path@) is None,
        },
{
    match last_name(platform, path) {
        Some(name) => extension_of(name),
        None => None,
    }
}

/// The stem of the file that a path leads to.
pub fn file_stem(platform: Platform, path: &str) -> (r: Option<String>)
    ensures
        match r {
            Some(text) => stem(platform, path@) == Some(text@),
            None => stem(platform, path@) is None,
        },
{
    let name = match last_name(platform, path) {
        Some(name) => name,
        None => {
            return None;
        },
    };
    proof {
        lemma_last_component(platform, path@);
        lemma_last_index(name@, '.');
    }
    let v = chars_of(name);
    match last_position(&v, '.') {
        Some(at) => {
            if at == 0 {
                Some(name.to_owned())
            } else {
                let text = name.substring_char(0, at);
                assert(text@ =~= name@.take(at as int));
                Some(text.to_owned())
            }
        },
        None => Some(name.to_owned()),
    }
}

// ---------------------------------------------------------------------------------------------
// What the functions on paths are for
// ---------------------------------------------------------------------------------------------
/// Every text without a slash is a name of its own, and on Windows every text that holds neither a
/// slash nor a backslash nor a colon, but for the empty one, one period and two periods.
pub proof fn texts_without_separators_are_plain(platform: Platform, name: Seq<char>)
    requires
        name.len() > 0,
        name != seq!['.'],
        name != seq!['.', '.'],
        !name.contains('/'),
        platform == Platform::Windows ==> !name.contains('\\') && !name.contains(':'),
    ensures
        plain(platform, name),
{
    reveal_strlit(".");
    reveal_strlit("..");
    assert("."@ =~= seq!['.']);
    assert(".."@ =~= seq!['.', '.']);
    assert forall|i: int| 0 <= i < name.len() implies #[trigger] name[i] != '/' && (platform
        == Platform::Windows ==> name[i] != '\\' && name[i] != ':') by {
        assert(name.contains(name[i]));
    }
    lemma_plain(platform, name);
}

/// The last name of a path is what follows the last slash, whatever stands before it, and further
/// slashes behind it do not matter. Outside Windows nothing else divides a path.
pub proof fn last_names_follow_the_last_slash(
    platform: Platform,
    folders: Seq<char>,
    name: Seq<char>,
)
    requires
        platform != Platform::Windows,
        name.len() > 0,
        name != seq!['.'],
        name != seq!['.', '.'],
        !name.contains('/'),
    ensures
        last_component(platform, name) == Some(name),
        last_component(platform, folders + seq!['/'] + name) == Some(name),
        last_component(platform, folders + seq!['/'] + name + seq!['/']) == Some(name),
{
    texts_without_separators_are_plain(platform, name);
    let path = folders + seq!['/'] + name;
    let longer = path + seq!['/'];
    reveal_strlit(".");
    reveal_strlit("..");
    assert("."@ =~= seq!['.']);
    assert(".."@ =~= seq!['.', '.']);
    assert forall|i: int| 0 <= i < name.len() implies #[trigger] name[i] != '/' by {
        assert(name.contains(name[i]));
    }
    let from = body_start(platform, path);
    assert(body_start(platform, longer) == from) by {
        assert(path[0] == longer[0]);
    }
    let body = path.skip(from);
    let long_body = longer.skip(from);
    assert(long_body.drop_last() =~= body);
    assert(long_body.last() == '/');
    assert(path.last() == name.last());
    assert(body.last() == name[name.len() - 1]);
    if body.len() >= 2 && name.len() == 1 {
        assert(body.last() != '.') by {
            if body.last() == '.' {
                assert(name =~= seq!['.']);
            }
        }
    }
    if name.len() >= 2 {
        assert(body[body.len() - 2] == name[name.len() - 2]);
    }
    assert(without_tail(Division::Slash, body) == body);
    assert(without_tail(Division::Slash, long_body) == body);
    let at = folders.len() + 1 - from;
    assert forall|k: int| at <= k < body.len() implies !Division::Slash.spec_divides(
        #[trigger] body[k],
    ) by {
        assert(body[k] == name[k - at]);
    }
    if at > 0 {
        assert(body[at - 1] == '/');
    }
    lemma_is_last_start(Division::Slash, body, at);
    assert(body.skip(at) =~= name);
}

/// A name is divided at its last period: the ending is what follows it. A period that the name begins
/// with does not divide it.
pub proof fn names_divide_at_the_last_period(front: Seq<char>, ending: Seq<char>)
    requires
        front.len() > 0,
        !ending.contains('.'),
        front + seq!['.'] + ending != seq!['.', '.'],
    ensures
        name_extension(front + seq!['.'] + ending) == Some(ending),
        name_stem(front + seq!['.'] + ending) == front,
        name_extension(ending) is None,
        name_stem(ending) == ending,
        name_extension(seq!['.'] + ending) is None,
        name_stem(seq!['.'] + ending) == seq!['.'] + ending,
{
    reveal_strlit(".");
    reveal_strlit("..");
    assert(".."@ =~= seq!['.', '.']);
    let name = front + seq!['.'] + ending;
    let hidden = seq!['.'] + ending;
    let at = front.len() as int;
    assert forall|k: int| 0 <= k < ending.len() implies #[trigger] ending[k] != '.' by {
        assert(ending.contains(ending[k]));
    }
    assert forall|k: int| at < k < name.len() implies name[k] != '.' by {
        assert(name[k] == ending[k - at - 1]);
    }
    assert(name[at] == '.');
    lemma_is_last_index(name, '.', at);
    assert(name.skip(at + 1) =~= ending);
    assert(name.take(at) =~= front);
    assert forall|k: int| 0 < k < hidden.len() implies hidden[k] != '.' by {
        assert(hidden[k] == ending[k - 1]);
    }
    lemma_is_last_index(hidden, '.', 0);
    lemma_is_last_index(ending, '.', -1);
}

/// A text is a name of its own exactly where it is not empty, is neither one period nor two, and holds
/// no slash; on Windows it holds no backslash either, and does not begin with a letter and a colon.
pub proof fn plain_names_hold_no_separators(platform: Platform, name: Seq<char>)
    ensures
        plain(platform, name) <==> {
            &&& name.len() > 0
            &&& name != seq!['.']
            &&& name != seq!['.', '.']
            &&& forall|i: int| 0 <= i < name.len() ==> #[trigger] name[i] != '/'
            &&& platform == Platform::Windows ==> {
                &&& forall|i: int| 0 <= i < name.len() ==> #[trigger] name[i] != '\\'
                &&& !(name.len() >= 2 && ('a' <= name[0] <= 'z' || 'A' <= name[0] <= 'Z') && name[1]
                    == ':')
            }
        },
{
    reveal_strlit(".");
    reveal_strlit("..");
    assert("."@ =~= seq!['.']);
    assert(".."@ =~= seq!['.', '.']);
    lemma_plain(platform, name);
}

/// Outside Windows, slashes at the end of a path do not matter, and neither does a period behind one. A
/// path that ends in two periods, or has nothing but the root, has no last name.
pub proof fn ends_of_paths_do_not_matter(platform: Platform, path: Seq<char>)
    requires
        platform != Platform::Windows,
    ensures
        path.len() > 0 ==> last_component(platform, path + seq!['/']) == last_component(
            platform,
            path,
        ),
        path.len() > 0 ==> last_component(platform, path + seq!['/', '.']) == last_component(
            platform,
            path,
        ),
        last_component(platform, path + seq!['/', '.', '.']) is None,
        last_component(platform, seq!['.', '.']) is None,
        last_component(platform, seq!['.']) is None,
        last_component(platform, seq!['/']) is None,
        last_component(platform, Seq::empty()) is None,
{
    reveal_strlit(".");
    reveal_strlit("..");
    assert("."@ =~= seq!['.']);
    assert(".."@ =~= seq!['.', '.']);
    let slashed = path + seq!['/'];
    let dotted = path + seq!['/', '.'];
    let above = path + seq!['/', '.', '.'];
    if path.len() > 0 {
        let from = body_start(platform, path);
        let body = path.skip(from);
        assert(slashed.skip(from) =~= body.push('/'));
        assert(dotted.skip(from) =~= body.push('/').push('.'));
        assert(body.push('/').drop_last() =~= body);
        assert(body.push('/').push('.').drop_last() =~= body.push('/'));
        assert(without_tail(Division::Slash, body.push('/')) == without_tail(
            Division::Slash,
            body,
        ));
        assert(without_tail(Division::Slash, body.push('/').push('.')) == without_tail(
            Division::Slash,
            body.push('/'),
        ));
    }
    let start = body_start(platform, above);
    let whole = above.skip(start);
    assert(without_tail(Division::Slash, whole) == whole);
    let at = whole.len() - 2;
    assert(whole[at] == '.' && whole[at + 1] == '.');
    if at > 0 {
        assert(whole[at - 1] == '/');
    }
    lemma_is_last_start(Division::Slash, whole, at);
    assert(whole.skip(at) =~= seq!['.', '.']);
    assert(seq!['.', '.'].skip(0) =~= seq!['.', '.']);
    lemma_is_last_start(Division::Slash, seq!['.', '.'], 0);
    assert(seq!['.'].skip(0) =~= seq!['.']);
    lemma_is_last_start(Division::Slash, seq!['.'], 0);
    assert(seq!['/'].skip(1) =~= Seq::<char>::empty());
    assert(Seq::<char>::empty().skip(0) =~= Seq::<char>::empty());
}

/// The last name begins at a position, behind which nothing divides the path.
proof fn lemma_last_name_at(platform: Platform, path: Seq<char>, start: int)
    requires
        body_start(platform, path) <= start <= path.len(),
        body_start(platform, path) < start ==> division(platform, path).spec_divides(
            path[start - 1],
        ),
        undivided(division(platform, path), path.skip(start)),
        names_file(path.skip(start)),
    ensures
        last_component(platform, path) == Some(path.skip(start)),
{
    reveal_strlit(".");
    let division = division(platform, path);
    let from = body_start(platform, path);
    lemma_body_start(platform, path);
    let whole = path.skip(from);
    let name = path.skip(start);
    let at = start - from;
    assert(whole.last() == name.last());
    assert(!division.spec_divides(name[name.len() - 1]));
    if whole.len() >= 2 && whole.last() == '.' && division.spec_divides(whole[whole.len() - 2]) {
        if name.len() >= 2 {
            assert(whole[whole.len() - 2] == name[name.len() - 2]);
        } else {
            assert(name =~= "."@);
        }
    }
    assert(without_tail(division, whole) == whole);
    assert forall|k: int| at <= k < whole.len() implies !division.spec_divides(
        #[trigger] whole[k],
    ) by {
        assert(whole[k] == name[k - at]);
    }
    if at > 0 {
        assert(whole[at - 1] == path[start - 1]);
    }
    lemma_is_last_start(division, whole, at);
    assert(whole.skip(at) =~= name);
}

proof fn lemma_run_is(division: Division, path: Seq<char>, from: int, length: int)
    requires
        0 <= from,
        0 <= length,
        from + length <= path.len(),
        forall|k: int| from <= k < from + length ==> !division.spec_divides(#[trigger] path[k]),
        from + length < path.len() ==> division.spec_divides(path[from + length]),
    ensures
        run(division, path, from) == length,
    decreases length,
{
    if length > 0 {
        assert(!division.spec_divides(path[from]));
        lemma_run_is(division, path, from + 1, length - 1);
    }
}

/// On Windows, too, the last name of a path is what follows the last slash or backslash, where the path
/// does not begin with two of them; and it may follow a drive at once.
pub proof fn last_names_follow_either_slash(
    folders: Seq<char>,
    divider: char,
    name: Seq<char>,
    drive: char,
)
    requires
        divider == '/' || divider == '\\',
        name.len() > 0,
        name != seq!['.'],
        name != seq!['.', '.'],
        !name.contains('/') && !name.contains('\\'),
        folders.len() == 0 || folders[0] != '/' && folders[0] != '\\',
        'a' <= drive <= 'z' || 'A' <= drive <= 'Z',
    ensures
        last_component(Platform::Windows, folders + seq![divider] + name) == Some(name),
        last_component(Platform::Windows, seq![drive, ':'] + name) == Some(name),
{
    reveal_strlit(".");
    reveal_strlit("..");
    assert("."@ =~= seq!['.']);
    assert(".."@ =~= seq!['.', '.']);
    let platform = Platform::Windows;
    let path = folders + seq![divider] + name;
    let start = folders.len() as int + 1;
    assert forall|i: int| 0 <= i < name.len() implies #[trigger] name[i] != '/' && name[i]
        != '\\' by {
        assert(name.contains(name[i]));
    }
    if folders.len() == 0 {
        assert(path[1] == name[0]);
    } else {
        assert(path[0] == folders[0]);
        if folders.len() == 1 {
            assert(path[1] == divider);
        }
    }
    assert(path.skip(start) =~= name);
    assert(division(platform, path) == Division::Either);
    assert(path[folders.len() as int] == divider);
    lemma_last_name_at(platform, path, start);
    let short = seq![drive, ':'] + name;
    assert(short[2] == name[0]);
    assert(short[0] == drive && short[1] == ':');
    assert(short.skip(2) =~= name);
    assert(division(platform, short) == Division::Either);
    lemma_last_name_at(platform, short, 2);
}

/// On Windows, a server and a share belong together: the names of a path begin behind them, and a path
/// that has nothing else has no last name.
pub proof fn shares_are_no_names(
    server: Seq<char>,
    share: Seq<char>,
    folders: Seq<char>,
    divider: char,
    name: Seq<char>,
)
    requires
        divider == '/' || divider == '\\',
        server.len() > 0 && server != seq!['?'] && server != seq!['.'],
        share.len() > 0,
        name.len() > 0,
        name != seq!['.'],
        name != seq!['.', '.'],
        forall|i: int| 0 <= i < server.len() ==> #[trigger] server[i] != '/' && server[i] != '\\',
        forall|i: int| 0 <= i < share.len() ==> #[trigger] share[i] != '/' && share[i] != '\\',
        forall|i: int| 0 <= i < name.len() ==> #[trigger] name[i] != '/' && name[i] != '\\',
        folders.len() > 0 ==> folders.last() == divider,
    ensures
        ({
            let root = seq!['\\', '\\'] + server + seq!['\\'] + share;
            &&& last_component(Platform::Windows, root) is None
            &&& last_component(Platform::Windows, root + seq!['\\'] + folders + name) == Some(name)
        }),
{
    reveal_strlit(".");
    reveal_strlit("..");
    assert("."@ =~= seq!['.']);
    assert(".."@ =~= seq!['.', '.']);
    let platform = Platform::Windows;
    let root = seq!['\\', '\\'] + server + seq!['\\'] + share;
    let path = root + seq!['\\'] + folders + name;
    let middle = 2 + server.len() as int;
    assert(root.len() == 3 + server.len() + share.len());
    assert forall|k: int| 2 <= k < middle implies #[trigger] root[k] == server[k - 2] && path[k]
        == server[k - 2] by {}
    assert(root[middle] == '\\' && path[middle] == '\\');
    assert forall|k: int| middle < k < root.len() implies #[trigger] root[k] == share[k - middle - 1]
        && path[k] == share[k - middle - 1] by {}
    assert(path[root.len() as int] == '\\');
    assert(root[0] == '\\' && root[1] == '\\' && path[0] == '\\' && path[1] == '\\');
    if server.len() == 1 {
        assert(server[0] != '?') by {
            if server[0] == '?' {
                assert(server =~= seq!['?']);
            }
        }
        assert(server[0] != '.') by {
            if server[0] == '.' {
                assert(server =~= seq!['.']);
            }
        }
        assert(root[2] == server[0] && path[2] == server[0]);
    } else {
        assert(root[3] == server[1] && path[3] == server[1]);
    }
    assert forall|k: int| 2 <= k < middle implies !Division::Either.spec_divides(
        #[trigger] root[k],
    ) && !Division::Either.spec_divides(path[k]) by {
        assert(server[k - 2] != '/');
    }
    assert forall|k: int| middle < k < root.len() implies !Division::Either.spec_divides(
        #[trigger] root[k],
    ) && !Division::Either.spec_divides(path[k]) by {
        assert(share[k - middle - 1] != '/');
    }
    lemma_share(root, server.len() as int, share.len() as int);
    lemma_share(path, server.len() as int, share.len() as int);
    assert(root.skip(root.len() as int) =~= Seq::<char>::empty());
    let start = path.len() - name.len();
    assert(path.skip(start) =~= name);
    assert(body_start(platform, path) == root.len() + 1);
    if folders.len() > 0 {
        assert(path[start - 1] == folders.last());
    }
    lemma_last_name_at(platform, path, start);
}

proof fn lemma_share(path: Seq<char>, server: int, share: int)
    requires
        server > 0,
        share > 0,
        path.len() >= 3 + server + share,
        path[0] == '\\' && path[1] == '\\' && path[2 + server] == '\\',
        forall|k: int| 2 <= k < 2 + server ==> !Division::Either.spec_divides(#[trigger] path[k]),
        forall|k: int|
            2 + server < k < 3 + server + share ==> !Division::Either.spec_divides(
                #[trigger] path[k],
            ),
        path.len() > 3 + server + share ==> path[3 + server + share] == '\\',
        server == 1 ==> path[2] != '?' && path[2] != '.',
    ensures
        prefix_length(Platform::Windows, path) == 3 + server + share,
        division(Platform::Windows, path) == Division::Either,
{
    if server > 1 {
        assert(!Division::Either.spec_divides(path[3]));
    }
    assert(!verbatim(path));
    lemma_run_is(Division::Either, path, 2, server);
    lemma_run_is(Division::Either, path, 3 + server, share);
}

/// On Windows, a verbatim path is divided at backslashes alone: what follows the last one is the last
/// name, even where it holds a slash.
pub proof fn verbatim_paths_are_divided_at_backslashes(
    drive: char,
    folders: Seq<char>,
    name: Seq<char>,
)
    requires
        'a' <= drive <= 'z' || 'A' <= drive <= 'Z',
        name.len() > 0,
        name != seq!['.'],
        name != seq!['.', '.'],
        forall|i: int| 0 <= i < name.len() ==> #[trigger] name[i] != '\\',
        folders.len() > 0 ==> folders.last() == '\\',
    ensures
        last_component(
            Platform::Windows,
            seq!['\\', '\\', '?', '\\', drive, ':', '\\'] + folders + name,
        ) == Some(name),
{
    reveal_strlit(".");
    reveal_strlit("..");
    assert("."@ =~= seq!['.']);
    assert(".."@ =~= seq!['.', '.']);
    let platform = Platform::Windows;
    let path = seq!['\\', '\\', '?', '\\', drive, ':', '\\'] + folders + name;
    assert(path[0] == '\\' && path[1] == '\\' && path[2] == '?' && path[3] == '\\');
    assert(path[4] == drive && path[5] == ':' && path[6] == '\\');
    assert(verbatim(path));
    assert(verbatim_prefix(path) == 6);
    assert(body_start(platform, path) == 7);
    let start = path.len() - name.len();
    assert(path.skip(start) =~= name);
    if folders.len() > 0 {
        assert(path[start - 1] == folders.last());
    }
    lemma_last_name_at(platform, path, start);
}

/// The stem and the extension of a path are those of its last name.
pub proof fn paths_are_divided_like_their_last_names(
    platform: Platform,
    path: Seq<char>,
    front: Seq<char>,
    ending: Seq<char>,
)
    requires
        last_component(platform, path) == Some(front + seq!['.'] + ending) || last_component(
            platform,
            path,
        ) is None,
        front.len() > 0,
        !ending.contains('.'),
    ensures
        last_component(platform, path) is Some ==> extension(platform, path) == Some(ending),
        last_component(platform, path) is Some ==> stem(platform, path) == Some(front),
        last_component(platform, path) is None ==> extension(platform, path) is None,
        last_component(platform, path) is None ==> stem(platform, path) is None,
{
    lemma_last_component(platform, path);
    if last_component(platform, path) is Some {
        reveal_strlit("..");
        assert(".."@ =~= seq!['.', '.']);
        names_divide_at_the_last_period(front, ending);
    }
}

} // verus!

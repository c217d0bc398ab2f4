//! Names of files and folders: safe path components, image files, and names that are still free.
use vstd::prelude::*;

use crate::git::components::{Division, division, drive_at, extension, extension_of};
use crate::git::components::{file_extension, file_stem, last_component, lemma_last_component};
use crate::git::components::{lemma_plain, name_extension, name_stem, names_file, plain, stem};
use crate::git::components::{names_divide_at_the_last_period, texts_without_separators_are_plain};
use crate::git::components::{paths_are_divided_like_their_last_names, undivided};
use crate::git::environment::Platform;
use crate::models::is_repository_name;
use crate::text::{chars_of, decimal, decimal_text, is_name_char, last_index, lemma_decimal_digits};
use crate::text::{lemma_decimal_injective, lemma_is_last_index, lemma_last_index, lower, lowered};
use crate::text::{name_char, words};

verus! {

// ---------------------------------------------------------------------------------------------
// Safe path components
// ---------------------------------------------------------------------------------------------
/// A character that may stand in a name stays; an underscore takes the place of any other.
pub open spec fn safe_char(c: char) -> char {
    if is_name_char(c) {
        c
    } else {
        '_'
    }
}

/// The text with an underscore for every character that may not stand in a name.
pub open spec fn safe_component(s: Seq<char>) -> Seq<char> {
    s.map_values(|c: char| safe_char(c))
}

/// Makes a text fit to name a folder.
pub fn safe_path_component(value: &str) -> (r: String)
    ensures
        r@ == safe_component(value@),
{
    let v = chars_of(value);
    let mut r = String::new();
    let mut i: usize = 0;
    while i < v.len()
        invariant
            i <= v.len(),
            v@ == value@,
            r@ == safe_component(value@).take(i as int),
        decreases v.len() - i,
    {
        let c = v[i];
        r.push(
            if name_char(c) {
                c
            } else {
                '_'
            },
        );
        assert(r@ =~= safe_component(value@).take(i + 1));
        i = i + 1;
    }
    assert(safe_component(value@).take(value@.len() as int) =~= safe_component(value@));
    r
}

/// A safe component is as long as the text it was made of and holds characters of names only, so
/// that it has no path separator; making it safe again changes nothing.
pub proof fn safe_components_are_safe(s: Seq<char>)
    ensures
        safe_component(s).len() == s.len(),
        forall|i: int| 0 <= i < s.len() ==> is_name_char(#[trigger] safe_component(s)[i]),
        !safe_component(s).contains('/'),
        !safe_component(s).contains('\\'),
        safe_component(safe_component(s)) == safe_component(s),
{
    assert(safe_component(safe_component(s)) =~= safe_component(s));
}

/// A well-formed repository name is a safe component as it stands, and it does not lead out of the
/// folder that it is put in.
pub proof fn repository_names_are_safe(name: Seq<char>)
    requires
        is_repository_name(name),
    ensures
        safe_component(name) == name,
        !name.contains('/'),
        !name.contains('\\'),
        name != "."@,
        name != ".."@,
{
    reveal_strlit(".");
    reveal_strlit("..");
    assert(safe_component(name) =~= name);
    assert("."@[0] == '.');
    assert(".."@[0] == '.');
}

// ---------------------------------------------------------------------------------------------
// Image files
// ---------------------------------------------------------------------------------------------
/// The extensions of image files, in small letters.
pub open spec fn image_extensions() -> Seq<Seq<char>> {
    seq![
        "avif"@,
        "bmp"@,
        "gif"@,
        "heic"@,
        "heif"@,
        "jpeg"@,
        "jpg"@,
        "png"@,
        "svg"@,
        "tif"@,
        "tiff"@,
        "webp"@,
    ]
}

/// The extension, in small letters, of the name of an image file; other names have none.
pub open spec fn image_extension(name: Seq<char>) -> Option<Seq<char>> {
    match name_extension(name) {
        Some(text) => if image_extensions().contains(lowered(text)) {
            Some(lowered(text))
        } else {
            None
        },
        None => None,
    }
}

/// The extension, in small letters, of the name of an image file.
pub fn supported_extension(name: &str) -> (r: Option<String>)
    ensures
        match r {
            Some(text) => image_extension(name@) == Some(text@),
            None => image_extension(name@) is None,
        },
{
    let text = match extension_of(name) {
        Some(text) => lower(text.as_str()),
        None => {
            return None;
        },
    };
    let known = words(
        &[
            "avif",
            "bmp",
            "gif",
            "heic",
            "heif",
            "jpeg",
            "jpg",
            "png",
            "svg",
            "tif",
            "tiff",
            "webp",
        ],
    );
    assert(known.deep_view() =~= image_extensions());
    let mut i: usize = 0;
    while i < known.len()
        invariant
            i <= known.len(),
            known.deep_view() == image_extensions(),
            name_extension(name@) is Some,
            text@ == lowered(name_extension(name@)->0),
            forall|k: int| 0 <= k < i ==> #[trigger] image_extensions()[k] != text@,
        decreases known.len() - i,
    {
        assert(known@[i as int]@ == image_extensions()[i as int]);
        if known[i] == text {
            assert(image_extensions()[i as int] == text@);
            return Some(text);
        }
        i = i + 1;
    }
    None
}

// ---------------------------------------------------------------------------------------------
// Free names
// ---------------------------------------------------------------------------------------------
/// The end of a file name: a period and the extension, where there is one.
pub open spec fn dotted(ending: Option<Seq<char>>) -> Seq<char> {
    match ending {
        Some(text) => "."@ + text,
        None => Seq::empty(),
    }
}

/// What a numbered name begins with.
pub open spec fn base(platform: Platform, filename: Seq<char>) -> Seq<char> {
    match stem(platform, filename) {
        Some(text) => text,
        None => "image"@,
    }
}

/// The names under which a file may be stored, in the order in which they are tried: its own name,
/// then names with a hyphen and a number before the extension.
pub open spec fn candidate(platform: Platform, filename: Seq<char>, number: nat) -> Seq<char> {
    if number == 0 {
        filename
    } else {
        base(platform, filename) + "-"@ + decimal(number) + dotted(extension(platform, filename))
    }
}

/// The largest number that a name can be given. The number after it, which is counted on the way,
/// is the largest that has 31 bits.
pub const LAST_NUMBER: u32 = 2_147_483_646;

/// A search for a name that is still free, which has come to a certain candidate.
#[derive(Debug)]
pub struct DestinationSearch {
    pub platform: Platform,
    pub filename: String,
    pub number: u32,
}

/// The model of a [`DestinationSearch`].
#[verifier::ext_equal]
pub struct SearchView {
    pub platform: Platform,
    pub filename: Seq<char>,
    pub number: nat,
}

impl View for DestinationSearch {
    type V = SearchView;

    open spec fn view(&self) -> SearchView {
        SearchView {
            platform: self.platform,
            filename: self.filename@,
            number: self.number as nat,
        }
    }
}

impl SearchView {
    /// The name to try now.
    pub open spec fn candidate(self) -> Seq<char> {
        candidate(self.platform, self.filename, self.number)
    }

    /// The search after the name that was tried turned out to be taken.
    pub open spec fn next(self) -> SearchView {
        SearchView { number: self.number + 1, ..self }
    }
}

/// Starts the search for a free name for a file: its own name is tried first. The platform says how
/// the name is divided, should it be a path.
pub fn unique_destination(platform: Platform, filename: &str) -> (r: DestinationSearch)
    ensures
        r@ == (SearchView { platform, filename: filename@, number: 0 }),
{
    DestinationSearch { platform, filename: filename.to_owned(), number: 0 }
}

impl DestinationSearch {
    /// The name to try now.
    pub fn candidate(&self) -> (r: String)
        ensures
            r@ == self@.candidate(),
    {
        if self.number == 0 {
            return self.filename.clone();
        }
        let start = match file_stem(self.platform, self.filename.as_str()) {
            Some(text) => text,
            None => "image".to_owned(),
        };
        let numbered = start.concat("-").concat(decimal_text(self.number as u64).as_str());
        match file_extension(self.platform, self.filename.as_str()) {
            Some(text) => {
                let dot = ".".to_owned().concat(text.as_str());
                numbered.concat(dot.as_str())
            },
            None => {
                assert(numbered@ + Seq::<char>::empty() =~= numbered@);
                numbered
            },
        }
    }

    /// Goes on to the next candidate, the one tried being taken.
    pub fn next(self) -> (r: DestinationSearch)
        requires
            self.number < LAST_NUMBER,
        ensures
            r@ == self@.next(),
    {
        DestinationSearch {
            platform: self.platform,
            filename: self.filename,
            number: self.number + 1,
        }
    }
}

/// No name is tried twice.
pub proof fn candidates_differ(platform: Platform, filename: Seq<char>, m: nat, n: nat)
    requires
        m != n,
    ensures
        candidate(platform, filename, m) != candidate(platform, filename, n),
{
    if m == 0 {
        lemma_numbered_differs(platform, filename, n);
    } else if n == 0 {
        lemma_numbered_differs(platform, filename, m);
    } else if candidate(platform, filename, m) == candidate(platform, filename, n) {
        let front = base(platform, filename) + "-"@;
        let end = dotted(extension(platform, filename));
        let a = candidate(platform, filename, m);
        let b = candidate(platform, filename, n);
        assert(decimal(m) =~= a.subrange(front.len() as int, a.len() - end.len()));
        assert(decimal(n) =~= b.subrange(front.len() as int, b.len() - end.len()));
        lemma_decimal_injective(m, n);
    }
}

/// A file name is its stem, followed by its extension.
proof fn lemma_parts(name: Seq<char>)
    ensures
        name == name_stem(name) + dotted(name_extension(name)),
        name.len() > 0 ==> name_stem(name).len() > 0,
        name_extension(name) matches Some(text) ==> !text.contains('.'),
{
    reveal_strlit(".");
    lemma_last_index(name, '.');
    assert(name =~= name_stem(name) + dotted(name_extension(name)));
}

/// The number of a name, with its hyphen, holds neither a division nor a colon.
proof fn lemma_number_text(number: nat)
    ensures
        ("-"@ + decimal(number)).len() > 1,
        forall|k: int|
            0 <= k < ("-"@ + decimal(number)).len() ==> {
                let c = #[trigger] ("-"@ + decimal(number))[k];
                c == '-' || '0' <= c <= '9'
            },
{
    reveal_strlit("-");
    lemma_decimal_digits(number);
    let text = "-"@ + decimal(number);
    assert forall|k: int| 0 <= k < text.len() implies {
        let c = #[trigger] text[k];
        c == '-' || '0' <= c <= '9'
    } by {
        if k > 0 {
            assert(text[k] == decimal(number)[k - 1]);
        }
    }
}

proof fn lemma_numbered_differs(platform: Platform, filename: Seq<char>, number: nat)
    requires
        number > 0,
    ensures
        candidate(platform, filename, number) != filename,
{
    let c = candidate(platform, filename, number);
    if c == filename {
        match last_component(platform, filename) {
            None => {
                numbered_names_are_plain(platform, filename, number);
            },
            Some(name) => {
                let start = lemma_last_component(platform, filename);
                assert(c =~= name_stem(name) + ("-"@ + decimal(number)) + dotted(
                    name_extension(name),
                ));
                lemma_numbered_end(division(platform, filename), name, c, number);
                lemma_not_numbered(filename, name, start, number);
            },
        }
    }
}

/// A path that ends in a name is not that name with a number.
#[verifier::spinoff_prover]
proof fn lemma_not_numbered(path: Seq<char>, name: Seq<char>, start: int, number: nat)
    requires
        0 <= start,
        start + name.len() == path.len(),
        name == path.subrange(start, path.len() as int),
        start > 0 ==> path[start - 1] == '/' || path[start - 1] == '\\' || path[start - 1] == ':',
    ensures
        path != name_stem(name) + ("-"@ + decimal(number)) + dotted(name_extension(name)),
{
    let middle = "-"@ + decimal(number);
    lemma_number_text(number);
    lemma_parts(name);
    if path == name_stem(name) + middle + dotted(name_extension(name)) {
        lemma_shifted(path, start, name_stem(name), middle, dotted(name_extension(name)));
        let k = choose|k: int| 0 <= k < middle.len() && middle[k] == path[start - 1];
        let c = middle[k];
        assert(c == '-' || '0' <= c <= '9');
    }
}

/// Where a text stands at the end of a path, and makes up the path once something is put into it,
/// what is put in holds the character that stands before the text.
#[verifier::spinoff_prover]
proof fn lemma_shifted(
    path: Seq<char>,
    start: int,
    front: Seq<char>,
    middle: Seq<char>,
    end: Seq<char>,
)
    requires
        0 <= start,
        start + front.len() + end.len() == path.len(),
        path.subrange(start, path.len() as int) == front + end,
        path == front + middle + end,
        middle.len() > 0,
    ensures
        start > 0,
        middle.contains(path[start - 1]),
{
    let before = path.take(start);
    let inner = path.take(path.len() - end.len());
    let text = front + end;
    assert forall|k: int| 0 <= k < front.len() implies path[start + k] == front[k] by {
        assert(path.subrange(start, path.len() as int)[k] == text[k]);
    }
    assert(before + front =~= inner);
    assert(front + middle =~= inner);
    lemma_same_characters(before, front, middle);
}

/// A numbered name ends neither in a division nor in a period that one stands before.
proof fn lemma_numbered_end(division: Division, name: Seq<char>, c: Seq<char>, number: nat)
    requires
        names_file(name),
        undivided(division, name),
        c == name_stem(name) + ("-"@ + decimal(number)) + dotted(name_extension(name)),
    ensures
        c.len() >= 2,
        !division.spec_divides(c.last()),
        c.last() == '.' ==> !division.spec_divides(c[c.len() - 2]),
{
    let middle = "-"@ + decimal(number);
    let end = dotted(name_extension(name));
    lemma_number_text(number);
    lemma_parts(name);
    reveal_strlit(".");
    if end.len() == 0 {
        assert(c.last() == middle[middle.len() - 1]);
    } else {
        assert(c.last() == end.last());
        assert(name[name.len() - 1] == end.last());
        if end.len() == 1 {
            assert(c[c.len() - 2] == middle[middle.len() - 1]);
        } else {
            let text = name_extension(name)->0;
            assert(end.last() == text.last());
            assert(text.contains(text.last()));
        }
    }
}

/// What is put before a text and what is put behind it are of the same characters, where the same
/// comes of both.
proof fn lemma_same_characters(before: Seq<char>, text: Seq<char>, after: Seq<char>)
    requires
        before + text == text + after,
        before.len() > 0,
    ensures
        after.contains(before.last()),
{
    vstd::seq_lib::lemma_multiset_commutative(before, text);
    vstd::seq_lib::lemma_multiset_commutative(text, after);
    before.to_multiset_ensures();
    after.to_multiset_ensures();
    let last = before.last();
    assert(before.contains(last));
    assert((before + text).to_multiset().count(last) == before.to_multiset().count(last)
        + text.to_multiset().count(last));
    assert((text + after).to_multiset().count(last) == text.to_multiset().count(last)
        + after.to_multiset().count(last));
}

/// The last name of the path is a name of its own, if it has one. Outside Windows this is always so,
/// and on Windows it is so of every name that a file can have.
pub open spec fn simple(platform: Platform, filename: Seq<char>) -> bool {
    last_component(platform, filename) matches Some(name) ==> plain(platform, name)
}

/// A numbered name is a name of its own: it is that of a file in the folder itself.
pub proof fn numbered_names_are_plain(platform: Platform, filename: Seq<char>, number: nat)
    requires
        number > 0,
        simple(platform, filename),
    ensures
        plain(platform, candidate(platform, filename, number)),
{
    let c = candidate(platform, filename, number);
    let front = base(platform, filename);
    let middle = "-"@ + decimal(number);
    let ending = extension(platform, filename);
    lemma_number_text(number);
    reveal_strlit("-");
    reveal_strlit(".");
    reveal_strlit("..");
    reveal_strlit("image");
    let loose = if platform == Platform::Windows {
        Division::Either
    } else {
        Division::Slash
    };
    assert(c =~= front + middle + dotted(ending));
    lemma_plain(platform, c);
    match last_component(platform, filename) {
        None => {
            assert(undivided(loose, front));
            assert(undivided(loose, dotted(ending)));
            assert(!drive_at(c, 0));
        },
        Some(name) => {
            lemma_plain(platform, name);
            lemma_parts(name);
            let end = dotted(ending);
            assert forall|k: int| 0 <= k < front.len() implies !loose.spec_divides(
                #[trigger] front[k],
            ) by {
                assert(front[k] == name[k]);
            }
            assert forall|k: int| 0 <= k < end.len() implies !loose.spec_divides(
                #[trigger] end[k],
            ) by {
                assert(end[k] == name[front.len() + k]);
            }
            if front.len() >= 2 {
                assert(c[0] == name[0] && c[1] == name[1]);
            } else {
                assert(c[1] == '-');
            }
        },
    }
    assert forall|k: int| 0 <= k < c.len() implies !loose.spec_divides(#[trigger] c[k]) by {
        if k < front.len() {
            assert(c[k] == front[k]);
        } else if k < front.len() + middle.len() {
            assert(c[k] == middle[k - front.len()]);
        } else {
            assert(c[k] == dotted(ending)[k - front.len() - middle.len()]);
        }
    }
    assert(c.len() > 2);
}

/// A numbered name has the extension of the file that it is for.
pub proof fn candidates_keep_extension(platform: Platform, filename: Seq<char>, number: nat)
    requires
        simple(platform, filename),
    ensures
        extension(platform, candidate(platform, filename, number)) == extension(
            platform,
            filename,
        ),
{
    if number > 0 {
        let c = candidate(platform, filename, number);
        numbered_names_are_plain(platform, filename, number);
        lemma_decimal_digits(number);
        reveal_strlit("-");
        reveal_strlit(".");
        reveal_strlit("..");
        reveal_strlit("image");
        lemma_plain(platform, c);
        let front = base(platform, filename) + "-"@ + decimal(number);
        let file = last_component(platform, filename);
        if let Some(name) = file {
            lemma_last_index(name, '.');
            lemma_last_component(platform, filename);
        }
        match extension(platform, filename) {
            Some(text) => {
                let name = file->0;
                let at = front.len() as int;
                assert(c =~= front + "."@ + text);
                assert(c[at] == '.');
                assert forall|k: int| at < k < c.len() implies c[k] != '.' by {
                    assert(c[k] == text[k - at - 1]);
                    assert(text[k - at - 1] == name[last_index(name, '.') + k - at]);
                }
                lemma_is_last_index(c, '.', at);
                assert(c.skip(at + 1) =~= text);
            },
            None => {
                assert(c =~= front);
                let b = base(platform, filename);
                assert forall|k: int| 0 < k < c.len() implies c[k] != '.' by {
                    if k < b.len() {
                        assert(c[k] == b[k]);
                    } else if k > b.len() {
                        assert(c[k] == decimal(number)[k - b.len() - 1]);
                    }
                }
                if c[0] == '.' {
                    lemma_is_last_index(c, '.', 0);
                } else {
                    lemma_is_last_index(c, '.', -1);
                }
            },
        }
    }
}

/// However many names are taken, one of the candidates is free, and it comes no later than as
/// many steps on as there are names taken.
pub proof fn some_candidate_is_free(
    platform: Platform,
    filename: Seq<char>,
    taken: Set<Seq<char>>,
)
    requires
        taken.finite(),
    ensures
        exists|n: nat|
            n <= taken.len() && !taken.contains(#[trigger] candidate(platform, filename, n)),
    decreases taken.len(),
{
    if forall|n: nat|
        n <= taken.len() ==> taken.contains(#[trigger] candidate(platform, filename, n)) {
        lemma_too_few_names(platform, filename, taken, taken.len() + 1);
    }
}

proof fn lemma_too_few_names(
    platform: Platform,
    filename: Seq<char>,
    taken: Set<Seq<char>>,
    count: nat,
)
    requires
        taken.finite(),
        forall|n: nat| n < count ==> taken.contains(#[trigger] candidate(platform, filename, n)),
    ensures
        count <= taken.len(),
    decreases count,
{
    if count > 0 {
        let last = candidate(platform, filename, (count - 1) as nat);
        let rest = taken.remove(last);
        assert forall|n: nat| n < count - 1 implies rest.contains(
            #[trigger] candidate(platform, filename, n),
        ) by {
            candidates_differ(platform, filename, n, (count - 1) as nat);
        }
        lemma_too_few_names(platform, filename, rest, (count - 1) as nat);
    }
}

// ---------------------------------------------------------------------------------------------
// What the functions on names are for
// ---------------------------------------------------------------------------------------------
/// Letters and digits of ASCII, periods, hyphens and underscores stay where they are, and every other
/// character becomes an underscore.
pub proof fn safe_components_keep_what_is_safe(s: Seq<char>)
    ensures
        safe_component(s).len() == s.len(),
        forall|i: int|
            0 <= i < s.len() ==> {
                let c = #[trigger] s[i];
                let kept = 'a' <= c <= 'z' || 'A' <= c <= 'Z' || '0' <= c <= '9' || c == '.' || c
                    == '-' || c == '_';
                safe_component(s)[i] == if kept {
                    c
                } else {
                    '_'
                }
            },
{
}

/// A name is that of an image exactly where what follows its last period, in small letters, is one of
/// the twelve endings of images. Nothing else in the name matters.
pub proof fn images_are_known_by_their_ending(front: Seq<char>, ending: Seq<char>)
    requires
        front.len() > 0,
        !ending.contains('.'),
    ensures
        ({
            let listed = seq![
                "avif"@,
                "bmp"@,
                "gif"@,
                "heic"@,
                "heif"@,
                "jpeg"@,
                "jpg"@,
                "png"@,
                "svg"@,
                "tif"@,
                "tiff"@,
                "webp"@,
            ];
            &&& image_extension(front + seq!['.'] + ending) == if listed.contains(lowered(ending)) {
                Some(lowered(ending))
            } else {
                None
            }
            &&& image_extension(ending) is None
            &&& image_extension(seq!['.'] + ending) is None
        }),
{
    let name = front + seq!['.'] + ending;
    let listed = seq![
        "avif"@,
        "bmp"@,
        "gif"@,
        "heic"@,
        "heif"@,
        "jpeg"@,
        "jpg"@,
        "png"@,
        "svg"@,
        "tif"@,
        "tiff"@,
        "webp"@,
    ];
    if name == seq!['.', '.'] {
        assert(ending.len() == 0);
        lemma_endings_are_not_empty();
        reveal_strlit("..");
        assert(".."@ =~= name);
        names_divide_at_the_last_period(seq!['a'], ending);
        if listed.contains(lowered(ending)) {
            let k = choose|k: int| 0 <= k < listed.len() && listed[k] == lowered(ending);
            assert(image_extensions()[k].len() == 0);
        }
    } else {
        names_divide_at_the_last_period(front, ending);
    }
}

proof fn lemma_endings_are_not_empty()
    ensures
        forall|k: int|
            0 <= k < image_extensions().len() ==> (#[trigger] image_extensions()[k]).len() > 0,
{
    reveal_strlit("avif");
    reveal_strlit("bmp");
    reveal_strlit("gif");
    reveal_strlit("heic");
    reveal_strlit("heif");
    reveal_strlit("jpeg");
    reveal_strlit("jpg");
    reveal_strlit("png");
    reveal_strlit("svg");
    reveal_strlit("tif");
    reveal_strlit("tiff");
    reveal_strlit("webp");
}

/// The first candidate is the name itself. The others have a hyphen and their number before the last
/// period, or at the end where the name has no ending.
pub proof fn candidates_are_numbered_before_the_ending(
    platform: Platform,
    front: Seq<char>,
    ending: Seq<char>,
    number: nat,
)
    requires
        front.len() > 0,
        !ending.contains('.'),
        !front.contains('/') && !ending.contains('/'),
        platform == Platform::Windows ==> !front.contains('\\') && !front.contains(':')
            && !ending.contains('\\') && !ending.contains(':'),
        front + seq!['.'] + ending != seq!['.', '.'],
    ensures
        candidate(platform, front + seq!['.'] + ending, 0) == front + seq!['.'] + ending,
        number > 0 ==> candidate(platform, front + seq!['.'] + ending, number) == front + seq!['-']
            + decimal(number) + seq!['.'] + ending,
        ending.len() > 0 ==> candidate(platform, ending, 0) == ending,
        ending.len() > 0 && number > 0 ==> candidate(platform, ending, number) == ending + seq!['-']
            + decimal(number),
{
    let name = front + seq!['.'] + ending;
    reveal_strlit("-");
    reveal_strlit(".");
    assert("-"@ =~= seq!['-']);
    assert("."@ =~= seq!['.']);
    assert forall|i: int| 0 <= i < ending.len() implies #[trigger] ending[i] != '.' && ending[i]
        != '/' && (platform == Platform::Windows ==> ending[i] != '\\' && ending[i] != ':') by {
        assert(ending.contains(ending[i]));
    }
    assert forall|i: int| 0 <= i < name.len() implies #[trigger] name[i] != '/' && (platform
        == Platform::Windows ==> name[i] != '\\' && name[i] != ':') by {
        if i < front.len() {
            assert(front.contains(front[i]));
        } else if i > front.len() {
            assert(name[i] == ending[i - front.len() - 1]);
        }
    }
    assert(name.len() >= 2);
    texts_without_separators_are_plain(platform, name);
    names_divide_at_the_last_period(front, ending);
    if number > 0 {
        assert(candidate(platform, name, number) =~= front + seq!['-'] + decimal(number)
            + seq!['.'] + ending);
    }
    if ending.len() > 0 {
        assert(ending[0] != '.');
        texts_without_separators_are_plain(platform, ending);
        if number > 0 {
            assert(candidate(platform, ending, number) =~= ending + seq!['-'] + decimal(number));
        }
    }
}

/// The ending by which an image is known is not empty.
pub proof fn images_have_endings(name: Seq<char>)
    ensures
        image_extension(name) matches Some(ending) ==> ending.len() > 0,
{
    lemma_endings_are_not_empty();
}

/// A file whose path has no last name is called `image` when it is numbered.
pub proof fn nameless_files_are_called_image(
    platform: Platform,
    filename: Seq<char>,
    number: nat,
)
    requires
        last_component(platform, filename) is None,
        number > 0,
    ensures
        candidate(platform, filename, 0) == filename,
        candidate(platform, filename, number) == seq!['i', 'm', 'a', 'g', 'e', '-'] + decimal(
            number,
        ),
{
    reveal_strlit("image");
    reveal_strlit("-");
    assert(candidate(platform, filename, number) =~= seq!['i', 'm', 'a', 'g', 'e', '-'] + decimal(
        number,
    ));
}

/// A path is numbered by its last name.
pub proof fn paths_are_numbered_by_their_last_name(
    platform: Platform,
    path: Seq<char>,
    front: Seq<char>,
    ending: Seq<char>,
    number: nat,
)
    requires
        last_component(platform, path) == Some(front + seq!['.'] + ending),
        front.len() > 0,
        !ending.contains('.'),
        number > 0,
    ensures
        candidate(platform, path, number) == front + seq!['-'] + decimal(number) + seq!['.'] + ending,
{
    reveal_strlit("-");
    reveal_strlit(".");
    assert("-"@ =~= seq!['-']);
    assert("."@ =~= seq!['.']);
    paths_are_divided_like_their_last_names(platform, path, front, ending);
    assert(candidate(platform, path, number) =~= front + seq!['-'] + decimal(number) + seq!['.']
        + ending);
}

/// A search tries one number after the other, for the same file.
pub proof fn searches_count_upwards(search: SearchView)
    ensures
        search.next().number == search.number + 1,
        search.next().filename == search.filename,
        search.next().platform == search.platform,
        LAST_NUMBER == 2_147_483_646,
{
}

} // verus!

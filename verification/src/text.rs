//! Text: character classes, trimming, searching, joining and decimal numerals.
//!
//! A text is modelled by the sequence of its characters. Everything here is an ordinary verified
//! function on such sequences; the one operation taken from the standard library without a proof
//! is appending a character to a `String`.
use vstd::prelude::*;

verus! {

/// `String::push` appends the given character to the end of the string.
pub assume_specification[ String::push ](text: &mut String, c: char)
    ensures
        final(text)@ == old(text)@.push(c),
;

// ---------------------------------------------------------------------------------------------
// Character classes
// ---------------------------------------------------------------------------------------------
/// The characters with the Unicode property `White_Space`.
pub open spec fn is_white_space(c: char) -> bool {
    ||| '\u{9}' <= c <= '\u{d}'
    ||| c == '\u{20}'
    ||| c == '\u{85}'
    ||| c == '\u{a0}'
    ||| c == '\u{1680}'
    ||| '\u{2000}' <= c <= '\u{200a}'
    ||| c == '\u{2028}'
    ||| c == '\u{2029}'
    ||| c == '\u{202f}'
    ||| c == '\u{205f}'
    ||| c == '\u{3000}'
}

/// Whether `c` is white space.
pub fn white_space(c: char) -> (r: bool)
    ensures
        r == is_white_space(c),
{
    ('\u{9}' <= c && c <= '\u{d}') || c == '\u{20}' || c == '\u{85}' || c == '\u{a0}' || c
        == '\u{1680}' || ('\u{2000}' <= c && c <= '\u{200a}') || c == '\u{2028}' || c == '\u{2029}'
        || c == '\u{202f}' || c == '\u{205f}' || c == '\u{3000}'
}

/// ASCII letters and digits.
pub open spec fn is_alphanumeric(c: char) -> bool {
    'a' <= c <= 'z' || 'A' <= c <= 'Z' || '0' <= c <= '9'
}

/// Whether `c` is an ASCII letter or digit.
pub fn alphanumeric(c: char) -> (r: bool)
    ensures
        r == is_alphanumeric(c),
{
    ('a' <= c && c <= 'z') || ('A' <= c && c <= 'Z') || ('0' <= c && c <= '9')
}

/// ASCII letters and digits, periods, hyphens and underscores: what a name may hold.
pub open spec fn is_name_char(c: char) -> bool {
    is_alphanumeric(c) || c == '.' || c == '-' || c == '_'
}

/// Whether `c` may stand in a name.
pub fn name_char(c: char) -> (r: bool)
    ensures
        r == is_name_char(c),
{
    alphanumeric(c) || c == '.' || c == '-' || c == '_'
}

/// ASCII capitals become small letters; every other character stays.
pub open spec fn lower_char(c: char) -> char {
    if 'A' <= c <= 'Z' {
        (c as u32 + 32) as char
    } else {
        c
    }
}

fn to_lower_char(c: char) -> (r: char)
    ensures
        r == lower_char(c),
{
    if 'A' <= c && c <= 'Z' {
        (c as u8 + 32) as char
    } else {
        c
    }
}

// ---------------------------------------------------------------------------------------------
// Characters and strings
// ---------------------------------------------------------------------------------------------
/// The characters of a string.
pub fn chars_of(s: &str) -> (v: Vec<char>)
    ensures
        v@ == s@,
{
    let mut v: Vec<char> = Vec::new();
    for c in it: s.chars()
        invariant
            v@ == it.seq().take(it.index() as int),
            it.seq() == s@,
    {
        v.push(c);
    }
    v
}

/// Whether two strings hold the same characters.
pub fn same(a: &str, b: &str) -> (r: bool)
    ensures
        r == (a@ == b@),
{
    a.to_owned() == b.to_owned()
}

/// Owned copies of the given strings.
pub fn words(parts: &[&str]) -> (v: Vec<String>)
    ensures
        v.deep_view() == parts.deep_view(),
{
    let mut v: Vec<String> = Vec::new();
    let mut i: usize = 0;
    while i < parts.len()
        invariant
            i <= parts.len(),
            v@.len() == i,
            forall|k: int| 0 <= k < i ==> (#[trigger] v@[k])@ == parts@[k]@,
        decreases parts.len() - i,
    {
        v.push(parts[i].to_owned());
        i = i + 1;
    }
    assert(v.deep_view() =~= parts.deep_view());
    v
}

/// Appends copies of `more` to `list`.
pub fn append_all(list: &mut Vec<String>, more: &Vec<String>)
    ensures
        final(list).deep_view() == old(list).deep_view() + more.deep_view(),
{
    let ghost before = list.deep_view();
    let mut i: usize = 0;
    while i < more.len()
        invariant
            i <= more.len(),
            list.deep_view() == before + more.deep_view().take(i as int),
        decreases more.len() - i,
    {
        let ghost previous = list.deep_view();
        list.push(more[i].clone());
        assert(list.deep_view() =~= previous.push(more.deep_view()[i as int]));
        i = i + 1;
    }
    assert(more.deep_view().take(more.deep_view().len() as int) =~= more.deep_view());
}

/// The texts one after another, with `separator` between neighbours.
pub open spec fn joined(parts: Seq<Seq<char>>, separator: Seq<char>) -> Seq<char>
    decreases parts.len(),
{
    if parts.len() == 0 {
        Seq::empty()
    } else if parts.len() == 1 {
        parts[0]
    } else {
        joined(parts.drop_last(), separator) + separator + parts.last()
    }
}

/// Joins strings with a separator.
pub fn join(parts: &Vec<String>, separator: &str) -> (s: String)
    ensures
        s@ == joined(parts.deep_view(), separator@),
{
    let mut s = String::new();
    let mut i: usize = 0;
    assert(parts.deep_view().take(0) =~= Seq::empty());
    while i < parts.len()
        invariant
            i <= parts.len(),
            s@ == joined(parts.deep_view().take(i as int), separator@),
        decreases parts.len() - i,
    {
        let ghost before = parts.deep_view().take(i as int);
        let ghost after = parts.deep_view().take(i + 1);
        assert(after.drop_last() =~= before);
        assert(after.last() == parts@[i as int]@);
        if i > 0 {
            s.append(separator);
        }
        s.append(parts[i].as_str());
        if i == 0 {
            assert(s@ =~= after[0]);
        }
        i = i + 1;
    }
    assert(parts.deep_view().take(parts@.len() as int) =~= parts.deep_view());
    s
}

// ---------------------------------------------------------------------------------------------
// Trimming
// ---------------------------------------------------------------------------------------------
/// The text from its first character on that is not white space.
pub open spec fn trimmed_start(s: Seq<char>) -> Seq<char>
    decreases s.len(),
{
    if s.len() > 0 && is_white_space(s[0]) {
        trimmed_start(s.drop_first())
    } else {
        s
    }
}

/// The text up to its last character that is not white space.
pub open spec fn trimmed_end(s: Seq<char>) -> Seq<char>
    decreases s.len(),
{
    if s.len() > 0 && is_white_space(s.last()) {
        trimmed_end(s.drop_last())
    } else {
        s
    }
}

/// The text without the white space at its two ends.
pub open spec fn trimmed(s: Seq<char>) -> Seq<char> {
    trimmed_end(trimmed_start(s))
}

/// Removes the white space at both ends of a string.
pub fn trim(s: &str) -> (r: &str)
    ensures
        r@ == trimmed(s@),
{
    let v = chars_of(s);
    let mut from: usize = 0;
    assert(v@.skip(0) =~= s@);
    while from < v.len() && white_space(v[from])
        invariant
            from <= v.len(),
            v@ == s@,
            trimmed_start(v@.skip(from as int)) == trimmed_start(s@),
        decreases v.len() - from,
    {
        assert(v@.skip(from as int).drop_first() =~= v@.skip(from + 1));
        from = from + 1;
    }
    let ghost rest = v@.skip(from as int);
    assert(trimmed_start(s@) == rest);
    let mut to: usize = v.len();
    assert(v@.subrange(from as int, to as int) =~= rest);
    while from < to && white_space(v[to - 1])
        invariant
            from <= to <= v.len(),
            v@ == s@,
            trimmed_end(v@.subrange(from as int, to as int)) == trimmed_end(rest),
        decreases to,
    {
        assert(v@.subrange(from as int, to as int).drop_last() =~= v@.subrange(
            from as int,
            to - 1,
        ));
        to = to - 1;
    }
    s.substring_char(from, to)
}

proof fn lemma_trimmed_start_fixed(s: Seq<char>)
    ensures
        ({
            let r = trimmed_start(s);
            r.len() == 0 || !is_white_space(r[0])
        }),
    decreases s.len(),
{
    if s.len() > 0 && is_white_space(s[0]) {
        lemma_trimmed_start_fixed(s.drop_first());
    }
}

proof fn lemma_trimmed_end_fixed(s: Seq<char>)
    ensures
        ({
            let r = trimmed_end(s);
            &&& r.len() == 0 || !is_white_space(r.last())
            &&& r.len() > 0 ==> s.len() > 0 && r[0] == s[0]
        }),
    decreases s.len(),
{
    if s.len() > 0 && is_white_space(s.last()) {
        lemma_trimmed_end_fixed(s.drop_last());
    }
}

/// Trimming a trimmed text changes nothing, and a trimmed text neither begins nor ends with
/// white space.
pub proof fn trimming_is_idempotent(s: Seq<char>)
    ensures
        trimmed(trimmed(s)) == trimmed(s),
        trimmed(s).len() > 0 ==> !is_white_space(trimmed(s)[0]) && !is_white_space(
            trimmed(s).last(),
        ),
{
    lemma_trimmed_start_fixed(s);
    lemma_trimmed_end_fixed(trimmed_start(s));
}

// ---------------------------------------------------------------------------------------------
// Letter case
// ---------------------------------------------------------------------------------------------
/// The text with its ASCII capitals made small.
pub open spec fn lowered(s: Seq<char>) -> Seq<char> {
    s.map_values(|c: char| lower_char(c))
}

/// Makes the ASCII capitals of a string small.
pub fn lower(s: &str) -> (r: String)
    ensures
        r@ == lowered(s@),
{
    let v = chars_of(s);
    let mut r = String::new();
    let mut i: usize = 0;
    while i < v.len()
        invariant
            i <= v.len(),
            v@ == s@,
            r@ == lowered(s@).take(i as int),
        decreases v.len() - i,
    {
        r.push(to_lower_char(v[i]));
        assert(r@ =~= lowered(s@).take(i + 1));
        i = i + 1;
    }
    assert(lowered(s@).take(s@.len() as int) =~= lowered(s@));
    r
}

/// Whether two strings differ at most in the case of their ASCII letters.
pub fn same_ignoring_case(a: &str, b: &str) -> (r: bool)
    ensures
        r == (lowered(a@) == lowered(b@)),
{
    lower(a) == lower(b)
}

// ---------------------------------------------------------------------------------------------
// Searching
// ---------------------------------------------------------------------------------------------
/// `needle` stands in `s` from position `at` on.
pub open spec fn stands_at(s: Seq<char>, needle: Seq<char>, at: int) -> bool {
    &&& 0 <= at
    &&& at + needle.len() <= s.len()
    &&& s.subrange(at, at + needle.len()) == needle
}

/// `needle` stands somewhere in `s`.
pub open spec fn holds(s: Seq<char>, needle: Seq<char>) -> bool {
    exists|at: int| stands_at(s, needle, at)
}

fn standing_at(s: &Vec<char>, needle: &Vec<char>, at: usize) -> (r: bool)
    requires
        at + needle@.len() <= s@.len(),
    ensures
        r == stands_at(s@, needle@, at as int),
{
    let mut i: usize = 0;
    while i < needle.len()
        invariant
            i <= needle.len(),
            at + needle.len() <= s.len(),
            forall|k: int| 0 <= k < i ==> s@[at + k] == #[trigger] needle@[k],
        decreases needle.len() - i,
    {
        if s[at + i] != needle[i] {
            assert(s@.subrange(at as int, at + needle@.len())[i as int] != needle@[i as int]);
            return false;
        }
        i = i + 1;
    }
    assert(s@.subrange(at as int, at + needle@.len()) =~= needle@);
    true
}

/// Whether `needle` occurs in `s`.
pub fn contains(s: &str, needle: &str) -> (r: bool)
    ensures
        r == holds(s@, needle@),
{
    let v = chars_of(s);
    let n = chars_of(needle);
    if n.len() > v.len() {
        assert forall|at: int| !stands_at(s@, needle@, at) by {}
        return false;
    }
    let mut at: usize = 0;
    while at <= v.len() - n.len()
        invariant
            n@.len() <= v@.len(),
            at <= v@.len() - n@.len() + 1,
            v@ == s@,
            n@ == needle@,
            forall|k: int| 0 <= k < at ==> !stands_at(s@, needle@, k),
        decreases v.len() - n.len() + 1 - at,
    {
        if standing_at(&v, &n, at) {
            return true;
        }
        if at == v.len() - n.len() {
            assert forall|k: int| !stands_at(s@, needle@, k) by {}
            return false;
        }
        at = at + 1;
    }
    false
}

/// What a text holds, every longer text holds that has it as a part.
pub proof fn holding_extends(before: Seq<char>, s: Seq<char>, after: Seq<char>, needle: Seq<char>)
    requires
        holds(s, needle),
    ensures
        holds(before + s + after, needle),
{
    let at = choose|at: int| stands_at(s, needle, at);
    let whole = before + s + after;
    assert(whole.subrange(before.len() + at, before.len() + at + needle.len()) =~= s.subrange(
        at,
        at + needle.len(),
    ));
    assert(stands_at(whole, needle, before.len() + at));
}

/// The position of the last `c` in `s`, or -1 where there is none.
pub open spec fn last_index(s: Seq<char>, c: char) -> int
    decreases s.len(),
{
    if s.len() == 0 {
        -1
    } else if s.last() == c {
        s.len() - 1
    } else {
        last_index(s.drop_last(), c)
    }
}

/// The position of the last `c` holds a `c`, and no later position does.
pub proof fn lemma_last_index(s: Seq<char>, c: char)
    ensures
        -1 <= last_index(s, c) < s.len(),
        last_index(s, c) >= 0 ==> s[last_index(s, c)] == c,
        forall|k: int| last_index(s, c) < k < s.len() ==> s[k] != c,
    decreases s.len(),
{
    if s.len() > 0 && s.last() != c {
        lemma_last_index(s.drop_last(), c);
        assert forall|k: int| last_index(s, c) < k < s.len() implies s[k] != c by {
            if k < s.len() - 1 {
                assert(s[k] == s.drop_last()[k]);
            }
        }
    }
}

/// A position that holds a `c`, and after which there is no other, is the last one.
pub proof fn lemma_is_last_index(s: Seq<char>, c: char, at: int)
    requires
        -1 <= at < s.len(),
        at >= 0 ==> s[at] == c,
        forall|k: int| at < k < s.len() ==> s[k] != c,
    ensures
        last_index(s, c) == at,
{
    lemma_last_index(s, c);
}

/// The position of the last `c` in a list of characters, if there is one.
pub fn last_position(s: &Vec<char>, c: char) -> (r: Option<usize>)
    ensures
        match r {
            Some(at) => at as int == last_index(s@, c),
            None => last_index(s@, c) == -1,
        },
{
    let mut end: usize = s.len();
    while end > 0
        invariant
            end <= s.len(),
            forall|k: int| end <= k < s.len() ==> s@[k] != c,
        decreases end,
    {
        if s[end - 1] == c {
            proof {
                lemma_is_last_index(s@, c, end - 1);
            }
            return Some(end - 1);
        }
        end = end - 1;
    }
    proof {
        lemma_is_last_index(s@, c, -1);
    }
    None
}

// ---------------------------------------------------------------------------------------------
// Order
// ---------------------------------------------------------------------------------------------
/// `a` comes before `b` in the lexicographic order of their code points.
pub open spec fn precedes(a: Seq<char>, b: Seq<char>) -> bool
    decreases a.len(),
{
    if b.len() == 0 {
        false
    } else if a.len() == 0 {
        true
    } else if a[0] != b[0] {
        a[0] < b[0]
    } else {
        precedes(a.drop_first(), b.drop_first())
    }
}

/// Whether `a` comes before `b`.
pub fn comes_before(a: &str, b: &str) -> (r: bool)
    ensures
        r == precedes(a@, b@),
{
    let x = chars_of(a);
    let y = chars_of(b);
    let mut i: usize = 0;
    assert(x@.skip(0) =~= x@);
    assert(y@.skip(0) =~= y@);
    while i < x.len() && i < y.len()
        invariant
            i <= x.len(),
            i <= y.len(),
            x@ == a@,
            y@ == b@,
            precedes(x@.skip(i as int), y@.skip(i as int)) == precedes(x@, y@),
        decreases x.len() - i,
    {
        if x[i] != y[i] {
            return x[i] < y[i];
        }
        assert(x@.skip(i as int).drop_first() =~= x@.skip(i + 1));
        assert(y@.skip(i as int).drop_first() =~= y@.skip(i + 1));
        i = i + 1;
    }
    i < y.len()
}

/// No text comes before itself.
pub proof fn lemma_precedes_irreflexive(a: Seq<char>)
    ensures
        !precedes(a, a),
    decreases a.len(),
{
    if a.len() > 0 {
        lemma_precedes_irreflexive(a.drop_first());
    }
}

/// The order is transitive.
pub proof fn lemma_precedes_transitive(a: Seq<char>, b: Seq<char>, c: Seq<char>)
    requires
        precedes(a, b),
        precedes(b, c),
    ensures
        precedes(a, c),
    decreases a.len(),
{
    if a.len() > 0 && a[0] == b[0] && b[0] == c[0] {
        lemma_precedes_transitive(a.drop_first(), b.drop_first(), c.drop_first());
    }
}

/// Of two different texts one comes before the other.
pub proof fn lemma_precedes_total(a: Seq<char>, b: Seq<char>)
    ensures
        a == b || precedes(a, b) || precedes(b, a),
    decreases a.len(),
{
    if a.len() > 0 && b.len() > 0 && a[0] == b[0] {
        lemma_precedes_total(a.drop_first(), b.drop_first());
        if a.drop_first() == b.drop_first() {
            assert(a =~= seq![a[0]] + a.drop_first());
            assert(b =~= seq![b[0]] + b.drop_first());
        }
    } else if a.len() == 0 && b.len() == 0 {
        assert(a =~= b);
    }
}

// ---------------------------------------------------------------------------------------------
// Numerals
// ---------------------------------------------------------------------------------------------
/// The decimal digit of a number below ten.
pub open spec fn digit(d: nat) -> char {
    (48 + d) as char
}

/// The decimal numeral of a natural number, without leading zeros.
pub open spec fn decimal(n: nat) -> Seq<char>
    decreases n,
{
    if n < 10 {
        seq![digit(n)]
    } else {
        decimal(n / 10).push(digit(n % 10))
    }
}

/// The decimal numeral of an integer: a negative one has a hyphen in front.
pub open spec fn signed_decimal(n: int) -> Seq<char> {
    if n < 0 {
        "-"@ + decimal((-n) as nat)
    } else {
        decimal(n as nat)
    }
}

/// Writes a natural number in decimal.
pub fn decimal_text(n: u64) -> (s: String)
    ensures
        s@ == decimal(n as nat),
    decreases n,
{
    if n < 10 {
        let mut s = String::new();
        s.push((48 + n as u8) as char);
        assert(s@ =~= decimal(n as nat));
        s
    } else {
        let mut s = decimal_text(n / 10);
        s.push((48 + (n % 10) as u8) as char);
        s
    }
}

/// Writes an integer in decimal.
pub fn signed_decimal_text(n: i32) -> (s: String)
    ensures
        s@ == signed_decimal(n as int),
{
    if n < 0 {
        let mut s = "-".to_owned();
        let magnitude: u64 = (-(n as i64)) as u64;
        s.append(decimal_text(magnitude).as_str());
        s
    } else {
        decimal_text(n as u64)
    }
}

/// A numeral holds digits only, and at least one.
pub proof fn lemma_decimal_digits(n: nat)
    ensures
        decimal(n).len() > 0,
        forall|i: int| 0 <= i < decimal(n).len() ==> '0' <= #[trigger] decimal(n)[i] <= '9',
    decreases n,
{
    if n >= 10 {
        lemma_decimal_digits(n / 10);
    }
}

/// Different numbers have different numerals.
pub proof fn lemma_decimal_injective(m: nat, n: nat)
    requires
        decimal(m) == decimal(n),
    ensures
        m == n,
    decreases m,
{
    lemma_decimal_digits(m / 10);
    lemma_decimal_digits(n / 10);
    if m < 10 && n < 10 {
        assert(decimal(m)[0] == digit(m));
        assert(decimal(n)[0] == digit(n));
    } else if m >= 10 && n >= 10 {
        assert(decimal(m).drop_last() =~= decimal(m / 10));
        assert(decimal(n).drop_last() =~= decimal(n / 10));
        assert(decimal(m).last() == digit(m % 10));
        assert(decimal(n).last() == digit(n % 10));
        lemma_decimal_injective(m / 10, n / 10);
    } else {
        assert(decimal(m).len() != decimal(n).len());
    }
}

// ---------------------------------------------------------------------------------------------
// What the functions on texts are for
// ---------------------------------------------------------------------------------------------
/// Small letters take the place of the twenty-six ASCII capitals, each at its place; nothing else
/// changes.
pub proof fn lowering_changes_capitals_alone(s: Seq<char>)
    ensures
        lowered(s).len() == s.len(),
        forall|i: int|
            0 <= i < s.len() ==> {
                let c = #[trigger] s[i];
                if 'A' <= c <= 'Z' {
                    lowered(s)[i] as int - 'a' as int == c as int - 'A' as int
                } else {
                    lowered(s)[i] == c
                }
            },
{
}

/// Joining one more text puts the separator and that text behind what was joined before.
pub proof fn joining_appends(parts: Seq<Seq<char>>, last: Seq<char>, separator: Seq<char>)
    ensures
        joined(Seq::empty(), separator).len() == 0,
        joined(seq![last], separator) == last,
        parts.len() > 0 ==> joined(parts.push(last), separator) == joined(parts, separator)
            + separator + last,
{
    assert(parts.push(last).drop_last() =~= parts);
}

/// Trimming takes white space away at the two ends, all of it, and nothing else. What is left of a
/// text is empty only where it holds nothing but white space.
pub proof fn trimming_removes_white_space_alone(
    before: Seq<char>,
    inner: Seq<char>,
    after: Seq<char>,
)
    requires
        forall|i: int| 0 <= i < before.len() ==> is_white_space(#[trigger] before[i]),
        forall|i: int| 0 <= i < after.len() ==> is_white_space(#[trigger] after[i]),
        inner.len() > 0 ==> !is_white_space(inner[0]) && !is_white_space(inner.last()),
    ensures
        trimmed(before + inner + after) == inner,
{
    lemma_trimmed_front(before, inner + after);
    assert(before + (inner + after) =~= before + inner + after);
    if inner.len() == 0 {
        lemma_trimmed_front(after, Seq::empty());
        assert(inner + after =~= after + Seq::<char>::empty());
        assert(trimmed_start(inner + after) == Seq::<char>::empty());
    } else {
        assert((inner + after)[0] == inner[0]);
        lemma_trimmed_back(inner, after);
    }
    assert(inner.len() == 0 ==> inner =~= Seq::<char>::empty());
}

proof fn lemma_trimmed_front(before: Seq<char>, rest: Seq<char>)
    requires
        forall|i: int| 0 <= i < before.len() ==> is_white_space(#[trigger] before[i]),
    ensures
        trimmed_start(before + rest) == trimmed_start(rest),
    decreases before.len(),
{
    if before.len() > 0 {
        let shorter = before.drop_first();
        assert forall|i: int| 0 <= i < shorter.len() implies is_white_space(
            #[trigger] shorter[i],
        ) by {
            assert(shorter[i] == before[i + 1]);
        }
        assert((before + rest)[0] == before[0]);
        assert((before + rest).drop_first() =~= shorter + rest);
        lemma_trimmed_front(shorter, rest);
    } else {
        assert(before + rest =~= rest);
    }
}

proof fn lemma_trimmed_back(inner: Seq<char>, after: Seq<char>)
    requires
        forall|i: int| 0 <= i < after.len() ==> is_white_space(#[trigger] after[i]),
        inner.len() > 0,
        !is_white_space(inner.last()),
    ensures
        trimmed_end(inner + after) == inner,
    decreases after.len(),
{
    if after.len() > 0 {
        let shorter = after.drop_last();
        assert forall|i: int| 0 <= i < shorter.len() implies is_white_space(
            #[trigger] shorter[i],
        ) by {
            assert(shorter[i] == after[i]);
        }
        assert((inner + after).last() == after.last());
        assert((inner + after).drop_last() =~= inner + shorter);
        lemma_trimmed_back(inner, shorter);
    } else {
        assert(inner + after =~= inner);
    }
}

/// A text holds whatever stands between two parts of it, and nothing but that.
pub proof fn holding_is_having_a_part(s: Seq<char>, needle: Seq<char>)
    ensures
        holds(s, needle) <==> exists|before: Seq<char>, after: Seq<char>|
            s == #[trigger] (before + needle + after),
{
    if holds(s, needle) {
        let at = choose|at: int| stands_at(s, needle, at);
        let before = s.take(at);
        let after = s.skip(at + needle.len());
        assert(s =~= before + needle + after);
    }
    if exists|before: Seq<char>, after: Seq<char>| s == #[trigger] (before + needle + after) {
        let (before, after) = choose|before: Seq<char>, after: Seq<char>|
            s == #[trigger] (before + needle + after);
        assert(s.subrange(before.len() as int, before.len() as int + needle.len()) =~= needle);
        assert(stands_at(s, needle, before.len() as int));
    }
}

/// Texts are in the order of the characters in which they first differ, and a text comes before all
/// that go on from it.
pub proof fn order_is_by_the_first_difference(
    common: Seq<char>,
    a: char,
    b: char,
    x: Seq<char>,
    y: Seq<char>,
)
    ensures
        a < b ==> precedes(common + seq![a] + x, common + seq![b] + y),
        a < b ==> !precedes(common + seq![b] + y, common + seq![a] + x),
        x.len() > 0 ==> precedes(common, common + x),
    decreases common.len(),
{
    let p = common + seq![a] + x;
    let q = common + seq![b] + y;
    if common.len() > 0 {
        let rest = common.drop_first();
        order_is_by_the_first_difference(rest, a, b, x, y);
        assert(p.drop_first() =~= rest + seq![a] + x);
        assert(q.drop_first() =~= rest + seq![b] + y);
        assert((common + x).drop_first() =~= rest + x);
        assert(p[0] == common[0] && q[0] == common[0] && (common + x)[0] == common[0]);
    } else {
        assert(p[0] == a && q[0] == b);
        assert(common + x =~= x);
    }
}

/// The number that a row of digits stands for.
pub open spec fn numeral_value(digits: Seq<char>) -> int
    decreases digits.len(),
{
    if digits.len() == 0 {
        0
    } else {
        10 * numeral_value(digits.drop_last()) + (digits.last() as int - '0' as int)
    }
}

/// A numeral is a row of digits that stands for its number and begins with a zero only where it is
/// the number zero. A negative number has a hyphen before the numeral of what it is without it.
pub proof fn numerals_stand_for_their_numbers(n: nat)
    ensures
        numeral_value(decimal(n)) == n,
        decimal(n).len() > 0,
        n > 0 ==> decimal(n)[0] != '0',
        forall|i: int| 0 <= i < decimal(n).len() ==> '0' <= #[trigger] decimal(n)[i] <= '9',
        signed_decimal(n as int) == decimal(n),
        n > 0 ==> signed_decimal(-(n as int)) == seq!['-'] + decimal(n),
    decreases n,
{
    reveal_strlit("-");
    lemma_decimal_digits(n);
    assert("-"@ =~= seq!['-']);
    if n >= 10 {
        numerals_stand_for_their_numbers(n / 10);
        assert(decimal(n).drop_last() =~= decimal(n / 10));
        assert(decimal(n)[0] == decimal(n / 10)[0]);
    } else {
        assert(decimal(n).drop_last() =~= Seq::empty());
        assert(numeral_value(decimal(n).drop_last()) == 0);
    }
}

/// Nothing is left of a text by trimming exactly where it holds nothing but white space.
pub proof fn trimming_empties_blank_texts_alone(s: Seq<char>)
    ensures
        trimmed(s).len() == 0 <==> forall|i: int|
            0 <= i < s.len() ==> is_white_space(#[trigger] s[i]),
{
    if forall|i: int| 0 <= i < s.len() ==> is_white_space(#[trigger] s[i]) {
        let none = Seq::<char>::empty();
        trimming_removes_white_space_alone(s, none, none);
        assert(s + none + none =~= s);
    } else {
        let i = choose|i: int| 0 <= i < s.len() && !is_white_space(#[trigger] s[i]);
        lemma_trimmed_start_keeps(s, i);
        let rest = trimmed_start(s);
        let j = choose|j: int| 0 <= j < rest.len() && !is_white_space(#[trigger] rest[j]);
        lemma_trimmed_end_keeps(rest, j);
    }
}

proof fn lemma_trimmed_start_keeps(s: Seq<char>, i: int)
    requires
        0 <= i < s.len(),
        !is_white_space(s[i]),
    ensures
        exists|j: int|
            0 <= j < trimmed_start(s).len() && !is_white_space(#[trigger] trimmed_start(s)[j]),
    decreases s.len(),
{
    if is_white_space(s[0]) {
        assert(s.drop_first()[i - 1] == s[i]);
        lemma_trimmed_start_keeps(s.drop_first(), i - 1);
        let rest = trimmed_start(s.drop_first());
        let j = choose|j: int| 0 <= j < rest.len() && !is_white_space(#[trigger] rest[j]);
        assert(trimmed_start(s)[j] == rest[j]);
    } else {
        assert(trimmed_start(s)[0] == s[0]);
    }
}

proof fn lemma_trimmed_end_keeps(s: Seq<char>, i: int)
    requires
        0 <= i < s.len(),
        !is_white_space(s[i]),
    ensures
        trimmed_end(s).len() > 0,
    decreases s.len(),
{
    if is_white_space(s.last()) {
        assert(s.drop_last()[i] == s[i]);
        lemma_trimmed_end_keeps(s.drop_last(), i);
    }
}

} // verus!

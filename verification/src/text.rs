//! Text primitives shared by the validation, planning and linting rules.
//!
//! A string is modelled by its sequence of characters; the length of its UTF-8
//! form appears only where a limit is counted in bytes.

pub mod laws;

use vstd::prelude::*;
use vstd::string::*;
use vstd::utf8::*;

verus! {

// ---------------------------------------------------------------
// Concatenation and comparison
// ---------------------------------------------------------------

/// Concatenates two pieces of text.
pub fn join2(a: &str, b: &str) -> (r: String)
    ensures
        r@ == a@ + b@,
{
    a.to_owned().concat(b)
}

/// Concatenates three pieces of text.
pub fn join3(a: &str, b: &str, c: &str) -> (r: String)
    ensures
        r@ == a@ + b@ + c@,
{
    a.to_owned().concat(b).concat(c)
}

/// Concatenates four pieces of text.
pub fn join4(a: &str, b: &str, c: &str, d: &str) -> (r: String)
    ensures
        r@ == a@ + b@ + c@ + d@,
{
    a.to_owned().concat(b).concat(c).concat(d)
}

/// Concatenates five pieces of text.
pub fn join5(a: &str, b: &str, c: &str, d: &str, e: &str) -> (r: String)
    ensures
        r@ == a@ + b@ + c@ + d@ + e@,
{
    a.to_owned().concat(b).concat(c).concat(d).concat(e)
}

/// Concatenates six pieces of text.
pub fn join6(a: &str, b: &str, c: &str, d: &str, e: &str, f: &str) -> (r: String)
    ensures
        r@ == a@ + b@ + c@ + d@ + e@ + f@,
{
    a.to_owned().concat(b).concat(c).concat(d).concat(e).concat(f)
}

/// True when both texts hold the same characters.
pub fn same_text(a: &str, b: &str) -> (r: bool)
    ensures
        r == (a@ == b@),
{
    a.to_owned() == b.to_owned()
}

/// Lists the characters of `s`.
pub fn chars_of(s: &str) -> (r: Vec<char>)
    ensures
        r@ == s@,
{
    let mut r: Vec<char> = Vec::new();
    for c in it: s.chars()
        invariant
            r@ == s@.take(it.index()),
            it.seq() == s@,
    {
        r.push(c);
    }
    r
}

/// Length of the UTF-8 form of a text, in bytes.
pub open spec fn byte_len(s: Seq<char>) -> nat {
    encode_utf8(s).len()
}

/// Computes the length of the UTF-8 form of `s`.
pub fn utf8_len(s: &str) -> (n: usize)
    ensures
        n == byte_len(s@),
{
    s.as_bytes().len()
}

// ---------------------------------------------------------------
// Quoting and case
// ---------------------------------------------------------------

/// A character that the debug form of a text shows as itself.
pub open spec fn shows_verbatim(c: char) -> bool {
    ' ' <= c <= '~' && c != '"' && c != '\\'
}

/// The debug form of a text: the text in double quotes, with escapes.
pub uninterp spec fn debug_form(s: Seq<char>) -> Seq<char>;

/// Renders `s` with the `Debug` formatter of `str`.
///
/// Trusted: the rendering depends on the text alone, and printable ASCII other
/// than the double quote and the backslash stands unescaped between the quotes.
/// How other characters are escaped is left unsaid.
#[verifier::external_body]
pub(crate) fn quoted(s: &str) -> (r: String)
    ensures
        r@ == debug_form(s@),
        (forall|i: int| 0 <= i < s@.len() ==> shows_verbatim(#[trigger] s@[i])) ==> r@ == seq!['"']
            + s@ + seq!['"'],
{
    format!("{:?}", s)
}

/// The lower-case form of an ASCII character.
pub open spec fn ascii_lower_char(c: char) -> char {
    if 'A' <= c <= 'Z' {
        ((c as u32) + 32) as char
    } else {
        c
    }
}

/// The lower-case form of a text under the Unicode rules.
pub uninterp spec fn lowercase_form(s: Seq<char>) -> Seq<char>;

/// Lower-cases `s` with `str::to_lowercase`.
///
/// Trusted: the result depends on the text alone, and on ASCII text exactly the
/// letters `A` to `Z` change. The mapping of other letters is left unsaid.
#[verifier::external_body]
pub(crate) fn lowercased(s: &str) -> (r: String)
    ensures
        r@ == lowercase_form(s@),
        is_ascii_chars(s@) ==> r@ == s@.map_values(|c: char| ascii_lower_char(c)),
{
    s.to_lowercase()
}

// ---------------------------------------------------------------
// Character classes
// ---------------------------------------------------------------

pub open spec fn is_digit(c: char) -> bool {
    '0' <= c <= '9'
}

pub open spec fn is_lower(c: char) -> bool {
    'a' <= c <= 'z'
}

pub open spec fn is_upper(c: char) -> bool {
    'A' <= c <= 'Z'
}

/// Sets of ASCII characters that the naming rules allow.
#[derive(Clone, Copy, PartialEq, Eq, Structural, Debug)]
pub enum CharClass {
    /// Decimal digits.
    Digit,
    /// Hexadecimal digits of either case.
    Hex,
    /// Lower-case letters, digits and hyphens.
    Label,
    /// Lower-case letters, digits, hyphens and dots.
    Zone,
    /// Letters, digits, hyphens, underscores and dots.
    Container,
    /// Letters and underscores.
    IdentStart,
    /// Letters, digits and underscores.
    IdentRest,
}

/// Membership of a character in a class.
pub open spec fn in_class(class: CharClass, c: char) -> bool {
    match class {
        CharClass::Digit => is_digit(c),
        CharClass::Hex => is_digit(c) || 'a' <= c <= 'f' || 'A' <= c <= 'F',
        CharClass::Label => is_lower(c) || is_digit(c) || c == '-',
        CharClass::Zone => is_lower(c) || is_digit(c) || c == '-' || c == '.',
        CharClass::Container => is_lower(c) || is_upper(c) || is_digit(c) || c == '-' || c == '_'
            || c == '.',
        CharClass::IdentStart => is_lower(c) || is_upper(c) || c == '_',
        CharClass::IdentRest => is_lower(c) || is_upper(c) || is_digit(c) || c == '_',
    }
}

/// True when every character of a text belongs to a class.
pub open spec fn all_in(class: CharClass, s: Seq<char>) -> bool {
    forall|i: int| 0 <= i < s.len() ==> in_class(class, #[trigger] s[i])
}

/// Decides membership of a character in a class.
pub fn has_class(class: CharClass, c: char) -> (r: bool)
    ensures
        r == in_class(class, c),
{
    let digit = '0' <= c && c <= '9';
    let lower = 'a' <= c && c <= 'z';
    let upper = 'A' <= c && c <= 'Z';
    match class {
        CharClass::Digit => digit,
        CharClass::Hex => digit || ('a' <= c && c <= 'f') || ('A' <= c && c <= 'F'),
        CharClass::Label => lower || digit || c == '-',
        CharClass::Zone => lower || digit || c == '-' || c == '.',
        CharClass::Container => lower || upper || digit || c == '-' || c == '_' || c == '.',
        CharClass::IdentStart => lower || upper || c == '_',
        CharClass::IdentRest => lower || upper || digit || c == '_',
    }
}

/// Decides whether every character of `s` belongs to `class`.
pub fn all_have_class(class: CharClass, s: &str) -> (r: bool)
    ensures
        r == all_in(class, s@),
{
    let chars = chars_of(s);
    let mut i: usize = 0;
    while i < chars.len()
        invariant
            chars@ == s@,
            i <= chars@.len(),
            forall|j: int| 0 <= j < i ==> in_class(class, #[trigger] s@[j]),
        decreases chars.len() - i,
    {
        if !has_class(class, chars[i]) {
            assert(!in_class(class, s@[i as int]));
            return false;
        }
        i += 1;
    }
    true
}

/// The characters with the Unicode property `White_Space`.
pub open spec fn is_white_space(c: char) -> bool {
    ||| '\u{9}' <= c <= '\u{d}'
    ||| c == ' '
    ||| c == '\u{85}'
    ||| c == '\u{a0}'
    ||| c == '\u{1680}'
    ||| '\u{2000}' <= c <= '\u{200a}'
    ||| c == '\u{2028}'
    ||| c == '\u{2029}'
    ||| c == '\u{202f}'
    ||| c == '\u{205f}'
    ||| c == '\u{3000}'
}

/// Decides whether `c` is white space.
pub fn white_space(c: char) -> (r: bool)
    ensures
        r == is_white_space(c),
{
    ('\u{9}' <= c && c <= '\u{d}') || c == ' ' || c == '\u{85}' || c == '\u{a0}' || c == '\u{1680}'
        || ('\u{2000}' <= c && c <= '\u{200a}') || c == '\u{2028}' || c == '\u{2029}' || c
        == '\u{202f}' || c == '\u{205f}' || c == '\u{3000}'
}

// ---------------------------------------------------------------
// Blanks and trimming
// ---------------------------------------------------------------

/// True when a text holds nothing but white space.
pub open spec fn is_blank(s: Seq<char>) -> bool {
    forall|i: int| 0 <= i < s.len() ==> is_white_space(#[trigger] s[i])
}

/// A text without its leading white space.
pub open spec fn trim_start(s: Seq<char>) -> Seq<char>
    decreases s.len(),
{
    if s.len() > 0 && is_white_space(s[0]) {
        trim_start(s.drop_first())
    } else {
        s
    }
}

/// A text without its trailing white space.
pub open spec fn trim_end(s: Seq<char>) -> Seq<char>
    decreases s.len(),
{
    if s.len() > 0 && is_white_space(s.last()) {
        trim_end(s.drop_last())
    } else {
        s
    }
}

/// A text without leading and trailing white space.
pub open spec fn trim(s: Seq<char>) -> Seq<char> {
    trim_end(trim_start(s))
}

/// Removes leading and trailing white space.
pub fn trimmed<'a>(s: &'a str) -> (r: &'a str)
    ensures
        r@ == trim(s@),
{
    let chars = chars_of(s);
    let n = chars.len();
    let mut from: usize = 0;
    assert(s@.skip(0) =~= s@);
    while from < n && white_space(chars[from])
        invariant
            chars@ == s@,
            n == chars@.len(),
            from <= n,
            trim_start(s@) == trim_start(s@.skip(from as int)),
        decreases n - from,
    {
        assert(s@.skip(from as int).drop_first() =~= s@.skip(from + 1));
        from += 1;
    }
    let ghost body = s@.skip(from as int);
    assert(trim_start(s@) == body);
    let mut to: usize = n;
    assert(body.take(to - from) =~= body);
    while to > from && white_space(chars[to - 1])
        invariant
            chars@ == s@,
            n == chars@.len(),
            from <= to <= n,
            body == s@.skip(from as int),
            trim_end(body) == trim_end(body.take(to - from)),
        decreases to,
    {
        assert(body.take(to - from).drop_last() =~= body.take(to - from - 1));
        assert(body.take(to - from).last() == chars@[to - 1]);
        to -= 1;
    }
    assert(body.take(to - from) =~= s@.subrange(from as int, to as int));
    if to > from {
        assert(body.take(to - from).last() == chars@[to - 1]);
    }
    s.substring_char(from, to)
}

/// Decides whether `s` is empty or only white space.
pub fn blank(s: &str) -> (r: bool)
    ensures
        r == is_blank(s@),
{
    let chars = chars_of(s);
    let mut i: usize = 0;
    while i < chars.len()
        invariant
            chars@ == s@,
            i <= chars@.len(),
            forall|j: int| 0 <= j < i ==> is_white_space(#[trigger] s@[j]),
        decreases chars.len() - i,
    {
        if !white_space(chars[i]) {
            assert(!is_white_space(s@[i as int]));
            return false;
        }
        i += 1;
    }
    true
}

/// A text is blank exactly when trimming leaves nothing of it.
pub proof fn lemma_blank_is_trimmed_empty(s: Seq<char>)
    ensures
        is_blank(s) <==> trim(s).len() == 0,
    decreases s.len(),
{
    if s.len() > 0 && is_white_space(s[0]) {
        let rest = s.drop_first();
        lemma_blank_is_trimmed_empty(rest);
        if is_blank(rest) {
            assert forall|i: int| 0 <= i < s.len() implies is_white_space(#[trigger] s[i]) by {
                if i > 0 {
                    assert(rest[i - 1] == s[i]);
                }
            }
        } else {
            let k = choose|k: int| 0 <= k < rest.len() && !is_white_space(#[trigger] rest[k]);
            assert(s[k + 1] == rest[k]);
        }
    } else if s.len() > 0 {
        lemma_trim_end_keeps_first(s);
    }
}

proof fn lemma_trim_end_keeps_first(s: Seq<char>)
    requires
        s.len() > 0,
        !is_white_space(s[0]),
    ensures
        trim_end(s).len() > 0,
    decreases s.len(),
{
    if is_white_space(s.last()) {
        lemma_trim_end_keeps_first(s.drop_last());
    }
}

// ---------------------------------------------------------------
// Searching
// ---------------------------------------------------------------

/// True when `part` stands at position `at` of `s`.
pub open spec fn occurs_at(s: Seq<char>, part: Seq<char>, at: int) -> bool {
    0 <= at && at + part.len() <= s.len() && s.subrange(at, at + part.len()) == part
}

/// True when `s` begins with `part`.
pub open spec fn begins_with(s: Seq<char>, part: Seq<char>) -> bool {
    occurs_at(s, part, 0)
}

/// True when `s` ends with `part`.
pub open spec fn ends_in(s: Seq<char>, part: Seq<char>) -> bool {
    occurs_at(s, part, s.len() - part.len())
}

/// Decides whether `part` stands at position `at` of `s`.
pub fn part_at(s: &[char], part: &[char], at: usize) -> (r: bool)
    ensures
        r == occurs_at(s@, part@, at as int),
{
    if part.len() > s.len() || at > s.len() - part.len() {
        return false;
    }
    let mut i: usize = 0;
    while i < part.len()
        invariant
            i <= part@.len(),
            at + part@.len() <= s@.len(),
            forall|j: int| 0 <= j < i ==> s@[at + j] == #[trigger] part@[j],
        decreases part.len() - i,
    {
        assert(at + i < s.len());
        if s[at + i] != part[i] {
            assert(s@.subrange(at as int, at + part@.len())[i as int] != part@[i as int]);
            return false;
        }
        i += 1;
    }
    assert(s@.subrange(at as int, at + part@.len()) =~= part@);
    true
}

/// Decides whether `s` begins with `part`.
pub fn starts_with(s: &str, part: &str) -> (r: bool)
    ensures
        r == begins_with(s@, part@),
{
    part_at(chars_of(s).as_slice(), chars_of(part).as_slice(), 0)
}

/// Decides whether `s` ends with `part`.
pub fn ends_with(s: &str, part: &str) -> (r: bool)
    ensures
        r == ends_in(s@, part@),
{
    let text = chars_of(s);
    let tail = chars_of(part);
    if tail.len() > text.len() {
        return false;
    }
    part_at(text.as_slice(), tail.as_slice(), text.len() - tail.len())
}

/// The text after `part`, when `s` begins with it.
pub open spec fn after_prefix(s: Seq<char>, part: Seq<char>) -> Option<Seq<char>> {
    if begins_with(s, part) {
        Some(s.skip(part.len() as int))
    } else {
        None
    }
}

/// Removes the prefix `part` from `s`, if it is there.
pub fn strip_prefix<'a>(s: &'a str, part: &str) -> (r: Option<&'a str>)
    ensures
        match after_prefix(s@, part@) {
            Some(rest) => r matches Some(t) && t@ == rest,
            None => r is None,
        },
{
    if starts_with(s, part) {
        let from = part.unicode_len();
        let to = s.unicode_len();
        assert(s@.subrange(from as int, to as int) =~= s@.skip(part@.len() as int));
        Some(s.substring_char(from, to))
    } else {
        None
    }
}

/// The text before `part`, when `s` ends with it.
pub open spec fn before_suffix(s: Seq<char>, part: Seq<char>) -> Option<Seq<char>> {
    if ends_in(s, part) {
        Some(s.take(s.len() - part.len()))
    } else {
        None
    }
}

/// Removes the suffix `part` from `s`, if it is there.
pub fn strip_suffix<'a>(s: &'a str, part: &str) -> (r: Option<&'a str>)
    ensures
        match before_suffix(s@, part@) {
            Some(rest) => r matches Some(t) && t@ == rest,
            None => r is None,
        },
{
    if ends_with(s, part) {
        let to = s.unicode_len() - part.unicode_len();
        assert(s@.subrange(0, to as int) =~= s@.take(s@.len() - part@.len()));
        Some(s.substring_char(0, to))
    } else {
        None
    }
}

/// Finds the first position of `part` in `s`.
pub fn find_part(s: &str, part: &str) -> (r: Option<usize>)
    ensures
        match r {
            Some(at) => occurs_at(s@, part@, at as int) && forall|j: int|
                0 <= j < at ==> !occurs_at(s@, part@, j),
            None => forall|j: int| !occurs_at(s@, part@, j),
        },
{
    let text = chars_of(s);
    let wanted = chars_of(part);
    let mut at: usize = 0;
    while at < text.len()
        invariant
            text@ == s@,
            wanted@ == part@,
            at <= text@.len(),
            forall|j: int| 0 <= j < at ==> !occurs_at(s@, part@, j),
        decreases text.len() - at,
    {
        if part_at(text.as_slice(), wanted.as_slice(), at) {
            return Some(at);
        }
        at += 1;
    }
    if part_at(text.as_slice(), wanted.as_slice(), at) {
        return Some(at);
    }
    None
}

/// Decides whether `c` occurs in `s`.
pub fn has_char(s: &str, c: char) -> (r: bool)
    ensures
        r == s@.contains(c),
{
    let chars = chars_of(s);
    let mut i: usize = 0;
    while i < chars.len()
        invariant
            chars@ == s@,
            i <= chars@.len(),
            forall|j: int| 0 <= j < i ==> s@[j] != c,
        decreases chars.len() - i,
    {
        if chars[i] == c {
            assert(s@[i as int] == c);
            return true;
        }
        i += 1;
    }
    false
}

/// True when the first character of `s` is `c`.
pub open spec fn first_is(s: Seq<char>, c: char) -> bool {
    s.len() > 0 && s[0] == c
}

/// True when the last character of `s` is `c`.
pub open spec fn last_is(s: Seq<char>, c: char) -> bool {
    s.len() > 0 && s.last() == c
}

/// Decides whether `s` starts with the character `c`.
pub fn starts_with_char(s: &str, c: char) -> (r: bool)
    ensures
        r == first_is(s@, c),
{
    s.unicode_len() > 0 && s.get_char(0) == c
}

/// Decides whether `s` ends with the character `c`.
pub fn ends_with_char(s: &str, c: char) -> (r: bool)
    ensures
        r == last_is(s@, c),
{
    let n = s.unicode_len();
    n > 0 && s.get_char(n - 1) == c
}

// ---------------------------------------------------------------
// Splitting
// ---------------------------------------------------------------

/// The pieces of a text between the occurrences of a separator.
pub open spec fn split_on(s: Seq<char>, sep: char) -> Seq<Seq<char>>
    decreases s.len(),
{
    if s.len() == 0 {
        seq![Seq::empty()]
    } else {
        let pieces = split_on(s.drop_last(), sep);
        if s.last() == sep {
            pieces.push(Seq::empty())
        } else {
            pieces.drop_last().push(pieces.last().push(s.last()))
        }
    }
}

/// The characters of each text of a list.
pub open spec fn texts(v: Seq<String>) -> Seq<Seq<char>> {
    v.map_values(|t: String| t@)
}

pub proof fn lemma_split_nonempty(s: Seq<char>, sep: char)
    ensures
        split_on(s, sep).len() > 0,
    decreases s.len(),
{
    if s.len() > 0 {
        lemma_split_nonempty(s.drop_last(), sep);
    }
}

/// Splits `s` at every occurrence of `sep`.
pub fn split(s: &str, sep: char) -> (r: Vec<String>)
    ensures
        texts(r@) == split_on(s@, sep),
{
    let chars = chars_of(s);
    let mut pieces: Vec<String> = Vec::new();
    let mut from: usize = 0;
    let mut i: usize = 0;
    assert(s@.take(0) =~= Seq::<char>::empty());
    assert(texts(pieces@).push(s@.subrange(0, 0)) =~= seq![Seq::<char>::empty()]);
    while i < chars.len()
        invariant
            chars@ == s@,
            from <= i <= chars@.len(),
            texts(pieces@).push(s@.subrange(from as int, i as int)) == split_on(
                s@.take(i as int),
                sep,
            ),
        decreases chars.len() - i,
    {
        let ghost done = texts(pieces@);
        let ghost open_piece = s@.subrange(from as int, i as int);
        assert(s@.take(i + 1).drop_last() =~= s@.take(i as int));
        assert(s@.take(i + 1).last() == s@[i as int]);
        assert(done.push(open_piece).last() == open_piece);
        assert(done.push(open_piece).drop_last() =~= done);
        if chars[i] == sep {
            pieces.push(s.substring_char(from, i).to_owned());
            from = i + 1;
            assert(texts(pieces@) =~= done.push(open_piece));
            assert(s@.subrange(from as int, i + 1) =~= Seq::<char>::empty());
        } else {
            assert(s@.subrange(from as int, i + 1) =~= open_piece.push(s@[i as int]));
        }
        i += 1;
    }
    assert(s@.take(i as int) =~= s@);
    let ghost done = texts(pieces@);
    let ghost open_piece = s@.subrange(from as int, i as int);
    pieces.push(s.substring_char(from, i).to_owned());
    assert(texts(pieces@) =~= done.push(open_piece));
    pieces
}

/// A piece that a line feed ended, without a carriage return before it.
pub open spec fn line_body(piece: Seq<char>) -> Seq<char> {
    if last_is(piece, '\r') {
        piece.drop_last()
    } else {
        piece
    }
}

/// The lines of a text. A line feed, or a carriage return and a line feed, ends
/// a line; what follows the last line feed is a line only if it is not empty.
pub open spec fn lines_of(s: Seq<char>) -> Seq<Seq<char>> {
    let pieces = split_on(s, '\n');
    let ended = pieces.drop_last().map_values(|p: Seq<char>| line_body(p));
    if pieces.last().len() == 0 {
        ended
    } else {
        ended.push(pieces.last())
    }
}

/// Splits `s` into lines.
pub fn lines(s: &str) -> (r: Vec<String>)
    ensures
        texts(r@) == lines_of(s@),
{
    let pieces = split(s, '\n');
    let ghost all = split_on(s@, '\n');
    proof {
        lemma_split_nonempty(s@, '\n');
        assert(pieces@.len() == texts(pieces@).len());
    }
    let mut out: Vec<String> = Vec::new();
    let mut i: usize = 0;
    let last = pieces.len() - 1;
    while i < last
        invariant
            i <= last,
            last + 1 == pieces@.len(),
            texts(pieces@) == all,
            texts(out@) == all.take(i as int).map_values(|p: Seq<char>| line_body(p)),
        decreases last - i,
    {
        let piece = pieces[i].as_str();
        let ghost before = texts(out@);
        assert(all[i as int] == piece@);
        if ends_with_char(piece, '\r') {
            let n = piece.unicode_len();
            assert(piece@.subrange(0, n - 1) =~= piece@.drop_last());
            out.push(piece.substring_char(0, n - 1).to_owned());
        } else {
            out.push(pieces[i].clone());
        }
        assert(texts(out@) =~= before.push(line_body(all[i as int])));
        assert(all.take(i + 1).map_values(|p: Seq<char>| line_body(p)) =~= all.take(
            i as int,
        ).map_values(|p: Seq<char>| line_body(p)).push(line_body(all[i as int])));
        i += 1;
    }
    assert(all.take(last as int) =~= all.drop_last());
    assert(all.last() == pieces@[last as int]@);
    if !pieces[last].as_str().is_empty() {
        let ghost before = texts(out@);
        out.push(pieces[last].clone());
        assert(texts(out@) =~= before.push(all.last()));
    }
    out
}

// ---------------------------------------------------------------
// Optional text
// ---------------------------------------------------------------

/// The characters of an optional owned text.
pub open spec fn opt_text(o: Option<String>) -> Option<Seq<char>> {
    match o {
        Some(t) => Some(t@),
        None => None,
    }
}

/// The characters of an optional borrowed text.
pub open spec fn opt_str(o: Option<&str>) -> Option<Seq<char>> {
    match o {
        Some(t) => Some(t@),
        None => None,
    }
}

/// Borrows an optional text.
pub fn borrow_text<'a>(o: &'a Option<String>) -> (r: Option<&'a str>)
    ensures
        opt_str(r) == opt_text(*o),
{
    match o {
        Some(t) => Some(t.as_str()),
        None => None,
    }
}

/// Copies an optional text.
pub fn own_text(o: Option<&str>) -> (r: Option<String>)
    ensures
        opt_text(r) == opt_str(o),
{
    match o {
        Some(t) => Some(t.to_owned()),
        None => None,
    }
}

} // verus!

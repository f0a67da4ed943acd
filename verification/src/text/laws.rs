//! What the operations on texts come to.

use vstd::prelude::*;
use vstd::utf8::encode_utf8;
use crate::text::{
    after_prefix, before_suffix, begins_with, byte_len, ends_in, is_blank, is_white_space, last_is,
    lemma_split_nonempty, lines_of, split_on, trim, trim_end, trim_start,
};

verus! {

// ---------------------------------------------------------------
// White space
// ---------------------------------------------------------------

/// True for the code points that are white space.
pub open spec fn is_space_code(code: u32) -> bool {
    (0x9 <= code <= 0xd) || code == 0x20 || code == 0x85 || code == 0xa0 || code == 0x1680 || (
    0x2000 <= code <= 0x200a) || code == 0x2028 || code == 0x2029 || code == 0x202f || code
        == 0x205f || code == 0x3000
}

/// White space is what Unicode takes for it.
pub proof fn law_white_space_is_that_of_unicode(c: char)
    ensures
        is_white_space(c) <==> is_space_code(c as u32),
{
}

proof fn lemma_trim_start(s: Seq<char>) -> (a: int)
    ensures
        0 <= a <= s.len(),
        trim_start(s) == s.skip(a),
        is_blank(s.take(a)),
        a < s.len() ==> !is_white_space(s[a]),
    decreases s.len(),
{
    if s.len() > 0 && is_white_space(s[0]) {
        let rest = s.drop_first();
        let b = lemma_trim_start(rest);
        assert(rest.skip(b) =~= s.skip(b + 1));
        assert forall|i: int| 0 <= i < b + 1 implies is_white_space(
            #[trigger] s.take(b + 1)[i],
        ) by {
            if i > 0 {
                assert(rest.take(b)[i - 1] == s[i]);
            }
        }
        b + 1
    } else {
        assert(s.skip(0) =~= s);
        0
    }
}

proof fn lemma_trim_end(s: Seq<char>) -> (b: int)
    ensures
        0 <= b <= s.len(),
        trim_end(s) == s.take(b),
        is_blank(s.skip(b)),
        0 < b ==> !is_white_space(s[b - 1]),
    decreases s.len(),
{
    if s.len() > 0 && is_white_space(s.last()) {
        let rest = s.drop_last();
        let b = lemma_trim_end(rest);
        assert(rest.take(b) =~= s.take(b));
        assert forall|i: int| 0 <= i < s.len() - b implies is_white_space(
            #[trigger] s.skip(b)[i],
        ) by {
            if i < rest.len() - b {
                assert(rest.skip(b)[i] == s.skip(b)[i]);
            }
        }
        b
    } else {
        assert(s.take(s.len() as int) =~= s);
        assert(s.skip(s.len() as int).len() == 0);
        s.len() as int
    }
}

/// Trimming a text takes the white space at both ends away, and nothing else.
pub proof fn law_trimming_takes_the_space_around(s: Seq<char>) -> (ends: (int, int))
    ensures
        0 <= ends.0 <= ends.1 <= s.len(),
        trim(s) == s.subrange(ends.0, ends.1),
        is_blank(s.take(ends.0)),
        is_blank(s.skip(ends.1)),
        ends.0 < ends.1 ==> !is_white_space(s[ends.0]) && !is_white_space(s[ends.1 - 1]),
{
    let a = lemma_trim_start(s);
    let rest = s.skip(a);
    let b = lemma_trim_end(rest);
    assert(trim(s) =~= s.subrange(a, a + b));
    assert(rest.skip(b) =~= s.skip(a + b));
    if b > 0 {
        assert(rest[b - 1] == s[a + b - 1]);
    }
    (a, a + b)
}

// ---------------------------------------------------------------
// Prefixes and suffixes
// ---------------------------------------------------------------

/// A text begins with a part exactly when it is the part and something behind it.
pub proof fn law_prefixes_stand_in_front(s: Seq<char>, part: Seq<char>, rest: Seq<char>)
    ensures
        begins_with(part + rest, part),
        after_prefix(part + rest, part) == Some(rest),
        begins_with(s, part) ==> s == part + s.skip(part.len() as int),
        after_prefix(s, part) is Some <==> begins_with(s, part),
{
    assert((part + rest).subrange(0, part.len() as int) =~= part);
    assert((part + rest).skip(part.len() as int) =~= rest);
    if begins_with(s, part) {
        assert(s =~= s.subrange(0, part.len() as int) + s.skip(part.len() as int));
    }
}

/// A text ends in a part exactly when it is something and the part behind it.
pub proof fn law_suffixes_stand_behind(s: Seq<char>, part: Seq<char>, rest: Seq<char>)
    ensures
        ends_in(rest + part, part),
        before_suffix(rest + part, part) == Some(rest),
        ends_in(s, part) ==> s == s.take(s.len() - part.len()) + part,
        before_suffix(s, part) is Some <==> ends_in(s, part),
{
    let whole = rest + part;
    assert(whole.subrange(rest.len() as int, whole.len() as int) =~= part);
    assert(whole.take(rest.len() as int) =~= rest);
    if ends_in(s, part) {
        let at = s.len() - part.len();
        assert(s =~= s.take(at) + s.subrange(at, s.len() as int));
    }
}

// ---------------------------------------------------------------
// Pieces
// ---------------------------------------------------------------

/// The pieces, one after the other, with a separator between them.
pub open spec fn glued(pieces: Seq<Seq<char>>, sep: char) -> Seq<char>
    decreases pieces.len(),
{
    if pieces.len() == 0 {
        Seq::empty()
    } else if pieces.len() == 1 {
        pieces[0]
    } else {
        glued(pieces.drop_last(), sep).push(sep) + pieces.last()
    }
}

/// Splitting a text gives the pieces between the separators: none of them holds a
/// separator, and glued together they give the text back.
pub proof fn law_pieces_make_up_the_text(s: Seq<char>, sep: char)
    ensures
        split_on(s, sep).len() > 0,
        forall|i: int|
            0 <= i < split_on(s, sep).len() ==> !(#[trigger] split_on(s, sep)[i]).contains(sep),
        glued(split_on(s, sep), sep) == s,
    decreases s.len(),
{
    lemma_split_nonempty(s, sep);
    if s.len() > 0 {
        let rest = s.drop_last();
        let before = split_on(rest, sep);
        let pieces = split_on(s, sep);
        law_pieces_make_up_the_text(rest, sep);
        if s.last() == sep {
            assert(pieces.drop_last() =~= before);
            assert(glued(pieces, sep) =~= s);
            assert forall|i: int| 0 <= i < pieces.len() implies !(#[trigger] pieces[i]).contains(
                sep,
            ) by {
                if i < before.len() {
                    assert(pieces[i] == before[i]);
                }
            }
        } else {
            let last = before.last().push(s.last());
            assert(pieces.drop_last() =~= before.drop_last());
            assert(pieces.last() == last);
            assert(s =~= rest.push(s.last()));
            if before.len() == 1 {
                assert(pieces[0] == last);
                assert(glued(before, sep) == before[0]);
                assert(glued(pieces, sep) =~= s);
            } else {
                let front = glued(before.drop_last(), sep).push(sep);
                assert(glued(before, sep) == front + before.last());
                assert(glued(pieces, sep) == front + last);
                assert(front + last =~= (front + before.last()).push(s.last()));
            }
            assert forall|i: int| 0 <= i < pieces.len() implies !(#[trigger] pieces[i]).contains(
                sep,
            ) by {
                if i < pieces.len() - 1 {
                    assert(pieces[i] == before[i]);
                } else {
                    assert(!before[i].contains(sep));
                    if last.contains(sep) {
                        let k = choose|k: int| 0 <= k < last.len() && last[k] == sep;
                        if k < before.last().len() {
                            assert(before.last()[k] == sep);
                        }
                    }
                }
            }
        }
    } else {
        assert(glued(split_on(s, sep), sep) =~= s);
    }
}

/// Pieces without separators that are glued together are split apart again.
pub proof fn law_glued_pieces_come_apart(pieces: Seq<Seq<char>>, sep: char)
    requires
        pieces.len() > 0,
        forall|i: int| 0 <= i < pieces.len() ==> !(#[trigger] pieces[i]).contains(sep),
    ensures
        split_on(glued(pieces, sep), sep) == pieces,
    decreases pieces.len(), pieces.last().len(),
{
    let s = glued(pieces, sep);
    let last = pieces.last();
    if last.len() == 0 {
        if pieces.len() == 1 {
            assert(s.len() == 0);
            assert(pieces =~= seq![Seq::<char>::empty()]) by {
                assert(pieces[0] =~= Seq::<char>::empty());
            }
        } else {
            let rest = pieces.drop_last();
            assert forall|i: int| 0 <= i < rest.len() implies !(#[trigger] rest[i]).contains(sep) by {
                assert(rest[i] == pieces[i]);
            }
            law_glued_pieces_come_apart(rest, sep);
            assert(s =~= glued(rest, sep).push(sep));
            assert(s.drop_last() =~= glued(rest, sep));
            assert(last =~= Seq::<char>::empty());
            assert(pieces =~= rest.push(Seq::empty()));
        }
    } else {
        let c = last.last();
        assert(last.contains(c));
        let shorter = pieces.drop_last().push(last.drop_last());
        assert(pieces[pieces.len() - 1] == last);
        assert(!last.contains(sep));
        assert forall|i: int| 0 <= i < shorter.len() implies !(#[trigger] shorter[i]).contains(
            sep,
        ) by {
            if i < shorter.len() - 1 {
                assert(shorter[i] == pieces[i]);
            } else {
                if shorter[i].contains(sep) {
                    let k = choose|k: int| 0 <= k < shorter[i].len() && shorter[i][k] == sep;
                    assert(last[k] == sep);
                }
            }
        }
        law_glued_pieces_come_apart(shorter, sep);
        assert(shorter.drop_last() =~= pieces.drop_last());
        assert(s =~= glued(shorter, sep).push(c));
        assert(s.drop_last() =~= glued(shorter, sep));
        assert(s.last() == c && c != sep);
        assert(split_on(s, sep) =~= shorter.drop_last().push(shorter.last().push(c)));
        assert(shorter.last().push(c) =~= last);
        assert(split_on(s, sep) =~= pieces);
    }
}

/// The lines of a text are what stands between its line feeds, without the
/// carriage return before a line feed. What stands behind the last line feed is a
/// line only if it is not empty.
pub proof fn law_lines_end_at_line_feeds(pieces: Seq<Seq<char>>)
    requires
        pieces.len() > 0,
        forall|i: int| 0 <= i < pieces.len() ==> !(#[trigger] pieces[i]).contains('\n'),
    ensures
        ({
            let lines = lines_of(glued(pieces, '\n'));
            let n = pieces.len() - 1;
            &&& lines.len() == if pieces[n].len() == 0 {
                n
            } else {
                n + 1
            }
            &&& forall|i: int|
                #![trigger lines[i]]
                0 <= i < n ==> lines[i] == if last_is(pieces[i], '\r') {
                    pieces[i].drop_last()
                } else {
                    pieces[i]
                }
            &&& pieces[n].len() > 0 ==> lines[n] == pieces[n]
        }),
{
    law_glued_pieces_come_apart(pieces, '\n');
    let lines = lines_of(glued(pieces, '\n'));
    let n = pieces.len() - 1;
    assert(pieces.last() == pieces[n]);
    assert forall|i: int| #![trigger lines[i]] 0 <= i < n implies lines[i] == if last_is(
        pieces[i],
        '\r',
    ) {
        pieces[i].drop_last()
    } else {
        pieces[i]
    } by {
        assert(pieces.drop_last()[i] == pieces[i]);
    }
}

// ---------------------------------------------------------------
// Lengths
// ---------------------------------------------------------------

/// Lengths are counted in bytes of UTF-8, not in characters.
pub proof fn law_lengths_are_counted_in_bytes(s: Seq<char>)
    ensures
        byte_len(s) == encode_utf8(s).len(),
{
}

/// A text is blank exactly when it holds nothing but white space.
pub proof fn law_blank_texts_are_white_space(s: Seq<char>)
    ensures
        is_blank(s) <==> forall|i: int| 0 <= i < s.len() ==> is_space_code(#[trigger] s[i] as u32),
{
    if is_blank(s) {
        assert forall|i: int| 0 <= i < s.len() implies is_space_code(#[trigger] s[i] as u32) by {
            assert(is_white_space(s[i]));
        }
    }
    if forall|i: int| 0 <= i < s.len() ==> is_space_code(#[trigger] s[i] as u32) {
        assert forall|i: int| 0 <= i < s.len() implies is_white_space(#[trigger] s[i]) by {
            assert(is_space_code(s[i] as u32));
            law_white_space_is_that_of_unicode(s[i]);
        }
    }
}

} // verus!

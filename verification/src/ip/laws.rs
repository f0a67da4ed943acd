//! Which texts are IP addresses, and of what value.

use vstd::prelude::*;
use crate::ip::{
    gap_from, group_value, groups_from, groups_of, hex_value, ip_value, ipv4_value, ipv6_of,
    octet_value, IpAddr,
};
use crate::json::laws::law_numerals_read_back;
use crate::numeral::{decimal, digit_char, digits_value};
use crate::text::laws::{glued, law_glued_pieces_come_apart, law_pieces_make_up_the_text};
use crate::text::{all_in, in_class, split_on, CharClass};

verus! {

// ---------------------------------------------------------------
// IPv4
// ---------------------------------------------------------------

/// A sequence of digits without a zero in front is the numeral of its value.
proof fn lemma_digits_are_numeral(s: Seq<char>)
    requires
        s.len() > 0,
        forall|i: int| 0 <= i < s.len() ==> '0' <= #[trigger] s[i] <= '9',
        s.len() > 1 ==> s[0] != '0',
    ensures
        decimal(digits_value(s)) == s,
        s[0] != '0' ==> digits_value(s) > 0,
    decreases s.len(),
{
    let rest = s.drop_last();
    let d = (s.last() as u32 - 48) as nat;
    assert('0' <= s[s.len() - 1] <= '9');
    assert(digit_char(d) == s.last());
    if s.len() == 1 {
        assert(digits_value(rest) == 0);
        assert(decimal(digits_value(s)) =~= s);
    } else {
        assert forall|i: int| 0 <= i < rest.len() implies '0' <= #[trigger] rest[i] <= '9' by {
            assert(rest[i] == s[i]);
        }
        assert(rest[0] == s[0]);
        lemma_digits_are_numeral(rest);
        let n = digits_value(rest);
        assert(digits_value(s) == n * 10 + d);
        assert((n * 10 + d) / 10 == n && (n * 10 + d) % 10 == d);
        assert(decimal(digits_value(s)) =~= s);
    }
}

proof fn lemma_numeral_length(n: nat)
    ensures
        n <= 255 ==> decimal(n).len() <= 3,
{
    if n >= 10 {
        if n / 10 >= 10 {
            assert(n <= 255 ==> n / 10 / 10 < 10);
        }
    }
    reveal_with_fuel(decimal, 4);
}

/// A part of an IPv4 address is exactly the numeral of a number up to 255.
pub proof fn law_octets_are_numerals(s: Seq<char>, n: nat)
    ensures
        octet_value(s) == Some(n) <==> n <= 255 && s == decimal(n),
{
    if octet_value(s) == Some(n) {
        assert forall|i: int| 0 <= i < s.len() implies '0' <= #[trigger] s[i] <= '9' by {
            assert(in_class(CharClass::Digit, s[i]));
        }
        lemma_digits_are_numeral(s);
    }
    if n <= 255 && s == decimal(n) {
        law_numerals_read_back(n);
        lemma_numeral_length(n);
        assert(all_in(CharClass::Digit, s));
        if s.len() > 1 {
            assert(s[0] != '0') by {
                if s[0] == '0' {
                    assert(n == 0);
                    assert(decimal(0).len() == 1);
                }
            }
        }
    }
}

/// The text of an IPv4 address: four numerals with dots between them.
pub open spec fn dotted(a: nat, b: nat, c: nat, d: nat) -> Seq<char> {
    glued(seq![decimal(a), decimal(b), decimal(c), decimal(d)], '.')
}

proof fn lemma_dotted_apart(a: nat, b: nat, c: nat, d: nat)
    ensures
        split_on(dotted(a, b, c, d), '.') == seq![decimal(a), decimal(b), decimal(c), decimal(d)],
{
    let pieces = seq![decimal(a), decimal(b), decimal(c), decimal(d)];
    assert forall|i: int| 0 <= i < pieces.len() implies !(#[trigger] pieces[i]).contains('.') by {
        law_numerals_read_back(a);
        law_numerals_read_back(b);
        law_numerals_read_back(c);
        law_numerals_read_back(d);
        if pieces[i].contains('.') {
            let k = choose|k: int| 0 <= k < pieces[i].len() && pieces[i][k] == '.';
            assert('0' <= pieces[i][k] <= '9');
        }
    }
    law_glued_pieces_come_apart(pieces, '.');
}

/// Four numerals up to 255 with dots between them are an IPv4 address, of which
/// the first is the most significant part; and nothing else is one.
pub proof fn law_ipv4_addresses_are_dotted(s: Seq<char>, v: u32)
    ensures
        ipv4_value(s) == Some(v) <==> exists|a: nat, b: nat, c: nat, d: nat|
            a <= 255 && b <= 255 && c <= 255 && d <= 255 && s == #[trigger] dotted(a, b, c, d) && v
                == a * 0x100_0000 + b * 0x1_0000 + c * 0x100 + d,
{
    if ipv4_value(s) == Some(v) {
        let parts = split_on(s, '.');
        let a = octet_value(parts[0])->0;
        let b = octet_value(parts[1])->0;
        let c = octet_value(parts[2])->0;
        let d = octet_value(parts[3])->0;
        law_octets_are_numerals(parts[0], a);
        law_octets_are_numerals(parts[1], b);
        law_octets_are_numerals(parts[2], c);
        law_octets_are_numerals(parts[3], d);
        law_pieces_make_up_the_text(s, '.');
        assert(parts =~= seq![decimal(a), decimal(b), decimal(c), decimal(d)]);
        assert(s == dotted(a, b, c, d));
        assert(((a * 256 + b) * 256 + c) * 256 + d == a * 0x100_0000 + b * 0x1_0000 + c * 0x100 + d)
            by (nonlinear_arith);
    }
    if exists|a: nat, b: nat, c: nat, d: nat|
        a <= 255 && b <= 255 && c <= 255 && d <= 255 && s == #[trigger] dotted(a, b, c, d) && v == a
            * 0x100_0000 + b * 0x1_0000 + c * 0x100 + d {
        let (a, b, c, d) = choose|a: nat, b: nat, c: nat, d: nat|
            a <= 255 && b <= 255 && c <= 255 && d <= 255 && s == #[trigger] dotted(a, b, c, d) && v
                == a * 0x100_0000 + b * 0x1_0000 + c * 0x100 + d;
        lemma_dotted_apart(a, b, c, d);
        law_octets_are_numerals(decimal(a), a);
        law_octets_are_numerals(decimal(b), b);
        law_octets_are_numerals(decimal(c), c);
        law_octets_are_numerals(decimal(d), d);
        assert(((a * 256 + b) * 256 + c) * 256 + d == a * 0x100_0000 + b * 0x1_0000 + c * 0x100 + d)
            by (nonlinear_arith);
    }
}

// ---------------------------------------------------------------
// IPv6
// ---------------------------------------------------------------

/// True for one to four hexadecimal digits.
pub open spec fn is_group(s: Seq<char>) -> bool {
    1 <= s.len() <= 4 && forall|i: int|
        0 <= i < s.len() ==> ('0' <= #[trigger] s[i] <= '9' || 'a' <= s[i] <= 'f' || 'A' <= s[i]
            <= 'F')
}

/// True when all texts are groups of an IPv6 address.
pub open spec fn are_groups(texts: Seq<Seq<char>>) -> bool {
    forall|i: int| 0 <= i < texts.len() ==> is_group(#[trigger] texts[i])
}

/// The values of the groups.
pub open spec fn group_values(texts: Seq<Seq<char>>) -> Seq<u64> {
    Seq::new(texts.len(), |i: int| hex_value(texts[i]) as u64)
}

proof fn lemma_group(s: Seq<char>)
    requires
        is_group(s),
    ensures
        group_value(s) == Some(hex_value(s) as u64),
        ipv4_value(s) is None,
        !s.contains(':'),
{
    assert(all_in(CharClass::Hex, s));
    if s.contains(':') {
        let k = choose|k: int| 0 <= k < s.len() && s[k] == ':';
        assert(s[k] == ':');
    }
    if let Some(v) = ipv4_value(s) {
        law_ipv4_addresses_are_dotted(s, v);
        let (a, b, c, d) = choose|a: nat, b: nat, c: nat, d: nat|
            a <= 255 && b <= 255 && c <= 255 && d <= 255 && s == #[trigger] dotted(a, b, c, d) && v
                == a * 0x100_0000 + b * 0x1_0000 + c * 0x100 + d;
        lemma_dotted_apart(a, b, c, d);
        lemma_no_dot_one_piece(s);
    }
}

proof fn lemma_no_dot_one_piece(s: Seq<char>)
    requires
        forall|i: int| 0 <= i < s.len() ==> #[trigger] s[i] != '.',
    ensures
        split_on(s, '.').len() == 1,
    decreases s.len(),
{
    if s.len() > 0 {
        assert(s[s.len() - 1] != '.');
        lemma_no_dot_one_piece(s.drop_last());
    }
}

proof fn lemma_groups_from(texts: Seq<Seq<char>>, i: int, with_ipv4: bool)
    requires
        are_groups(texts),
        0 <= i <= texts.len(),
    ensures
        groups_from(texts, i, with_ipv4) == Some(group_values(texts).skip(i)),
    decreases texts.len() - i,
{
    if i < texts.len() {
        lemma_groups_from(texts, i + 1, with_ipv4);
        assert(is_group(texts[i]));
        lemma_group(texts[i]);
        assert(seq![hex_value(texts[i]) as u64] + group_values(texts).skip(i + 1)
            =~= group_values(texts).skip(i));
    } else {
        assert(group_values(texts).skip(i) =~= Seq::empty());
    }
}

proof fn lemma_groups_of(texts: Seq<Seq<char>>, with_ipv4: bool)
    requires
        are_groups(texts),
    ensures
        groups_of(glued(texts, ':'), with_ipv4) == Some(group_values(texts)),
        texts.len() > 0 ==> glued(texts, ':').len() > 0,
{
    if texts.len() > 0 {
        assert forall|i: int| 0 <= i < texts.len() implies !(#[trigger] texts[i]).contains(':') by {
            assert(is_group(texts[i]));
            lemma_group(texts[i]);
        }
        law_glued_pieces_come_apart(texts, ':');
        assert(is_group(texts[0]));
        assert(is_group(texts[texts.len() - 1]));
        if texts.len() > 1 {
            assert(glued(texts, ':').len() >= texts.last().len());
        }
        lemma_groups_from(texts, 0, with_ipv4);
        assert(group_values(texts).skip(0) =~= group_values(texts));
    } else {
        assert(group_values(texts) =~= Seq::empty());
    }
}

/// A text of groups with colons between them begins and ends with a digit, and no
/// two colons stand side by side in it.
proof fn lemma_no_gap(texts: Seq<Seq<char>>)
    requires
        are_groups(texts),
        texts.len() > 0,
    ensures
        ({
            let s = glued(texts, ':');
            &&& s.len() > 0
            &&& s[0] != ':'
            &&& s[s.len() - 1] != ':'
            &&& forall|i: int| 0 <= i && i + 1 < s.len() ==> !(#[trigger] s[i] == ':' && s[i + 1]
                == ':')
        }),
    decreases texts.len(),
{
    let s = glued(texts, ':');
    let last = texts.last();
    assert(is_group(texts[texts.len() - 1]));
    assert forall|i: int| 0 <= i < last.len() implies #[trigger] last[i] != ':' by {}
    if texts.len() > 1 {
        let rest = texts.drop_last();
        assert forall|i: int| 0 <= i < rest.len() implies is_group(#[trigger] rest[i]) by {
            assert(rest[i] == texts[i]);
        }
        lemma_no_gap(rest);
        let r = glued(rest, ':');
        assert(s == r.push(':') + last);
        assert(s[0] == r[0]);
        assert(s[s.len() - 1] == last[last.len() - 1]);
        assert forall|i: int| 0 <= i && i + 1 < s.len() implies !(#[trigger] s[i] == ':' && s[i + 1]
            == ':') by {
            if i + 1 < r.len() {
                assert(s[i] == r[i] && s[i + 1] == r[i + 1]);
            } else if i + 1 == r.len() {
                assert(s[i] == r[r.len() - 1]);
            } else if i == r.len() {
                assert(s[i + 1] == last[0]);
            } else {
                assert(s[i] == last[i - r.len() - 1]);
            }
        }
    } else {
        assert(s == texts[0]);
        assert(s == last);
        assert(s[0] == last[0] && s[s.len() - 1] == last[s.len() - 1]);
        assert forall|i: int| 0 <= i && i + 1 < s.len() implies !(#[trigger] s[i] == ':' && s[i + 1]
            == ':') by {
            assert(s[i] == last[i]);
        }
    }
}

proof fn lemma_gap_from(s: Seq<char>, i: int, gap: int)
    requires
        0 <= i <= gap,
        gap + 1 < s.len(),
        s[gap] == ':' && s[gap + 1] == ':',
        forall|j: int| i <= j < gap ==> !(#[trigger] s[j] == ':' && s[j + 1] == ':'),
    ensures
        gap_from(s, i) == Some(gap),
    decreases gap - i,
{
    if i < gap {
        assert(!(s[i] == ':' && s[i + 1] == ':'));
        lemma_gap_from(s, i + 1, gap);
    }
}

proof fn lemma_gapless(s: Seq<char>, i: int)
    requires
        0 <= i,
        forall|j: int| 0 <= j && j + 1 < s.len() ==> !(#[trigger] s[j] == ':' && s[j + 1] == ':'),
    ensures
        gap_from(s, i) is None,
    decreases s.len() - i,
{
    if i + 1 < s.len() {
        assert(!(s[i] == ':' && s[i + 1] == ':'));
        lemma_gapless(s, i + 1);
    }
}

proof fn lemma_no_dots(texts: Seq<Seq<char>>)
    requires
        are_groups(texts),
    ensures
        forall|i: int| 0 <= i < glued(texts, ':').len() ==> #[trigger] glued(texts, ':')[i] != '.',
    decreases texts.len(),
{
    let s = glued(texts, ':');
    if texts.len() > 0 {
        let last = texts.last();
        assert(is_group(texts[texts.len() - 1]));
        if texts.len() > 1 {
            let rest = texts.drop_last();
            assert forall|i: int| 0 <= i < rest.len() implies is_group(#[trigger] rest[i]) by {
                assert(rest[i] == texts[i]);
            }
            lemma_no_dots(rest);
            let r = glued(rest, ':');
            assert(s == r.push(':') + last);
            assert forall|i: int| 0 <= i < s.len() implies #[trigger] s[i] != '.' by {
                if i < r.len() {
                    assert(s[i] == r[i]);
                } else if i > r.len() {
                    assert(s[i] == last[i - r.len() - 1]);
                }
            }
        } else {
            assert(s == last);
            assert forall|i: int| 0 <= i < s.len() implies #[trigger] s[i] != '.' by {
                assert(s[i] == last[i]);
            }
        }
    }
}

proof fn lemma_not_ipv4(s: Seq<char>)
    requires
        forall|i: int| 0 <= i < s.len() ==> #[trigger] s[i] != '.',
    ensures
        ipv4_value(s) is None,
{
    lemma_no_dot_one_piece(s);
}

/// Eight groups with colons between them are an IPv6 address of these groups; with
/// fewer or more groups they are none.
pub proof fn law_eight_groups_are_an_address(texts: Seq<Seq<char>>)
    requires
        are_groups(texts),
        texts.len() > 0,
    ensures
        texts.len() == 8 ==> ip_value(glued(texts, ':')) == Some(ipv6_of(group_values(texts))),
        texts.len() != 8 ==> ip_value(glued(texts, ':')) is None,
{
    let s = glued(texts, ':');
    lemma_no_gap(texts);
    lemma_gapless(s, 0);
    lemma_groups_of(texts, true);
    lemma_no_dots(texts);
    lemma_not_ipv4(s);
}

/// Up to seven groups with two colons at one place between them, or at either end,
/// are an IPv6 address in which zeros stand for the groups that are left out.
pub proof fn law_two_colons_stand_for_zeros(left: Seq<Seq<char>>, right: Seq<Seq<char>>)
    requires
        are_groups(left),
        are_groups(right),
    ensures
        ({
            let s = glued(left, ':') + seq![':', ':'] + glued(right, ':');
            let zeros = Seq::new((8 - left.len() - right.len()) as nat, |i: int| 0u64);
            &&& left.len() + right.len() <= 7 ==> ip_value(s) == Some(
                ipv6_of(group_values(left) + zeros + group_values(right)),
            )
            &&& left.len() + right.len() > 7 ==> ip_value(s) is None
        }),
{
    let a = glued(left, ':');
    let b = glued(right, ':');
    let s = a + seq![':', ':'] + b;
    let gap = a.len() as int;
    if left.len() > 0 {
        lemma_no_gap(left);
    }
    assert(s[gap] == ':' && s[gap + 1] == ':');
    assert forall|j: int| 0 <= j < gap implies !(#[trigger] s[j] == ':' && s[j + 1] == ':') by {
        assert(s[j] == a[j]);
        if j + 1 < gap {
            assert(s[j + 1] == a[j + 1]);
        }
    }
    lemma_gap_from(s, 0, gap);
    assert(s.take(gap) =~= a);
    assert(s.skip(gap + 2) =~= b);
    lemma_groups_of(left, false);
    lemma_groups_of(right, true);
    lemma_no_dots(left);
    lemma_no_dots(right);
    assert forall|i: int| 0 <= i < s.len() implies #[trigger] s[i] != '.' by {
        if i < gap {
            assert(s[i] == a[i]);
        } else if i >= gap + 2 {
            assert(s[i] == b[i - gap - 2]);
        }
    }
    lemma_not_ipv4(s);
}

/// The value of an IPv6 address: the first group is its most significant part.
pub proof fn law_groups_are_in_order(groups: Seq<u64>)
    requires
        groups.len() == 8,
        forall|i: int| 0 <= i < 8 ==> #[trigger] groups[i] <= 0xffff,
    ensures
        ipv6_of(groups) == (IpAddr::V6 {
            high: (groups[0] * 0x1_0000_0000_0000 + groups[1] * 0x1_0000_0000 + groups[2] * 0x1_0000
                + groups[3]) as u64,
            low: (groups[4] * 0x1_0000_0000_0000 + groups[5] * 0x1_0000_0000 + groups[6] * 0x1_0000
                + groups[7]) as u64,
        }),
{
    assert(groups[0] <= 0xffff && groups[1] <= 0xffff && groups[2] <= 0xffff && groups[3] <= 0xffff);
    assert(groups[4] <= 0xffff && groups[5] <= 0xffff && groups[6] <= 0xffff && groups[7] <= 0xffff);
}

/// A group is exactly one to four hexadecimal digits.
pub proof fn law_groups_are_hexadecimal(s: Seq<char>)
    ensures
        group_value(s) is Some <==> is_group(s),
        group_value(s) matches Some(v) ==> v == hex_value(s) as u64,
{
    if group_value(s) is Some {
        assert forall|i: int| 0 <= i < s.len() implies ('0' <= #[trigger] s[i] <= '9' || 'a' <= s[i]
            <= 'f' || 'A' <= s[i] <= 'F') by {
            assert(in_class(CharClass::Hex, s[i]));
        }
    }
    if is_group(s) {
        lemma_group(s);
    }
}

/// True when every text is a group, but for the last, which may be an IPv4 address
/// where one is allowed.
pub open spec fn are_groups_or_ipv4(texts: Seq<Seq<char>>, with_ipv4: bool) -> bool {
    forall|i: int|
        0 <= i < texts.len() ==> is_group(#[trigger] texts[i]) || (with_ipv4 && i == texts.len() - 1
            && ipv4_value(texts[i]) is Some)
}

/// The number of groups that texts make up: an IPv4 address at the end counts for
/// two.
pub open spec fn group_count(texts: Seq<Seq<char>>) -> int {
    if texts.len() > 0 && ipv4_value(texts.last()) is Some {
        texts.len() as int + 1
    } else {
        texts.len() as int
    }
}

proof fn lemma_groups_are_sound(texts: Seq<Seq<char>>, i: int, with_ipv4: bool)
    requires
        0 <= i < texts.len(),
        groups_from(texts, i, with_ipv4) is Some,
    ensures
        forall|k: int|
            i <= k < texts.len() ==> is_group(#[trigger] texts[k]) || (with_ipv4 && k == texts.len()
                - 1 && ipv4_value(texts[k]) is Some),
        (groups_from(texts, i, with_ipv4)->0).len() == group_count(texts) - i,
    decreases texts.len() - i,
{
    law_groups_are_hexadecimal(texts[i]);
    if with_ipv4 && i == texts.len() - 1 && ipv4_value(texts[i]) is Some {
    } else {
        if is_group(texts[i]) {
            lemma_group(texts[i]);
        }
        if i + 1 < texts.len() {
            lemma_groups_are_sound(texts, i + 1, with_ipv4);
        } else {
            assert(groups_from(texts, i + 1, with_ipv4) == Some(Seq::<u64>::empty()));
        }
    }
}

/// True when a text is empty, or made of groups with colons between them, of which
/// the last may be an IPv4 address where one is allowed.
pub open spec fn is_group_text(s: Seq<char>, with_ipv4: bool) -> bool {
    s.len() == 0 || are_groups_or_ipv4(split_on(s, ':'), with_ipv4)
}

/// The number of groups that a text makes up.
pub open spec fn groups_in(s: Seq<char>) -> int {
    if s.len() == 0 {
        0
    } else {
        group_count(split_on(s, ':'))
    }
}

proof fn lemma_group_text(s: Seq<char>, with_ipv4: bool)
    requires
        groups_of(s, with_ipv4) is Some,
    ensures
        is_group_text(s, with_ipv4),
        (groups_of(s, with_ipv4)->0).len() == groups_in(s),
{
    if s.len() > 0 {
        law_pieces_make_up_the_text(s, ':');
        lemma_groups_are_sound(split_on(s, ':'), 0, with_ipv4);
    }
}

proof fn lemma_first_gap(s: Seq<char>, i: int)
    requires
        0 <= i,
    ensures
        match gap_from(s, i) {
            Some(gap) => i <= gap && gap + 1 < s.len() && s[gap] == ':' && s[gap + 1] == ':'
                && forall|j: int|
                i <= j < gap ==> !(#[trigger] s[j] == ':' && s[j + 1] == ':'),
            None => forall|j: int|
                i <= j && j + 1 < s.len() ==> !(#[trigger] s[j] == ':' && s[j + 1] == ':'),
        },
    decreases s.len() - i,
{
    if i + 1 < s.len() {
        lemma_first_gap(s, i + 1);
    }
}

/// True when two colons stand first at a position.
pub open spec fn is_first_gap(s: Seq<char>, gap: int) -> bool {
    &&& 0 <= gap && gap + 1 < s.len()
    &&& s[gap] == ':' && s[gap + 1] == ':'
    &&& forall|j: int| 0 <= j < gap ==> !(#[trigger] s[j] == ':' && s[j + 1] == ':')
}

/// Nothing else is an IPv6 address: without two colons side by side it is made of
/// eight groups; with them it has groups, or nothing, on either side, at most seven
/// in all. An IPv4 address may stand for the last two groups.
pub proof fn law_ipv6_addresses_are_made_of_groups(s: Seq<char>)
    requires
        ip_value(s) is Some,
        ipv4_value(s) is None,
    ensures
        ({
            ||| {
                &&& forall|j: int|
                    0 <= j && j + 1 < s.len() ==> !(#[trigger] s[j] == ':' && s[j + 1] == ':')
                &&& s.len() > 0
                &&& is_group_text(s, true)
                &&& groups_in(s) == 8
            }
            ||| exists|gap: int|
                #[trigger] is_first_gap(s, gap) && is_group_text(s.take(gap), false)
                    && is_group_text(s.skip(gap + 2), true) && groups_in(s.take(gap)) + groups_in(
                    s.skip(gap + 2),
                ) <= 7
        }),
{
    lemma_first_gap(s, 0);
    match gap_from(s, 0) {
        Some(gap) => {
            assert(is_first_gap(s, gap));
            lemma_group_text(s.take(gap), false);
            lemma_group_text(s.skip(gap + 2), true);
        },
        None => {
            lemma_group_text(s, true);
        },
    }
}

proof fn lemma_dotted_is_no_group(a: nat, b: nat, c: nat, d: nat)
    ensures
        !is_group(dotted(a, b, c, d)),
        !dotted(a, b, c, d).contains(':'),
{
    let pieces = seq![decimal(a), decimal(b), decimal(c), decimal(d)];
    let three = pieces.drop_last();
    let two = three.drop_last();
    let one = two.drop_last();
    let s = dotted(a, b, c, d);
    assert(one.len() == 1 && two.len() == 2 && three.len() == 3);
    assert(glued(one, '.') == decimal(a));
    assert(glued(two, '.') == decimal(a).push('.') + decimal(b));
    assert(glued(three, '.') == (decimal(a).push('.') + decimal(b)).push('.') + decimal(c));
    assert(s == glued(three, '.').push('.') + decimal(d));
    law_numerals_read_back(a);
    law_numerals_read_back(b);
    law_numerals_read_back(c);
    law_numerals_read_back(d);
    let k = glued(three, '.').len() as int;
    assert(s[k] == '.');
    if is_group(s) {
        assert(s[k] != '.');
    }
    assert forall|i: int| 0 <= i < s.len() implies #[trigger] s[i] != ':' by {
        let x = decimal(a).len() as int;
        let y = x + 1 + decimal(b).len();
        let z = y + 1 + decimal(c).len();
        if i < x {
            assert(s[i] == decimal(a)[i]);
        } else if i == x {
        } else if i < y {
            assert(s[i] == decimal(b)[i - x - 1]);
        } else if i == y {
        } else if i < z {
            assert(s[i] == decimal(c)[i - y - 1]);
        } else if i == z {
        } else {
            assert(s[i] == decimal(d)[i - z - 1]);
        }
    }
}

proof fn lemma_groups_then_ipv4(texts: Seq<Seq<char>>, a: nat, b: nat, c: nat, d: nat, i: int)
    requires
        are_groups(texts),
        a <= 255 && b <= 255 && c <= 255 && d <= 255,
        0 <= i <= texts.len(),
    ensures
        groups_from(texts.push(dotted(a, b, c, d)), i, true) == Some(
            group_values(texts).skip(i) + seq![(a * 256 + b) as u64, (c * 256 + d) as u64],
        ),
    decreases texts.len() - i,
{
    let all = texts.push(dotted(a, b, c, d));
    let quad = seq![(a * 256 + b) as u64, (c * 256 + d) as u64];
    if i < texts.len() {
        lemma_groups_then_ipv4(texts, a, b, c, d, i + 1);
        assert(all[i] == texts[i]);
        assert(is_group(texts[i]));
        lemma_group(texts[i]);
        assert(seq![hex_value(texts[i]) as u64] + (group_values(texts).skip(i + 1) + quad)
            =~= group_values(texts).skip(i) + quad);
    } else {
        let n: nat = a * 0x100_0000 + b * 0x1_0000 + c * 0x100 + d;
        let v = n as u32;
        assert(n <= u32::MAX);
        law_ipv4_addresses_are_dotted(dotted(a, b, c, d), v);
        assert(ipv4_value(all[i]) == Some(v));
        assert(v / 65536 == a * 256 + b && v % 65536 == c * 256 + d);
        assert(groups_from(all, i, true) == Some(
            seq![(v / 65536) as u64, (v % 65536) as u64],
        ));
        assert(group_values(texts).skip(i) + quad =~= quad);
    }
}

/// An IPv4 address behind groups stands for two more groups, its two halves.
pub proof fn law_ipv6_addresses_may_end_in_ipv4(
    texts: Seq<Seq<char>>,
    a: nat,
    b: nat,
    c: nat,
    d: nat,
)
    requires
        are_groups(texts),
        a <= 255 && b <= 255 && c <= 255 && d <= 255,
    ensures
        groups_of(glued(texts.push(dotted(a, b, c, d)), ':'), true) == Some(
            group_values(texts) + seq![(a * 256 + b) as u64, (c * 256 + d) as u64],
        ),
{
    let all = texts.push(dotted(a, b, c, d));
    lemma_dotted_is_no_group(a, b, c, d);
    assert forall|i: int| 0 <= i < all.len() implies !(#[trigger] all[i]).contains(':') by {
        if i < texts.len() {
            assert(all[i] == texts[i]);
            assert(is_group(texts[i]));
            lemma_group(texts[i]);
        }
    }
    law_glued_pieces_come_apart(all, ':');
    lemma_groups_then_ipv4(texts, a, b, c, d, 0);
    assert(group_values(texts).skip(0) =~= group_values(texts));
    law_numerals_read_back(d);
    if glued(all, ':').len() == 0 {
        assert(split_on(glued(all, ':'), ':').len() == 1);
        assert(all.len() == 1);
        assert(glued(all, ':') == all[0]);
        lemma_dotted_not_empty(a, b, c, d);
    }
}

proof fn lemma_dotted_not_empty(a: nat, b: nat, c: nat, d: nat)
    ensures
        dotted(a, b, c, d).len() > 0,
{
    let pieces = seq![decimal(a), decimal(b), decimal(c), decimal(d)];
    law_numerals_read_back(d);
    assert(dotted(a, b, c, d) == glued(pieces.drop_last(), '.').push('.') + pieces.last());
}

} // verus!

//! Textual IP addresses.

pub mod laws;

use vstd::prelude::*;
use vstd::string::*;
use crate::numeral::{digits_value, parse_unsigned};
use crate::text::{
    all_have_class, all_in, chars_of, lemma_split_nonempty, split, split_on, texts, CharClass,
};

verus! {

/// An IP address.
#[derive(Clone, Copy, Debug, PartialEq, Eq, Structural)]
pub enum IpAddr {
    /// An IPv4 address, most significant octet first.
    V4(u32),
    /// An IPv6 address, by its first and its last four groups.
    V6 {
        /// The first four groups.
        high: u64,
        /// The last four groups.
        low: u64,
    },
}

// ---------------------------------------------------------------
// IPv4
// ---------------------------------------------------------------

/// Reads an octet: one to three decimal digits without a leading zero, at
/// most 255.
pub open spec fn octet_value(s: Seq<char>) -> Option<nat> {
    if 1 <= s.len() <= 3 && all_in(CharClass::Digit, s) && !(s.len() > 1 && s[0] == '0')
        && digits_value(s) <= 255 {
        Some(digits_value(s))
    } else {
        None
    }
}

/// Reads an IPv4 address: four octets separated by dots.
pub open spec fn ipv4_value(s: Seq<char>) -> Option<u32> {
    let parts = split_on(s, '.');
    if parts.len() == 4 {
        match (
            octet_value(parts[0]),
            octet_value(parts[1]),
            octet_value(parts[2]),
            octet_value(parts[3]),
        ) {
            (Some(a), Some(b), Some(c), Some(d)) => Some(
                (((a * 256 + b) * 256 + c) * 256 + d) as u32,
            ),
            _ => None,
        }
    } else {
        None
    }
}

fn parse_octet(s: &str) -> (r: Option<u32>)
    ensures
        match octet_value(s@) {
            Some(v) => r matches Some(n) && n == v && n <= 255,
            None => r is None,
        },
{
    let n = s.unicode_len();
    if n == 0 || n > 3 || !all_have_class(CharClass::Digit, s) {
        return None;
    }
    assert(s@[0] != '+');
    if n > 1 && s.get_char(0) == '0' {
        return None;
    }
    match parse_unsigned(s, 255) {
        Some(v) => Some(v as u32),
        None => None,
    }
}

/// Parses an IPv4 address.
pub fn parse_ipv4(s: &str) -> (r: Option<u32>)
    ensures
        r == ipv4_value(s@),
{
    let parts = split(s, '.');
    assert(parts@.len() == split_on(s@, '.').len());
    if parts.len() != 4 {
        return None;
    }
    assert(forall|i: int| 0 <= i < 4 ==> #[trigger] texts(parts@)[i] == parts@[i]@);
    let ghost pieces = texts(parts@);
    assert(pieces[0] == parts@[0]@ && pieces[1] == parts@[1]@ && pieces[2] == parts@[2]@ && pieces[3]
        == parts@[3]@);
    match (
        parse_octet(&parts[0]),
        parse_octet(&parts[1]),
        parse_octet(&parts[2]),
        parse_octet(&parts[3]),
    ) {
        (Some(a), Some(b), Some(c), Some(d)) => Some(((a * 256 + b) * 256 + c) * 256 + d),
        _ => None,
    }
}

// ---------------------------------------------------------------
// IPv6
// ---------------------------------------------------------------

/// The value of a hexadecimal digit.
pub open spec fn hex_digit_value(c: char) -> nat {
    if '0' <= c <= '9' {
        (c as u32 - '0' as u32) as nat
    } else if 'a' <= c <= 'f' {
        (c as u32 - 'a' as u32 + 10) as nat
    } else if 'A' <= c <= 'F' {
        (c as u32 - 'A' as u32 + 10) as nat
    } else {
        0
    }
}

/// The value of a hexadecimal numeral.
pub open spec fn hex_value(s: Seq<char>) -> nat
    decreases s.len(),
{
    if s.len() == 0 {
        0
    } else {
        hex_value(s.drop_last()) * 16 + hex_digit_value(s.last())
    }
}

/// Reads a group: one to four hexadecimal digits.
pub open spec fn group_value(s: Seq<char>) -> Option<u64> {
    if 1 <= s.len() <= 4 && all_in(CharClass::Hex, s) {
        Some(hex_value(s) as u64)
    } else {
        None
    }
}

/// Reads the groups `parts[i..]`. The last part may be an IPv4 address, which
/// stands for two groups, where `with_ipv4` allows it.
pub open spec fn groups_from(parts: Seq<Seq<char>>, i: int, with_ipv4: bool) -> Option<Seq<u64>>
    decreases parts.len() - i,
{
    if i >= parts.len() {
        Some(Seq::empty())
    } else if with_ipv4 && i == parts.len() - 1 && ipv4_value(parts[i]) is Some {
        let v = ipv4_value(parts[i])->0;
        Some(seq![(v / 65536) as u64, (v % 65536) as u64])
    } else {
        match (group_value(parts[i]), groups_from(parts, i + 1, with_ipv4)) {
            (Some(g), Some(rest)) => Some(seq![g] + rest),
            _ => None,
        }
    }
}

/// Reads a colon-separated list of groups; the empty text holds none.
pub open spec fn groups_of(s: Seq<char>, with_ipv4: bool) -> Option<Seq<u64>> {
    if s.len() == 0 {
        Some(Seq::empty())
    } else {
        groups_from(split_on(s, ':'), 0, with_ipv4)
    }
}

/// The first position from `i` on where two colons stand side by side.
pub open spec fn gap_from(s: Seq<char>, i: int) -> Option<int>
    decreases s.len() - i,
{
    if i + 1 >= s.len() {
        None
    } else if s[i] == ':' && s[i + 1] == ':' {
        Some(i)
    } else {
        gap_from(s, i + 1)
    }
}

/// Four groups as one number.
pub open spec fn four_groups(groups: Seq<u64>, from: int) -> u64 {
    (((groups[from] * 65536 + groups[from + 1]) * 65536 + groups[from + 2]) * 65536 + groups[from
        + 3]) as u64
}

/// The address made of eight groups.
pub open spec fn ipv6_of(groups: Seq<u64>) -> IpAddr {
    IpAddr::V6 { high: four_groups(groups, 0), low: four_groups(groups, 4) }
}

/// Reads an IPv6 address: eight groups, or fewer around one pair of colons
/// that stands for at least one group of zeros.
pub open spec fn ipv6_value(s: Seq<char>) -> Option<IpAddr> {
    match gap_from(s, 0) {
        Some(gap) => match (groups_of(s.take(gap), false), groups_of(s.skip(gap + 2), true)) {
            (Some(left), Some(right)) => if left.len() + right.len() <= 7 {
                Some(
                    ipv6_of(
                        left + Seq::new((8 - left.len() - right.len()) as nat, |i: int| 0u64)
                            + right,
                    ),
                )
            } else {
                None
            },
            _ => None,
        },
        None => match groups_of(s, true) {
            Some(groups) => if groups.len() == 8 {
                Some(ipv6_of(groups))
            } else {
                None
            },
            None => None,
        },
    }
}

/// Reads an IP address of either family.
pub open spec fn ip_value(s: Seq<char>) -> Option<IpAddr> {
    match ipv4_value(s) {
        Some(v) => Some(IpAddr::V4(v)),
        None => ipv6_value(s),
    }
}

proof fn lemma_hex_value_bound(s: Seq<char>)
    requires
        s.len() <= 4,
    ensures
        s.len() == 0 ==> hex_value(s) == 0,
        s.len() == 1 ==> hex_value(s) <= 0xf,
        s.len() == 2 ==> hex_value(s) <= 0xff,
        s.len() == 3 ==> hex_value(s) <= 0xfff,
        s.len() == 4 ==> hex_value(s) <= 0xffff,
    decreases s.len(),
{
    if s.len() > 0 {
        lemma_hex_value_bound(s.drop_last());
    }
}

fn parse_hex_digit(c: char) -> (r: u64)
    ensures
        r == hex_digit_value(c),
        r <= 15,
{
    if '0' <= c && c <= '9' {
        (c as u32 - '0' as u32) as u64
    } else if 'a' <= c && c <= 'f' {
        (c as u32 - 'a' as u32 + 10) as u64
    } else if 'A' <= c && c <= 'F' {
        (c as u32 - 'A' as u32 + 10) as u64
    } else {
        0
    }
}

fn parse_group(s: &str) -> (r: Option<u64>)
    ensures
        r == group_value(s@),
        r matches Some(g) ==> g <= 65535,
{
    let chars = chars_of(s);
    if chars.len() == 0 || chars.len() > 4 || !all_have_class(CharClass::Hex, s) {
        return None;
    }
    let mut value: u64 = 0;
    let mut i: usize = 0;
    assert(s@.take(0) =~= Seq::empty());
    while i < chars.len()
        invariant
            chars@ == s@,
            chars@.len() <= 4,
            i <= chars@.len(),
            value == hex_value(s@.take(i as int)),
        decreases chars.len() - i,
    {
        proof {
            lemma_hex_value_bound(s@.take(i as int));
            assert(s@.take(i + 1).drop_last() =~= s@.take(i as int));
            assert(s@.take(i + 1).last() == chars@[i as int]);
        }
        value = value * 16 + parse_hex_digit(chars[i]);
        i += 1;
    }
    proof {
        assert(s@.take(i as int) =~= s@);
        lemma_hex_value_bound(s@);
    }
    Some(value)
}

fn parse_groups(s: &str, with_ipv4: bool) -> (r: Option<Vec<u64>>)
    ensures
        match groups_of(s@, with_ipv4) {
            Some(groups) => r matches Some(v) && v@ == groups && forall|i: int|
                0 <= i < groups.len() ==> #[trigger] groups[i] <= 65535,
            None => r is None,
        },
{
    let mut groups: Vec<u64> = Vec::new();
    if s.unicode_len() == 0 {
        return Some(groups);
    }
    let parts = split(s, ':');
    let ghost pieces = split_on(s@, ':');
    let n = parts.len();
    let mut i: usize = 0;
    proof {
        lemma_split_nonempty(s@, ':');
        if groups_from(pieces, 0, with_ipv4) is Some {
            assert(groups@ + groups_from(pieces, 0, with_ipv4)->0 =~= groups_from(
                pieces,
                0,
                with_ipv4,
            )->0);
        }
    }
    while i < n
        invariant
            pieces == split_on(s@, ':'),
            texts(parts@) == pieces,
            n == parts@.len(),
            n == pieces.len(),
            i <= n,
            s@.len() > 0,
            forall|j: int| 0 <= j < groups@.len() ==> #[trigger] groups@[j] <= 65535,
            match groups_from(pieces, i as int, with_ipv4) {
                Some(rest) => groups_of(s@, with_ipv4) == Some(groups@ + rest),
                None => groups_of(s@, with_ipv4) is None,
            },
        decreases n - i,
    {
        assert(pieces[i as int] == parts@[i as int]@);
        let ghost before = groups@;
        if with_ipv4 && i == n - 1 {
            if let Some(v) = parse_ipv4(&parts[i]) {
                groups.push((v / 65536) as u64);
                groups.push((v % 65536) as u64);
                assert(groups@ =~= before + groups_from(pieces, i as int, with_ipv4)->0);
                return Some(groups);
            }
        }
        match parse_group(&parts[i]) {
            Some(g) => {
                groups.push(g);
                proof {
                    if groups_from(pieces, i + 1, with_ipv4) is Some {
                        let rest = groups_from(pieces, i + 1, with_ipv4)->0;
                        assert(before + (seq![g] + rest) =~= groups@ + rest);
                    }
                }
            },
            None => {
                return None;
            },
        }
        i += 1;
    }
    assert(groups@ + Seq::<u64>::empty() =~= groups@);
    Some(groups)
}

fn find_gap(s: &[char]) -> (r: Option<usize>)
    ensures
        match gap_from(s@, 0) {
            Some(gap) => r matches Some(at) && at == gap && at + 1 < s@.len(),
            None => r is None,
        },
{
    let n = s.len();
    let mut i: usize = 0;
    while n > 0 && i < n - 1
        invariant
            n == s@.len(),
            i <= n,
            gap_from(s@, 0) == gap_from(s@, i as int),
        decreases n - i,
    {
        if s[i] == ':' && s[i + 1] == ':' {
            return Some(i);
        }
        i += 1;
    }
    None
}

fn pack_groups(groups: &Vec<u64>, from: usize) -> (r: u64)
    requires
        from + 4 <= groups@.len(),
        forall|i: int| 0 <= i < groups@.len() ==> #[trigger] groups@[i] <= 65535,
    ensures
        r == four_groups(groups@, from as int),
{
    assert(from + 4 <= groups.len());
    let (a, b, c, d) = (groups[from], groups[from + 1], groups[from + 2], groups[from + 3]);
    ((a * 65536 + b) * 65536 + c) * 65536 + d
}

#[verifier::rlimit(40)]
fn parse_ipv6(s: &str) -> (r: Option<IpAddr>)
    ensures
        r == ipv6_value(s@),
{
    let chars = chars_of(s);
    match find_gap(chars.as_slice()) {
        Some(gap) => {
            let end = chars.len();
            let left_text = s.substring_char(0, gap);
            let right_text = s.substring_char(gap + 2, end);
            assert(s@.subrange(0, gap as int) =~= s@.take(gap as int));
            assert(s@.subrange(gap + 2, end as int) =~= s@.skip(gap + 2));
            let left = match parse_groups(left_text, false) {
                Some(left) => left,
                None => {
                    return None;
                },
            };
            let right = match parse_groups(right_text, true) {
                Some(right) => right,
                None => {
                    return None;
                },
            };
            let l = left.len();
            let t = right.len();
            if l > 7 || t > 7 - l {
                return None;
            }
            let ghost head = left@;
            let mut all = left;
            let mut i: usize = 0;
            while i < 8 - l - t
                invariant
                    l + t <= 7,
                    i <= 8 - l - t,
                    l == head.len(),
                    all@ == head + Seq::new(i as nat, |k: int| 0u64),
                    forall|k: int| 0 <= k < all@.len() ==> #[trigger] all@[k] <= 65535,
                decreases 8 - l - t - i,
            {
                all.push(0);
                i += 1;
                assert(all@ =~= head + Seq::new(i as nat, |k: int| 0u64));
            }
            let ghost padded = all@;
            let mut j: usize = 0;
            while j < t
                invariant
                    t == right@.len(),
                    j <= t,
                    all@ == padded + right@.take(j as int),
                    forall|k: int| 0 <= k < right@.len() ==> #[trigger] right@[k] <= 65535,
                    forall|k: int| 0 <= k < all@.len() ==> #[trigger] all@[k] <= 65535,
                decreases t - j,
            {
                all.push(right[j]);
                j += 1;
                assert(all@ =~= padded + right@.take(j as int));
            }
            assert(right@.take(t as int) =~= right@);
            Some(IpAddr::V6 { high: pack_groups(&all, 0), low: pack_groups(&all, 4) })
        },
        None => match parse_groups(s, true) {
            Some(groups) => {
                if groups.len() != 8 {
                    return None;
                }
                Some(IpAddr::V6 { high: pack_groups(&groups, 0), low: pack_groups(&groups, 4) })
            },
            None => None,
        },
    }
}

/// Parses an IP address of either family.
pub fn parse_ip(s: &str) -> (r: Option<IpAddr>)
    ensures
        r == ip_value(s@),
{
    match parse_ipv4(s) {
        Some(v) => Some(IpAddr::V4(v)),
        None => parse_ipv6(s),
    }
}

impl IpAddr {
    /// The address that stands for every interface: all bits zero.
    pub open spec fn unspecified(self) -> bool {
        self == IpAddr::V4(0) || self == (IpAddr::V6 { high: 0, low: 0 })
    }

    /// Decides whether every bit of the address is zero.
    pub fn is_unspecified(&self) -> (r: bool)
        ensures
            r == self.unspecified(),
    {
        match self {
            IpAddr::V4(v) => *v == 0,
            IpAddr::V6 { high, low } => *high == 0 && *low == 0,
        }
    }
}

/// The value of a group counts in sixteens: the last digit counts itself, and all
/// before it sixteen times as much. Letters count from ten on, in either case.
pub proof fn law_groups_count_in_sixteens(s: Seq<char>, d: nat)
    requires
        d < 16,
    ensures
        hex_value(Seq::<char>::empty()) == 0,
        d < 10 ==> hex_value(s.push((48 + d) as char)) == 16 * hex_value(s) + d,
        d >= 10 ==> hex_value(s.push((87 + d) as char)) == 16 * hex_value(s) + d,
        d >= 10 ==> hex_value(s.push((55 + d) as char)) == 16 * hex_value(s) + d,
{
    let digit = s.push((48 + d) as char);
    let lower = s.push((87 + d) as char);
    let upper = s.push((55 + d) as char);
    assert(digit.drop_last() =~= s && lower.drop_last() =~= s && upper.drop_last() =~= s);
    if d < 10 {
        assert(digit.last() as u32 == 48 + d);
    } else {
        assert(lower.last() as u32 == 87 + d);
        assert(upper.last() as u32 == 55 + d);
    }
}

} // verus!

//! IP addresses as plain values: the address and CIDR records, their
//! textual parsers, and their renderings for display.
//!
//! The accepted grammar is the dotted-quad form for IPv4 (four decimal
//! octets, no leading zeros) and the colon-separated form for IPv6
//! (hexadecimal groups of one to four digits, with one double colon
//! allowed to stand for the missing all-zero groups).

use vstd::prelude::*;
use crate::text::{dec_str, hex_str, spec_is_digit, u16_to_hex_string, u64_to_string};

verus! {

/// An IP address, IPv4 as four octets or IPv6 as eight groups.
#[derive(Clone, Copy, Debug, PartialEq, Eq, Structural)]
pub enum IpAddress {
    V4(u8, u8, u8, u8),
    V6(u16, u16, u16, u16, u16, u16, u16, u16),
}

impl IpAddress {
    /// The address belongs to the IPv4 family.
    pub open spec fn spec_is_ipv4(&self) -> bool {
        self is V4
    }

    /// Whether the address belongs to the IPv4 family.
    pub fn is_ipv4(&self) -> (r: bool)
        ensures
            r == self.spec_is_ipv4(),
    {
        match self {
            IpAddress::V4(..) => true,
            IpAddress::V6(..) => false,
        }
    }

    /// Both addresses belong to the same family.
    pub open spec fn same_family(&self, other: &IpAddress) -> bool {
        self.spec_is_ipv4() == other.spec_is_ipv4()
    }
}

/// An IP address together with a network prefix length.
#[derive(Clone, Copy, Debug, PartialEq, Eq, Structural)]
pub struct CidrAddress {
    pub addr: IpAddress,
    pub prefix_len: u8,
}

impl CidrAddress {
    /// The prefix length fits the address family.
    pub open spec fn wf(&self) -> bool {
        if self.addr.spec_is_ipv4() {
            self.prefix_len <= 32
        } else {
            self.prefix_len <= 128
        }
    }
}

/// The numeric value of one decimal digit character.
pub open spec fn digit_val(c: char) -> nat
    recommends
        spec_is_digit(c),
{
    ((c as u32) - ('0' as u32)) as nat
}

/// The end of the run of decimal digits that starts at `i`: the first
/// position at or after `i` holding no digit.
pub open spec fn digit_run_end(s: Seq<char>, i: int) -> int
    decreases s.len() - i,
        when 0 <= i <= s.len()
{
    if i < s.len() && spec_is_digit(s[i]) {
        digit_run_end(s, i + 1)
    } else {
        i
    }
}

/// What a digit run is: it sits between `i` and the end of `s`, every
/// character in it is a digit, and the character after it (if any) is
/// not.
pub proof fn lemma_digit_run(s: Seq<char>, i: int)
    requires
        0 <= i <= s.len(),
    ensures
        i <= digit_run_end(s, i) <= s.len(),
        forall|j: int| i <= j < digit_run_end(s, i) ==> spec_is_digit(#[trigger] s[j]),
        digit_run_end(s, i) < s.len() ==> !spec_is_digit(s[digit_run_end(s, i)]),
    decreases s.len() - i,
{
    if i < s.len() && spec_is_digit(s[i]) {
        lemma_digit_run(s, i + 1);
    }
}

/// The value of the decimal digits of `s` between `i` and `j`.
pub open spec fn dec_value(s: Seq<char>, i: int, j: int) -> nat
    decreases j - i,
        when i <= j
{
    if j <= i {
        0
    } else {
        dec_value(s, i, j - 1) * 10 + digit_val(s[j - 1])
    }
}

/// `c` is a hexadecimal digit.
pub open spec fn spec_is_hex_digit(c: char) -> bool {
    ||| spec_is_digit(c)
    ||| ('a' as u32) <= (c as u32) && (c as u32) <= ('f' as u32)
    ||| ('A' as u32) <= (c as u32) && (c as u32) <= ('F' as u32)
}

/// The numeric value of one hexadecimal digit character.
pub open spec fn hex_val(c: char) -> nat
    recommends
        spec_is_hex_digit(c),
{
    if spec_is_digit(c) {
        digit_val(c)
    } else if ('a' as u32) <= (c as u32) && (c as u32) <= ('f' as u32) {
        ((c as u32) - ('a' as u32) + 10) as nat
    } else {
        ((c as u32) - ('A' as u32) + 10) as nat
    }
}

/// The end of the run of hexadecimal digits that starts at `i`.
pub open spec fn hex_run_end(s: Seq<char>, i: int) -> int
    decreases s.len() - i,
        when 0 <= i <= s.len()
{
    if i < s.len() && spec_is_hex_digit(s[i]) {
        hex_run_end(s, i + 1)
    } else {
        i
    }
}

/// The hexadecimal analogue of `lemma_digit_run`.
pub proof fn lemma_hex_run(s: Seq<char>, i: int)
    requires
        0 <= i <= s.len(),
    ensures
        i <= hex_run_end(s, i) <= s.len(),
        forall|j: int| i <= j < hex_run_end(s, i) ==> spec_is_hex_digit(#[trigger] s[j]),
        hex_run_end(s, i) < s.len() ==> !spec_is_hex_digit(s[hex_run_end(s, i)]),
    decreases s.len() - i,
{
    if i < s.len() && spec_is_hex_digit(s[i]) {
        lemma_hex_run(s, i + 1);
    }
}

/// The value of the hexadecimal digits of `s` between `i` and `j`.
pub open spec fn hex_value(s: Seq<char>, i: int, j: int) -> nat
    decreases j - i,
        when i <= j
{
    if j <= i {
        0
    } else {
        hex_value(s, i, j - 1) * 16 + hex_val(s[j - 1])
    }
}

/// A well-formed IPv4 octet starts at `i`: one to three decimal
/// digits, no leading zero, value at most 255.
pub open spec fn spec_octet_ok(s: Seq<char>, i: int) -> bool
    recommends
        0 <= i <= s.len(),
{
    let e = digit_run_end(s, i);
    &&& 1 <= e - i <= 3
    &&& (e - i > 1 ==> s[i] != '0')
    &&& dec_value(s, i, e) <= 255
}

/// What the IPv4 parser accepts and yields: four well-formed octets
/// separated by dots, filling the whole string.
pub open spec fn spec_parse_ipv4(s: Seq<char>) -> Option<IpAddress> {
    let e0 = digit_run_end(s, 0);
    if spec_octet_ok(s, 0) && e0 < s.len() && s[e0] == '.' {
        let e1 = digit_run_end(s, e0 + 1);
        if spec_octet_ok(s, e0 + 1) && e1 < s.len() && s[e1] == '.' {
            let e2 = digit_run_end(s, e1 + 1);
            if spec_octet_ok(s, e1 + 1) && e2 < s.len() && s[e2] == '.' {
                let e3 = digit_run_end(s, e2 + 1);
                if spec_octet_ok(s, e2 + 1) && e3 == s.len() {
                    Some(
                        IpAddress::V4(
                            dec_value(s, 0, e0) as u8,
                            dec_value(s, e0 + 1, e1) as u8,
                            dec_value(s, e1 + 1, e2) as u8,
                            dec_value(s, e2 + 1, e3) as u8,
                        ),
                    )
                } else {
                    None
                }
            } else {
                None
            }
        } else {
            None
        }
    } else {
        None
    }
}

/// The first position at or after `start` holding no decimal digit.
fn scan_digits(s: &str, start: usize, n: usize) -> (e: usize)
    requires
        start <= n,
        n == s@.len(),
    ensures
        e == digit_run_end(s@, start as int),
        start <= e <= n,
{
    let mut i: usize = start;
    loop
        invariant
            start <= i <= n,
            n == s@.len(),
            digit_run_end(s@, start as int) == digit_run_end(s@, i as int),
        decreases n - i,
    {
        if i == n {
            return i;
        }
        let c = s.get_char(i);
        if (c as u32) < ('0' as u32) || (c as u32) > ('9' as u32) {
            return i;
        }
        i += 1;
    }
}

/// The value of the decimal digits between `start` and `end`, at most
/// three of them.
fn dec_run_value(s: &str, start: usize, end: usize) -> (v: u32)
    requires
        start <= end <= s@.len(),
        end - start <= 3,
        forall|j: int| start <= j < end ==> spec_is_digit(#[trigger] s@[j]),
    ensures
        v as nat == dec_value(s@, start as int, end as int),
        v <= 999,
{
    let mut acc: u32 = 0;
    let mut k: usize = start;
    while k < end
        invariant
            start <= k <= end <= s@.len(),
            end - start <= 3,
            forall|j: int| start <= j < end ==> spec_is_digit(#[trigger] s@[j]),
            acc as nat == dec_value(s@, start as int, k as int),
            acc <= 999,
            k - start < 3 ==> acc <= 99,
            k - start < 2 ==> acc <= 9,
            k - start < 1 ==> acc == 0,
        decreases end - k,
    {
        let c = s.get_char(k);
        acc = acc * 10 + ((c as u32) - ('0' as u32));
        k += 1;
    }
    acc
}

/// Parses one IPv4 octet starting at `start`: returns the end of its
/// digit run and, where the octet is well formed, its value.
fn parse_octet_at(s: &str, start: usize, n: usize) -> (r: (usize, Option<u8>))
    requires
        start <= n,
        n == s@.len(),
    ensures
        r.0 == digit_run_end(s@, start as int),
        r.1 is Some <==> spec_octet_ok(s@, start as int),
        r.1 matches Some(v) ==> v as nat == dec_value(s@, start as int, r.0 as int),
{
    let e = scan_digits(s, start, n);
    proof {
        lemma_digit_run(s@, start as int);
    }
    if e - start < 1 || e - start > 3 {
        return (e, None);
    }
    if e - start > 1 && s.get_char(start) == '0' {
        return (e, None);
    }
    let v = dec_run_value(s, start, e);
    if v > 255 {
        return (e, None);
    }
    (e, Some(v as u8))
}

/// Parses the dotted-quad form of an IPv4 address.
pub fn parse_ipv4(s: &str) -> (r: Option<IpAddress>)
    ensures
        r == spec_parse_ipv4(s@),
{
    let n: usize = s.unicode_len();
    let (e0, o0) = parse_octet_at(s, 0, n);
    let a = match o0 {
        Some(a) => a,
        None => { return None; },
    };
    if e0 >= n || s.get_char(e0) != '.' {
        return None;
    }
    let (e1, o1) = parse_octet_at(s, e0 + 1, n);
    let b = match o1 {
        Some(b) => b,
        None => { return None; },
    };
    if e1 >= n || s.get_char(e1) != '.' {
        return None;
    }
    let (e2, o2) = parse_octet_at(s, e1 + 1, n);
    let c = match o2 {
        Some(c) => c,
        None => { return None; },
    };
    if e2 >= n || s.get_char(e2) != '.' {
        return None;
    }
    let (e3, o3) = parse_octet_at(s, e2 + 1, n);
    let d = match o3 {
        Some(d) => d,
        None => { return None; },
    };
    if e3 != n {
        return None;
    }
    Some(IpAddress::V4(a, b, c, d))
}

/// A well-formed IPv6 group starts at `i`: one to four hexadecimal
/// digits.  Leading zeros are allowed.
pub open spec fn spec_group_ok(s: Seq<char>, i: int) -> bool
    recommends
        0 <= i <= s.len(),
{
    let e = hex_run_end(s, i);
    1 <= e - i <= 4
}

/// What at most `k` colon-separated groups running from position `i`
/// to the end of the string parse to, group values in order; `None`
/// where a group is malformed or more than `k` groups follow.
pub open spec fn spec_groups_upto(s: Seq<char>, i: int, k: nat) -> Option<Seq<nat>>
    recommends
        0 <= i <= s.len(),
        k >= 1,
    decreases k,
{
    let e = hex_run_end(s, i);
    if !spec_group_ok(s, i) {
        None
    } else if e == s.len() {
        Some(seq![hex_value(s, i, e)])
    } else if k <= 1 {
        None
    } else if s[e] == ':' {
        match spec_groups_upto(s, e + 1, (k - 1) as nat) {
            Some(rest) => Some(seq![hex_value(s, i, e)] + rest),
            None => None,
        }
    } else {
        None
    }
}

/// The address built from eight group values.
pub open spec fn v6_of(g: Seq<nat>) -> IpAddress
    recommends
        g.len() == 8,
{
    IpAddress::V6(
        g[0] as u16,
        g[1] as u16,
        g[2] as u16,
        g[3] as u16,
        g[4] as u16,
        g[5] as u16,
        g[6] as u16,
        g[7] as u16,
    )
}

/// The first position at or after `i` where a double colon starts,
/// or the length of `s` when there is none.
pub open spec fn dc_pos_from(s: Seq<char>, i: int) -> int
    decreases s.len() - i,
        when 0 <= i <= s.len()
{
    if i < s.len() {
        if s[i] == ':' && i + 1 < s.len() && s[i + 1] == ':' {
            i
        } else {
            dc_pos_from(s, i + 1)
        }
    } else {
        i
    }
}

/// What `dc_pos_from` finds: a double colon, or the end.
pub proof fn lemma_dc_pos(s: Seq<char>, i: int)
    requires
        0 <= i <= s.len(),
    ensures
        i <= dc_pos_from(s, i) <= s.len(),
        dc_pos_from(s, i) < s.len() ==> dc_pos_from(s, i) + 1 < s.len() && s[dc_pos_from(s, i)]
            == ':' && s[dc_pos_from(s, i) + 1] == ':',
    decreases s.len() - i,
{
    if i < s.len() && !(s[i] == ':' && i + 1 < s.len() && s[i + 1] == ':') {
        lemma_dc_pos(s, i + 1);
    }
}

/// What the IPv6 parser accepts and yields: either eight hexadecimal
/// groups separated by colons, or a double colon standing for the
/// missing all-zero groups, with at most seven explicit groups around
/// it.
pub open spec fn spec_parse_ipv6(s: Seq<char>) -> Option<IpAddress> {
    let p = dc_pos_from(s, 0);
    if p == s.len() {
        match spec_groups_upto(s, 0, 8) {
            Some(g) => if g.len() == 8 {
                Some(v6_of(g))
            } else {
                None
            },
            None => None,
        }
    } else {
        let left = s.take(p);
        let right = s.skip(p + 2);
        let lg = if left.len() == 0 {
            Some(Seq::<nat>::empty())
        } else {
            spec_groups_upto(left, 0, 7)
        };
        let rg = if right.len() == 0 {
            Some(Seq::<nat>::empty())
        } else {
            spec_groups_upto(right, 0, 7)
        };
        match (lg, rg) {
            (Some(l), Some(r)) => if l.len() + r.len() <= 7 {
                Some(v6_of(l + Seq::<nat>::new((8 - l.len() - r.len()) as nat, |q: int| 0) + r))
            } else {
                None
            },
            _ => None,
        }
    }
}

/// The first position at or after `start` holding no hexadecimal
/// digit.
fn scan_hex_digits(s: &str, start: usize, n: usize) -> (e: usize)
    requires
        start <= n,
        n == s@.len(),
    ensures
        e == hex_run_end(s@, start as int),
        start <= e <= n,
{
    let mut i: usize = start;
    loop
        invariant
            start <= i <= n,
            n == s@.len(),
            hex_run_end(s@, start as int) == hex_run_end(s@, i as int),
        decreases n - i,
    {
        if i == n {
            return i;
        }
        let c = s.get_char(i) as u32;
        let is_hex = (('0' as u32) <= c && c <= ('9' as u32)) || (('a' as u32) <= c && c <= (
        'f' as u32)) || (('A' as u32) <= c && c <= ('F' as u32));
        if !is_hex {
            return i;
        }
        i += 1;
    }
}

/// The value of one hexadecimal digit character.
fn hex_digit_value(c: char) -> (v: u32)
    requires
        spec_is_hex_digit(c),
    ensures
        v as nat == hex_val(c),
        v <= 15,
{
    let c = c as u32;
    if ('0' as u32) <= c && c <= ('9' as u32) {
        c - ('0' as u32)
    } else if ('a' as u32) <= c && c <= ('f' as u32) {
        c - ('a' as u32) + 10
    } else {
        c - ('A' as u32) + 10
    }
}

/// The value of the hexadecimal digits between `start` and `end`, at
/// most four of them.
fn hex_run_value(s: &str, start: usize, end: usize) -> (v: u16)
    requires
        start <= end <= s@.len(),
        end - start <= 4,
        forall|j: int| start <= j < end ==> spec_is_hex_digit(#[trigger] s@[j]),
    ensures
        v as nat == hex_value(s@, start as int, end as int),
{
    let mut acc: u32 = 0;
    let mut k: usize = start;
    while k < end
        invariant
            start <= k <= end <= s@.len(),
            end - start <= 4,
            forall|j: int| start <= j < end ==> spec_is_hex_digit(#[trigger] s@[j]),
            acc as nat == hex_value(s@, start as int, k as int),
            acc <= 0xffff,
            k - start < 4 ==> acc <= 0xfff,
            k - start < 3 ==> acc <= 0xff,
            k - start < 2 ==> acc <= 0xf,
            k - start < 1 ==> acc == 0,
        decreases end - k,
    {
        let d = hex_digit_value(s.get_char(k));
        acc = acc * 16 + d;
        k += 1;
    }
    acc as u16
}

/// Parses at most `k` colon-separated hexadecimal groups running
/// from `start` to the end of the string.
fn parse_groups_upto(s: &str, start: usize, k: u8, n: usize) -> (r: Option<Vec<u16>>)
    requires
        start <= n,
        n == s@.len(),
        1 <= k <= 8,
    ensures
        r is Some <==> spec_groups_upto(s@, start as int, k as nat) is Some,
        r matches Some(v) ==> {
            let g = spec_groups_upto(s@, start as int, k as nat)->Some_0;
            &&& v@.len() == g.len()
            &&& forall|m: int| 0 <= m < g.len() ==> (#[trigger] v@[m]) as nat == g[m]
        },
    decreases k,
{
    let e = scan_hex_digits(s, start, n);
    proof {
        lemma_hex_run(s@, start as int);
    }
    if e - start < 1 || e - start > 4 {
        return None;
    }
    let value = hex_run_value(s, start, e);
    if e == n {
        let mut v: Vec<u16> = Vec::new();
        v.push(value);
        proof {
            let g = spec_groups_upto(s@, start as int, k as nat)->Some_0;
            assert(g =~= seq![hex_value(s@, start as int, e as int)]);
            assert(v@ =~= seq![value]);
        }
        return Some(v);
    }
    if k == 1 {
        return None;
    }
    if s.get_char(e) != ':' {
        return None;
    }
    match parse_groups_upto(s, e + 1, k - 1, n) {
        Some(rest) => {
            let mut v: Vec<u16> = Vec::new();
            v.push(value);
            let mut idx: usize = 0;
            while idx < rest.len()
                invariant
                    0 <= idx <= rest@.len(),
                    v@.len() == idx + 1,
                    v@[0] == value,
                    forall|m: int| 0 <= m < idx ==> v@[m + 1] == rest@[m],
                decreases rest@.len() - idx,
            {
                let x = rest[idx];
                v.push(x);
                idx += 1;
            }
            proof {
                let hv = hex_value(s@, start as int, e as int);
                let g = spec_groups_upto(s@, start as int, k as nat)->Some_0;
                let grest = spec_groups_upto(s@, e + 1, (k - 1) as nat)->Some_0;
                assert(g =~= seq![hv] + grest);
                assert forall|m: int| 0 <= m < g.len() implies (#[trigger] v@[m]) as nat
                    == g[m] by {
                    if m == 0 {
                        assert(v@[0] == value);
                        assert(g[0] == hv);
                    } else {
                        assert(v@[(m - 1) + 1] == rest@[m - 1]);
                        assert(g[m] == grest[m - 1]);
                    }
                }
            }
            Some(v)
        },
        None => None,
    }
}

/// The first position where a double colon starts, or `n` when the
/// string holds none.
fn find_double_colon(s: &str, n: usize) -> (p: usize)
    requires
        n == s@.len(),
    ensures
        p == dc_pos_from(s@, 0),
        p <= n,
{
    let mut i: usize = 0;
    loop
        invariant
            0 <= i <= n,
            n == s@.len(),
            dc_pos_from(s@, 0) == dc_pos_from(s@, i as int),
        decreases n - i,
    {
        if i == n {
            return i;
        }
        if s.get_char(i) == ':' && i + 1 < n && s.get_char(i + 1) == ':' {
            return i;
        }
        i += 1;
    }
}

/// Parses the textual form of an IPv6 address: eight hexadecimal
/// groups separated by colons, or a double colon standing for the
/// missing all-zero groups.
pub fn parse_ipv6(s: &str) -> (r: Option<IpAddress>)
    ensures
        r == spec_parse_ipv6(s@),
{
    let n: usize = s.unicode_len();
    let p = find_double_colon(s, n);
    proof {
        lemma_dc_pos(s@, 0);
    }
    if p == n {
        match parse_groups_upto(s, 0, 8, n) {
            Some(v) => {
                if v.len() == 8 {
                    Some(IpAddress::V6(v[0], v[1], v[2], v[3], v[4], v[5], v[6], v[7]))
                } else {
                    None
                }
            },
            None => None,
        }
    } else {
        let left = s.substring_char(0, p);
        let right = s.substring_char(p + 2, n);
        proof {
            assert(left@ =~= s@.take(p as int));
            assert(right@ =~= s@.skip(p + 2));
        }
        let lv: Vec<u16> = if p == 0 {
            Vec::new()
        } else {
            match parse_groups_upto(left, 0, 7, p) {
                Some(v) => v,
                None => { return None; },
            }
        };
        let rv: Vec<u16> = if p + 2 == n {
            Vec::new()
        } else {
            match parse_groups_upto(right, 0, 7, n - (p + 2)) {
                Some(v) => v,
                None => { return None; },
            }
        };
        let ghost l = if s@.take(p as int).len() == 0 {
            Seq::<nat>::empty()
        } else {
            spec_groups_upto(s@.take(p as int), 0, 7)->Some_0
        };
        let ghost rr = if s@.skip(p + 2).len() == 0 {
            Seq::<nat>::empty()
        } else {
            spec_groups_upto(s@.skip(p + 2), 0, 7)->Some_0
        };
        if rv.len() > 7 || lv.len() > 7 - rv.len() {
            return None;
        }
        let zeros: usize = 8 - lv.len() - rv.len();
        let ghost combined = l + Seq::<nat>::new((8 - l.len() - rr.len()) as nat, |q: int| 0) + rr;
        let mut g: Vec<u16> = Vec::new();
        let mut i: usize = 0;
        while i < lv.len()
            invariant
                0 <= i <= lv@.len(),
                g@ =~= lv@.take(i as int),
            decreases lv@.len() - i,
        {
            let x = lv[i];
            g.push(x);
            proof {
                assert(g@ =~= lv@.take(i + 1));
            }
            i += 1;
        }
        let mut z: usize = 0;
        while z < zeros
            invariant
                0 <= z <= zeros,
                g@.len() == lv@.len() + z,
                g@.take(lv@.len() as int) =~= lv@,
                forall|q: int| lv@.len() <= q < g@.len() ==> (#[trigger] g@[q]) == 0,
            decreases zeros - z,
        {
            g.push(0);
            z += 1;
        }
        let mut j: usize = 0;
        while j < rv.len()
            invariant
                0 <= j <= rv@.len(),
                g@.len() == lv@.len() + zeros + j,
                g@.take(lv@.len() as int) =~= lv@,
                forall|q: int| lv@.len() <= q < lv@.len() + zeros ==> (#[trigger] g@[q]) == 0,
                forall|q: int| 0 <= q < j ==> (#[trigger] g@[lv@.len() + zeros + q]) == rv@[q],
            decreases rv@.len() - j,
        {
            let x = rv[j];
            g.push(x);
            j += 1;
        }
        proof {
            assert(combined.len() == 8);
            assert(g@.len() == 8);
            assert forall|q: int| 0 <= q < 8 implies (#[trigger] g@[q]) as nat == combined[q] by {
                if q < lv@.len() {
                    assert(g@[q] == lv@.take(lv@.len() as int)[q]);
                    assert(combined[q] == l[q]);
                } else if q < lv@.len() + zeros {
                    assert(g@[q] == 0);
                    assert(combined[q] == 0);
                } else {
                    assert(g@[lv@.len() + zeros + (q - lv@.len() - zeros)] == rv@[q - lv@.len()
                        - zeros]);
                    assert(combined[q] == rr[q - l.len() - (8 - l.len() - rr.len())]);
                }
            }
            assert(spec_parse_ipv6(s@) == Some(v6_of(combined)));
        }
        Some(IpAddress::V6(g[0], g[1], g[2], g[3], g[4], g[5], g[6], g[7]))
    }
}

/// What the address parser accepts: the IPv4 form, or else the IPv6
/// form.
pub open spec fn spec_parse_ip(s: Seq<char>) -> Option<IpAddress> {
    if spec_parse_ipv4(s) is Some {
        spec_parse_ipv4(s)
    } else {
        spec_parse_ipv6(s)
    }
}

/// Parses an IP address of either family.
pub fn parse_ip(s: &str) -> (r: Option<IpAddress>)
    ensures
        r == spec_parse_ip(s@),
{
    match parse_ipv4(s) {
        Some(ip) => Some(ip),
        None => parse_ipv6(s),
    }
}

/// The first position at or after `i` holding `c`, or the length of
/// `s` when `c` does not occur there.
pub open spec fn char_pos_from(s: Seq<char>, i: int, c: char) -> int
    decreases s.len() - i,
        when 0 <= i <= s.len()
{
    if i < s.len() {
        if s[i] == c {
            i
        } else {
            char_pos_from(s, i + 1, c)
        }
    } else {
        i
    }
}

/// The first position at or after `start` holding `c`, or `n`.
fn scan_for_char(s: &str, start: usize, n: usize, c: char) -> (p: usize)
    requires
        start <= n,
        n == s@.len(),
    ensures
        p == char_pos_from(s@, start as int, c),
        start <= p <= n,
{
    let mut i: usize = start;
    loop
        invariant
            start <= i <= n,
            n == s@.len(),
            char_pos_from(s@, start as int, c) == char_pos_from(s@, i as int, c),
        decreases n - i,
    {
        if i == n {
            return i;
        }
        if s.get_char(i) == c {
            return i;
        }
        i += 1;
    }
}

/// What the CIDR parser accepts and yields: an IP address, a slash,
/// and a prefix length in decimal (no leading zeros) that fits the
/// address family.
pub open spec fn spec_parse_cidr(s: Seq<char>) -> Option<CidrAddress> {
    let p = char_pos_from(s, 0, '/');
    if p < s.len() {
        match spec_parse_ip(s.take(p)) {
            Some(addr) => {
                let e = digit_run_end(s, p + 1);
                if e == s.len() && 1 <= e - (p + 1) <= 3 && (e - (p + 1) > 1 ==> s[p + 1] != '0') {
                    let v = dec_value(s, p + 1, e);
                    if v <= (if addr.spec_is_ipv4() { 32int } else { 128int }) {
                        Some(CidrAddress { addr, prefix_len: v as u8 })
                    } else {
                        None
                    }
                } else {
                    None
                }
            },
            None => None,
        }
    } else {
        None
    }
}

/// Parses an IP address paired with a network prefix length, such as
/// `10.0.0.5/24`.
pub fn parse_cidr(s: &str) -> (r: Option<CidrAddress>)
    ensures
        r == spec_parse_cidr(s@),
        r matches Some(c) ==> c.wf(),
{
    let n: usize = s.unicode_len();
    let p = scan_for_char(s, 0, n, '/');
    if p == n {
        return None;
    }
    let ip_str = s.substring_char(0, p);
    proof {
        assert(ip_str@ =~= s@.take(p as int));
    }
    let addr = match parse_ip(ip_str) {
        Some(addr) => addr,
        None => { return None; },
    };
    let e = scan_digits(s, p + 1, n);
    proof {
        lemma_digit_run(s@, p + 1);
    }
    if e != n || e - (p + 1) < 1 || e - (p + 1) > 3 {
        return None;
    }
    if e - (p + 1) > 1 && s.get_char(p + 1) == '0' {
        return None;
    }
    let v = dec_run_value(s, p + 1, e);
    let bound: u32 = if addr.is_ipv4() {
        32
    } else {
        128
    };
    if v > bound {
        return None;
    }
    Some(CidrAddress { addr, prefix_len: v as u8 })
}

/// The dotted-quad rendering of an IPv4 address, and the eight-group
/// lower-case hexadecimal rendering of an IPv6 address.
pub open spec fn spec_ip_str(ip: IpAddress) -> Seq<char> {
    match ip {
        IpAddress::V4(a, b, c, d) => dec_str(a as nat) + "."@ + dec_str(b as nat) + "."@ + dec_str(
            c as nat,
        ) + "."@ + dec_str(d as nat),
        IpAddress::V6(g0, g1, g2, g3, g4, g5, g6, g7) => hex_str(g0 as nat) + ":"@ + hex_str(
            g1 as nat,
        ) + ":"@ + hex_str(g2 as nat) + ":"@ + hex_str(g3 as nat) + ":"@ + hex_str(g4 as nat)
            + ":"@ + hex_str(g5 as nat) + ":"@ + hex_str(g6 as nat) + ":"@ + hex_str(g7 as nat),
    }
}

/// Renders an IP address for display.
pub fn ip_to_string(ip: &IpAddress) -> (r: String)
    ensures
        r@ == spec_ip_str(*ip),
{
    match ip {
        IpAddress::V4(a, b, c, d) => {
            let r = u64_to_string(*a as u64).concat(".").concat(
                u64_to_string(*b as u64).as_str(),
            ).concat(".").concat(u64_to_string(*c as u64).as_str()).concat(".").concat(
                u64_to_string(*d as u64).as_str(),
            );
            proof {
                assert(r@ =~= spec_ip_str(*ip));
            }
            r
        },
        IpAddress::V6(g0, g1, g2, g3, g4, g5, g6, g7) => {
            let r = u16_to_hex_string(*g0).concat(":").concat(u16_to_hex_string(*g1).as_str())
                .concat(":").concat(u16_to_hex_string(*g2).as_str()).concat(":").concat(
                u16_to_hex_string(*g3).as_str(),
            ).concat(":").concat(u16_to_hex_string(*g4).as_str()).concat(":").concat(
                u16_to_hex_string(*g5).as_str(),
            ).concat(":").concat(u16_to_hex_string(*g6).as_str()).concat(":").concat(
                u16_to_hex_string(*g7).as_str(),
            );
            proof {
                assert(r@ =~= spec_ip_str(*ip));
            }
            r
        },
    }
}

/// The rendering of a CIDR value: the address, a slash, the prefix
/// length in decimal.
pub open spec fn spec_cidr_str(c: CidrAddress) -> Seq<char> {
    spec_ip_str(c.addr) + "/"@ + dec_str(c.prefix_len as nat)
}

/// Renders a CIDR value for display.
pub fn cidr_to_string(c: &CidrAddress) -> (r: String)
    ensures
        r@ == spec_cidr_str(*c),
{
    let r = ip_to_string(&c.addr).concat("/").concat(u64_to_string(c.prefix_len as u64).as_str());
    proof {
        assert(r@ =~= spec_cidr_str(*c));
    }
    r
}

} // verus!

//! IP addresses as plain values, their standard text form, and the
//! normalisation used for display.
use vstd::prelude::*;

verus! {

/// An IP address: four octets, or eight 16-bit segments.
#[derive(Clone, Copy, Debug, PartialEq, Eq)]
pub enum IpAddress {
    V4([u8; 4]),
    V6([u16; 8]),
}

/// The character of a digit below 16 (lower-case hex letters).
pub open spec fn digit_char(d: nat) -> char {
    seq!['0', '1', '2', '3', '4', '5', '6', '7', '8', '9', 'a', 'b', 'c', 'd', 'e', 'f'][d as int]
}

/// The digits of `n` in base `radix`, most significant first, without leading zeros.
pub open spec fn digits(n: nat, radix: nat) -> Seq<char>
    decreases n via digits_decreases
{
    if radix < 2 || n < radix {
        seq![digit_char(n % 16)]
    } else {
        digits(n / radix, radix) + seq![digit_char(n % radix)]
    }
}

#[via_fn]
proof fn digits_decreases(n: nat, radix: nat) {
    if !(radix < 2 || n < radix) {
        assert(n / radix < n) by (nonlinear_arith)
            requires
                radix >= 2,
                n >= radix,
        ;
    }
}

/// Dotted-quad form of four octets.
pub open spec fn v4_text(o: Seq<u8>) -> Seq<char> {
    digits(o[0] as nat, 10) + seq!['.'] + digits(o[1] as nat, 10) + seq!['.'] + digits(
        o[2] as nat,
        10,
    ) + seq!['.'] + digits(o[3] as nat, 10)
}

/// Segments in lower-case hex, separated by colons.
pub open spec fn hex_join(s: Seq<u16>) -> Seq<char>
    decreases s.len(),
{
    if s.len() == 0 {
        Seq::empty()
    } else if s.len() == 1 {
        digits(s[0] as nat, 16)
    } else {
        hex_join(s.drop_last()) + seq![':'] + digits(s.last() as nat, 16)
    }
}

/// Number of consecutive zero segments starting at `i`.
pub open spec fn zero_run(s: Seq<u16>, i: int) -> nat
    decreases s.len() - i,
{
    if 0 <= i < s.len() && s[i] == 0 {
        1 + zero_run(s, i + 1)
    } else {
        0
    }
}

/// Start and length of the longest run of zero segments starting before `k`;
/// the leftmost one where several are longest.
pub open spec fn longest_zero_run(s: Seq<u16>, k: int) -> (int, nat)
    decreases k,
{
    if k <= 0 {
        (0, 0)
    } else {
        let p = longest_zero_run(s, k - 1);
        if zero_run(s, k - 1) > p.1 {
            (k - 1, zero_run(s, k - 1))
        } else {
            p
        }
    }
}

/// The address is IPv4-mapped: `::ffff:a.b.c.d`.
pub open spec fn is_v4_mapped(s: Seq<u16>) -> bool {
    s[0] == 0 && s[1] == 0 && s[2] == 0 && s[3] == 0 && s[4] == 0 && s[5] == 0xffff
}

/// The octets carried in the last two segments.
pub open spec fn tail_octets(s: Seq<u16>) -> Seq<u8> {
    seq![(s[6] / 256) as u8, (s[6] % 256) as u8, (s[7] / 256) as u8, (s[7] % 256) as u8]
}

/// Standard IPv6 text: mapped addresses as `::ffff:` and dotted quad; otherwise
/// hex segments with the longest run of two or more zero segments written `::`.
pub open spec fn v6_text(s: Seq<u16>) -> Seq<char> {
    if is_v4_mapped(s) {
        seq![':', ':', 'f', 'f', 'f', 'f', ':'] + v4_text(tail_octets(s))
    } else {
        let (st, len) = longest_zero_run(s, 8);
        if len > 1 {
            hex_join(s.subrange(0, st)) + seq![':', ':'] + hex_join(s.subrange(st + len, 8))
        } else {
            hex_join(s)
        }
    }
}

impl IpAddress {
    /// The standard text form of the address.
    pub open spec fn text(self) -> Seq<char> {
        match self {
            IpAddress::V4(o) => v4_text(o@),
            IpAddress::V6(s) => v6_text(s@),
        }
    }

    /// `127.0.0.0/8` for IPv4, `::1` for IPv6.
    pub open spec fn spec_is_loopback(self) -> bool {
        match self {
            IpAddress::V4(o) => o@[0] == 127,
            IpAddress::V6(s) => s@ =~= seq![0u16, 0, 0, 0, 0, 0, 0, 1],
        }
    }

    /// The IPv4 address embedded in an IPv4-compatible (`::a.b.c.d`) or
    /// IPv4-mapped (`::ffff:a.b.c.d`) IPv6 address.
    pub open spec fn spec_to_ipv4(self) -> Option<Seq<u8>> {
        match self {
            IpAddress::V4(_) => None,
            IpAddress::V6(s) => if s@[0] == 0 && s@[1] == 0 && s@[2] == 0 && s@[3] == 0 && s@[4]
                == 0 && (s@[5] == 0 || s@[5] == 0xffff) {
                Some(tail_octets(s@))
            } else {
                None
            },
        }
    }

    /// The IPv4 address embedded in an IPv4-mapped (`::ffff:a.b.c.d`) IPv6 address.
    pub open spec fn spec_to_ipv4_mapped(self) -> Option<Seq<u8>> {
        match self {
            IpAddress::V4(_) => None,
            IpAddress::V6(s) => if is_v4_mapped(s@) {
                Some(tail_octets(s@))
            } else {
                None
            },
        }
    }

    /// The display form: loopback collapses to `127.0.0.1`, IPv4-mapped
    /// addresses show the embedded address in dotted form, all others (the
    /// IPv4-compatible `::a.b.c.d` and `::` included) their standard text.
    pub open spec fn normalized(self) -> Seq<char> {
        if self.spec_is_loopback() {
            seq!['1', '2', '7', '.', '0', '.', '0', '.', '1']
        } else {
            match self.spec_to_ipv4_mapped() {
                Some(o) => v4_text(o),
                None => self.text(),
            }
        }
    }

    pub fn to_ipv4_mapped(&self) -> (r: Option<[u8; 4]>)
        ensures
            r matches Some(o) ==> self.spec_to_ipv4_mapped() == Some(o@),
            r is None <==> self.spec_to_ipv4_mapped() is None,
    {
        match self {
            IpAddress::V4(_) => None,
            IpAddress::V6(s) => {
                if s[0] == 0 && s[1] == 0 && s[2] == 0 && s[3] == 0 && s[4] == 0 && s[5] == 0xffff {
                    let o = [(s[6] / 256) as u8, (s[6] % 256) as u8, (s[7] / 256) as u8, (s[7]
                        % 256) as u8];
                    assert(o@ =~= tail_octets(s@));
                    Some(o)
                } else {
                    None
                }
            },
        }
    }

    pub fn is_loopback(&self) -> (r: bool)
        ensures
            r == self.spec_is_loopback(),
    {
        match self {
            IpAddress::V4(o) => o[0] == 127,
            IpAddress::V6(s) => {
                let r = s[0] == 0 && s[1] == 0 && s[2] == 0 && s[3] == 0 && s[4] == 0 && s[5] == 0
                    && s[6] == 0 && s[7] == 1;
                proof {
                    if r {
                        assert(s@ =~= seq![0u16, 0, 0, 0, 0, 0, 0, 1]);
                    }
                }
                r
            },
        }
    }

    pub fn to_ipv4(&self) -> (r: Option<[u8; 4]>)
        ensures
            r matches Some(o) ==> self.spec_to_ipv4() == Some(o@),
            r is None <==> self.spec_to_ipv4() is None,
    {
        match self {
            IpAddress::V4(_) => None,
            IpAddress::V6(s) => {
                if s[0] == 0 && s[1] == 0 && s[2] == 0 && s[3] == 0 && s[4] == 0 && (s[5] == 0
                    || s[5] == 0xffff) {
                    let o = [(s[6] / 256) as u8, (s[6] % 256) as u8, (s[7] / 256) as u8, (s[7]
                        % 256) as u8];
                    assert(o@ =~= tail_octets(s@));
                    Some(o)
                } else {
                    None
                }
            },
        }
    }

    /// The standard text form, as `Display` of std's address types writes it.
    pub fn to_text(&self) -> (r: String)
        ensures
            r@ == self.text(),
    {
        match self {
            IpAddress::V4(o) => format_v4(o),
            IpAddress::V6(s) => format_v6(s),
        }
    }
}

/// A one-character string for a digit below 16.
pub(crate) fn digit_str(d: u32) -> (r: &'static str)
    requires
        d < 16,
    ensures
        r@ == seq![digit_char(d as nat)],
{
    let r = match d {
        0 => "0",
        1 => "1",
        2 => "2",
        3 => "3",
        4 => "4",
        5 => "5",
        6 => "6",
        7 => "7",
        8 => "8",
        9 => "9",
        10 => "a",
        11 => "b",
        12 => "c",
        13 => "d",
        14 => "e",
        _ => "f",
    };
    proof {
        reveal_strlit("0");
        reveal_strlit("1");
        reveal_strlit("2");
        reveal_strlit("3");
        reveal_strlit("4");
        reveal_strlit("5");
        reveal_strlit("6");
        reveal_strlit("7");
        reveal_strlit("8");
        reveal_strlit("9");
        reveal_strlit("a");
        reveal_strlit("b");
        reveal_strlit("c");
        reveal_strlit("d");
        reveal_strlit("e");
        reveal_strlit("f");
    }
    r
}

/// Appends the digits of `n` in base `radix` (10 or 16).
fn push_digits(out: &mut String, n: u32, radix: u32)
    requires
        radix == 10 || radix == 16,
    ensures
        final(out)@ == old(out)@ + digits(n as nat, radix as nat),
    decreases n,
{
    if n >= radix {
        push_digits(out, n / radix, radix);
    }
    let d = n % radix;
    out.append(digit_str(d));
    proof {
        if n < radix {
            assert(n % 16 == n % radix);
        }
        assert(final(out)@ =~= old(out)@ + digits(n as nat, radix as nat));
    }
}

fn format_v4(o: &[u8; 4]) -> (r: String)
    ensures
        r@ == v4_text(o@),
{
    let mut out = String::new();
    push_digits(&mut out, o[0] as u32, 10);
    out.append(".");
    push_digits(&mut out, o[1] as u32, 10);
    out.append(".");
    push_digits(&mut out, o[2] as u32, 10);
    out.append(".");
    push_digits(&mut out, o[3] as u32, 10);
    proof {
        reveal_strlit(".");
        assert(out@ =~= v4_text(o@));
    }
    out
}

/// Appends the segments `s[lo..hi]` in hex, separated by colons.
fn push_hex_join(out: &mut String, s: &[u16; 8], lo: usize, hi: usize)
    requires
        lo <= hi <= 8,
    ensures
        final(out)@ == old(out)@ + hex_join(s@.subrange(lo as int, hi as int)),
{
    let mut i = lo;
    proof {
        reveal_strlit(":");
        assert(s@.subrange(lo as int, lo as int) =~= Seq::<u16>::empty());
    }
    while i < hi
        invariant
            lo <= i <= hi <= 8,
            out@ == old(out)@ + hex_join(s@.subrange(lo as int, i as int)),
        decreases hi - i,
    {
        if i > lo {
            out.append(":");
        }
        push_digits(out, s[i] as u32, 16);
        proof {
            reveal_strlit(":");
            let next = s@.subrange(lo as int, i + 1);
            assert(next.drop_last() =~= s@.subrange(lo as int, i as int));
            assert(next.last() == s@[i as int]);
            if i == lo {
                assert(next.len() == 1);
            }
        }
        i = i + 1;
    }
}

/// Length of the run of zero segments starting at `i`.
fn zero_run_at(s: &[u16; 8], i: usize) -> (r: usize)
    requires
        i <= 8,
    ensures
        r == zero_run(s@, i as int),
        r <= 8 - i,
    decreases 8 - i,
{
    if i < 8 && s[i] == 0 {
        1 + zero_run_at(s, i + 1)
    } else {
        0
    }
}

fn format_v6(s: &[u16; 8]) -> (r: String)
    ensures
        r@ == v6_text(s@),
{
    if s[0] == 0 && s[1] == 0 && s[2] == 0 && s[3] == 0 && s[4] == 0 && s[5] == 0xffff {
        let o = [(s[6] / 256) as u8, (s[6] % 256) as u8, (s[7] / 256) as u8, (s[7] % 256) as u8];
        assert(o@ =~= tail_octets(s@));
        let mut out = String::from_str("::ffff:");
        let tail = format_v4(&o);
        out.append(tail.as_str());
        proof {
            reveal_strlit("::ffff:");
            assert(out@ =~= v6_text(s@));
        }
        return out;
    }
    let mut best_start: usize = 0;
    let mut best_len: usize = 0;
    let mut k: usize = 0;
    while k < 8
        invariant
            k <= 8,
            longest_zero_run(s@, k as int) == (best_start as int, best_len as nat),
            best_len == 0 || best_start + best_len <= 8,
        decreases 8 - k,
    {
        let run = zero_run_at(s, k);
        if run > best_len {
            best_start = k;
            best_len = run;
        }
        k = k + 1;
    }
    let mut out = String::new();
    if best_len > 1 {
        push_hex_join(&mut out, s, 0, best_start);
        out.append("::");
        push_hex_join(&mut out, s, best_start + best_len, 8);
        proof {
            reveal_strlit("::");
            assert(out@ =~= v6_text(s@));
        }
    } else {
        push_hex_join(&mut out, s, 0, 8);
        assert(s@.subrange(0, 8) =~= s@);
    }
    out
}

/// The display form of an address (loopback collapsed to `127.0.0.1`,
/// IPv4-mapped addresses in dotted form, others in standard text).
pub fn ip_parser(ip: IpAddress) -> (r: String)
    ensures
        r@ == ip.normalized(),
{
    if ip.is_loopback() {
        let r = String::from_str("127.0.0.1");
        proof {
            reveal_strlit("127.0.0.1");
        }
        r
    } else {
        match ip.to_ipv4_mapped() {
            Some(o) => format_v4(&o),
            None => ip.to_text(),
        }
    }
}

} // verus!

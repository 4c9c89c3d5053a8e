//! IP addresses as text: which texts name an address, and how an address is written.
use vstd::arithmetic::div_mod::lemma_div_decreases;
use vstd::prelude::*;

use crate::addr::{octet_pair, IpAddr, Ipv4Addr, Ipv6Addr};

verus! {

/// The parts of `s` between its occurrences of `sep`.
pub open spec fn fields(s: Seq<char>, sep: char) -> Seq<Seq<char>>
    decreases s.len(),
{
    if s.len() == 0 {
        seq![Seq::empty()]
    } else {
        let f = fields(s.drop_last(), sep);
        if s.last() == sep {
            f.push(Seq::empty())
        } else {
            f.drop_last().push(f.last().push(s.last()))
        }
    }
}

/// What `c` counts as a digit, in either case.
pub open spec fn digit(c: char) -> nat {
    if '0' <= c <= '9' {
        (c as u32 - '0' as u32) as nat
    } else if 'a' <= c <= 'f' {
        (c as u32 - 'a' as u32 + 10) as nat
    } else if 'A' <= c <= 'F' {
        (c as u32 - 'A' as u32 + 10) as nat
    } else {
        16
    }
}

/// Whether every character of `s` is a digit in base `radix`.
pub open spec fn all_digits(s: Seq<char>, radix: nat) -> bool {
    forall|i: int| 0 <= i < s.len() ==> digit(#[trigger] s[i]) < radix
}

/// The number that the digits `s` spell in base `radix`.
pub open spec fn value(s: Seq<char>, radix: nat) -> nat
    decreases s.len(),
{
    if s.len() == 0 {
        0
    } else {
        value(s.drop_last(), radix) * radix + digit(s.last())
    }
}

/// A decimal octet: one to three digits, no leading zero, at most 255.
pub open spec fn octet_of(s: Seq<char>) -> Option<u8> {
    if 1 <= s.len() <= 3 && all_digits(s, 10) && (s.len() == 1 || s[0] != '0') && value(s, 10)
        < 256 {
        Some(value(s, 10) as u8)
    } else {
        None
    }
}

/// A segment: one to four hexadecimal digits.
pub open spec fn segment_of(s: Seq<char>) -> Option<u16> {
    if 1 <= s.len() <= 4 && all_digits(s, 16) {
        Some(value(s, 16) as u16)
    } else {
        None
    }
}

/// Dotted decimal: four octets.
pub open spec fn ipv4_of(s: Seq<char>) -> Option<Ipv4Addr> {
    let f = fields(s, '.');
    if f.len() == 4 && octet_of(f[0]) is Some && octet_of(f[1]) is Some && octet_of(f[2]) is Some
        && octet_of(f[3]) is Some {
        Some(
            Ipv4Addr {
                a: octet_of(f[0])->0,
                b: octet_of(f[1])->0,
                c: octet_of(f[2])->0,
                d: octet_of(f[3])->0,
            },
        )
    } else {
        None
    }
}

/// The segments that the last field of a colon-separated text stands for: one,
/// or two where a dotted address may stand there.
pub open spec fn last_segments(s: Seq<char>, dotted: bool) -> Option<Seq<u16>> {
    match segment_of(s) {
        Some(g) => Some(seq![g]),
        None => match ipv4_of(s) {
            Some(ip) if dotted => Some(seq![octet_pair(ip.a, ip.b), octet_pair(ip.c, ip.d)]),
            _ => None,
        },
    }
}

/// The segments of a colon-separated text without `::`; none for the empty text.
pub open spec fn segments_of(s: Seq<char>, dotted: bool) -> Option<Seq<u16>> {
    let f = fields(s, ':');
    if s.len() == 0 {
        Some(Seq::empty())
    } else if (forall|i: int| 0 <= i < f.len() - 1 ==> segment_of(#[trigger] f[i]) is Some)
        && last_segments(f.last(), dotted) is Some {
        Some(
            Seq::new((f.len() - 1) as nat, |i: int| segment_of(f[i])->0) + last_segments(
                f.last(),
                dotted,
            )->0,
        )
    } else {
        None
    }
}

/// Where `::` first stands in `s`.
pub open spec fn first_gap(s: Seq<char>) -> Option<int>
    decreases s.len(),
{
    if s.len() < 2 {
        None
    } else {
        match first_gap(s.drop_last()) {
            Some(i) => Some(i),
            None => if s[s.len() - 2] == ':' && s[s.len() - 1] == ':' {
                Some(s.len() - 2)
            } else {
                None
            },
        }
    }
}

/// `n` zero segments.
pub open spec fn zeros(n: int) -> Seq<u16> {
    Seq::new(n as nat, |i: int| 0u16)
}

/// Eight segments in full, or fewer than eight around one `::`, which stands for
/// the missing zeros. The last two may be written as a dotted address.
pub open spec fn ipv6_of(s: Seq<char>) -> Option<Ipv6Addr> {
    match first_gap(s) {
        Some(i) => match (segments_of(s.take(i), false), segments_of(s.skip(i + 2), true)) {
            (Some(head), Some(tail)) => if head.len() + tail.len() <= 7 {
                Some(Ipv6Addr::of_segs(head + zeros(8 - head.len() - tail.len()) + tail))
            } else {
                None
            },
            _ => None,
        },
        None => match segments_of(s, true) {
            Some(g) => if g.len() == 8 {
                Some(Ipv6Addr::of_segs(g))
            } else {
                None
            },
            None => None,
        },
    }
}

/// The address that the text `s` names, if it names one.
#[verifier::opaque]
pub open spec fn ip_of(s: Seq<char>) -> Option<IpAddr> {
    match ipv4_of(s) {
        Some(ip) => Some(IpAddr::V4(ip)),
        None => match ipv6_of(s) {
            Some(ip) => Some(IpAddr::V6(ip)),
            None => None,
        },
    }
}

/// The digit for `d`, in lower case.
pub open spec fn digit_char(d: nat) -> char {
    if d < 10 {
        ('0' as u32 + d) as char
    } else {
        ('a' as u32 + (d - 10)) as char
    }
}

/// `n` in base `radix`, without leading zeros.
pub open spec fn number_text(n: nat, radix: nat) -> Seq<char>
    decreases n,
{
    if radix < 2 || n < radix {
        seq![digit_char(n)]
    } else {
        proof {
            lemma_div_decreases(n as int, radix as int);
        }
        number_text(n / radix, radix).push(digit_char(n % radix))
    }
}

/// The fields `f` with `sep` between them.
pub open spec fn joined(f: Seq<Seq<char>>, sep: char) -> Seq<char>
    decreases f.len(),
{
    if f.len() == 0 {
        Seq::empty()
    } else if f.len() == 1 {
        f[0]
    } else {
        joined(f.drop_last(), sep).push(sep) + f.last()
    }
}

pub open spec fn octet_texts(ip: Ipv4Addr) -> Seq<Seq<char>> {
    ip.octets().map_values(|x: u8| number_text(x as nat, 10))
}

pub open spec fn ipv4_text(ip: Ipv4Addr) -> Seq<char> {
    joined(octet_texts(ip), '.')
}

/// Segments in hexadecimal with colons between them.
pub open spec fn segments_text(g: Seq<u16>) -> Seq<char> {
    joined(g.map_values(|x: u16| number_text(x as nat, 16)), ':')
}

/// How many zero segments stand in `g` from `i` on.
pub open spec fn zero_run(g: Seq<u16>, i: int) -> nat
    decreases g.len() - i,
{
    if 0 <= i < g.len() && g[i] == 0 {
        1 + zero_run(g, i + 1)
    } else {
        0
    }
}

/// The first of the places below `n` at which the longest run of zeros starts.
pub open spec fn longest_zero_run(g: Seq<u16>, n: nat) -> int
    decreases n,
{
    if n <= 1 {
        0
    } else {
        let best = longest_zero_run(g, (n - 1) as nat);
        if zero_run(g, n - 1) > zero_run(g, best) {
            n - 1
        } else {
            best
        }
    }
}

/// The first longest run of at least two zeros is written `::`; an IPv4-mapped
/// address ends in a dotted address.
pub open spec fn ipv6_text(ip: Ipv6Addr) -> Seq<char> {
    let g = ip.segs();
    let start = longest_zero_run(g, 8);
    let len = zero_run(g, start);
    if ip.is_v4_mapped() {
        seq![':', ':', 'f', 'f', 'f', 'f', ':'] + ipv4_text(ip.low_v4())
    } else if len > 1 {
        segments_text(g.take(start)) + seq![':', ':'] + segments_text(g.skip(start + len))
    } else {
        segments_text(g)
    }
}

/// `ip` as text.
#[verifier::opaque]
pub open spec fn ip_text(ip: IpAddr) -> Seq<char> {
    match ip {
        IpAddr::V4(ip) => ipv4_text(ip),
        IpAddr::V6(ip) => ipv6_text(ip),
    }
}

spec fn texts(v: Seq<Vec<char>>) -> Seq<Seq<char>> {
    v.map_values(|t: Vec<char>| t@)
}

fn chars_of(s: &str) -> (r: Vec<char>)
    ensures
        r@ == s@,
{
    let mut r: Vec<char> = Vec::new();
    for c in it: s.chars()
        invariant
            r@ == it.seq().take(it.index()),
            it.seq() == s@,
    {
        r.push(c);
    }
    r
}

fn part(s: &Vec<char>, from: usize, to: usize) -> (r: Vec<char>)
    requires
        from <= to <= s.len(),
    ensures
        r@ == s@.subrange(from as int, to as int),
{
    let mut r: Vec<char> = Vec::new();
    for i in from..to
        invariant
            from <= to <= s.len(),
            r@ == s@.subrange(from as int, i as int),
    {
        r.push(s[i]);
    }
    r
}

fn split(s: &Vec<char>, sep: char) -> (r: Vec<Vec<char>>)
    ensures
        texts(r@) == fields(s@, sep),
{
    let mut done: Vec<Vec<char>> = Vec::new();
    let mut cur: Vec<char> = Vec::new();
    assert(s@.take(0) =~= Seq::empty());
    assert(texts(done@).push(cur@) =~= seq![Seq::empty()]);
    for i in 0..s.len()
        invariant
            fields(s@.take(i as int), sep) == texts(done@).push(cur@),
    {
        let c = s[i];
        let ghost before = texts(done@).push(cur@);
        let ghost old_cur = cur@;
        proof {
            assert(s@.take(i + 1).drop_last() =~= s@.take(i as int));
            assert(s@.take(i + 1).last() == c);
        }
        if c == sep {
            done.push(cur);
            cur = Vec::new();
            assert(texts(done@) =~= before);
            assert(fields(s@.take(i + 1), sep) =~= texts(done@).push(cur@));
        } else {
            cur.push(c);
            assert(before.drop_last() =~= texts(done@));
            assert(fields(s@.take(i + 1), sep) =~= texts(done@).push(cur@));
        }
    }
    assert(s@.take(s.len() as int) =~= s@);
    done.push(cur);
    assert(texts(done@) =~= texts(done@.drop_last()).push(done@.last()@));
    assert(done@.drop_last().push(done@.last()) =~= done@);
    done
}

fn digit_value(c: char) -> (r: u32)
    ensures
        r == digit(c),
{
    if '0' <= c && c <= '9' {
        c as u32 - '0' as u32
    } else if 'a' <= c && c <= 'f' {
        c as u32 - 'a' as u32 + 10
    } else if 'A' <= c && c <= 'F' {
        c as u32 - 'A' as u32 + 10
    } else {
        16
    }
}

/// Reads up to four digits in base `radix`; `None` where some character is no such digit.
fn number(s: &Vec<char>, radix: u32) -> (r: Option<u32>)
    requires
        s.len() <= 4,
        2 <= radix <= 16,
    ensures
        match r {
            Some(n) => all_digits(s@, radix as nat) && n == value(s@, radix as nat) && n < 0x10000,
            None => !all_digits(s@, radix as nat),
        },
{
    let mut n: u32 = 0;
    let ghost mut bound: int = 1;
    for i in 0..s.len()
        invariant
            s.len() <= 4,
            2 <= radix <= 16,
            all_digits(s@.take(i as int), radix as nat),
            n == value(s@.take(i as int), radix as nat),
            n < bound,
            (i == 0 ==> bound <= 1) && (i == 1 ==> bound <= 16) && (i == 2 ==> bound <= 256) && (i
                == 3 ==> bound <= 4096) && (i == 4 ==> bound <= 65536),
    {
        let d = digit_value(s[i]);
        if d >= radix {
            assert(digit(s@[i as int]) >= radix);
            return None;
        }
        proof {
            assert(s@.take(i + 1).drop_last() =~= s@.take(i as int));
            assert(n * radix + d < bound * 16) by (nonlinear_arith)
                requires
                    n + 1 <= bound,
                    d + 1 <= radix,
                    radix <= 16,
                    n >= 0,
            ;
            bound = bound * 16;
        }
        n = n * radix + d;
    }
    assert(s@.take(s.len() as int) =~= s@);
    Some(n)
}

fn octet(s: &Vec<char>) -> (r: Option<u8>)
    ensures
        r == octet_of(s@),
{
    if s.len() < 1 || s.len() > 3 || (s.len() > 1 && s[0] == '0') {
        return None;
    }
    match number(s, 10) {
        Some(n) if n < 256 => Some(n as u8),
        _ => None,
    }
}

fn segment(s: &Vec<char>) -> (r: Option<u16>)
    ensures
        r == segment_of(s@),
{
    if s.len() < 1 || s.len() > 4 {
        return None;
    }
    match number(s, 16) {
        Some(n) => Some(n as u16),
        None => None,
    }
}

fn dotted_quad(s: &Vec<char>) -> (r: Option<Ipv4Addr>)
    ensures
        r == ipv4_of(s@),
{
    let f = split(s, '.');
    assert(texts(f@).len() == f@.len());
    assert(forall|i: int| 0 <= i < f@.len() ==> texts(f@)[i] == #[trigger] f@[i]@);
    if f.len() != 4 {
        return None;
    }
    match (octet(&f[0]), octet(&f[1]), octet(&f[2]), octet(&f[3])) {
        (Some(a), Some(b), Some(c), Some(d)) => Some(Ipv4Addr { a, b, c, d }),
        _ => None,
    }
}

fn push_pair(g: &mut Vec<u16>, hi: u8, lo: u8)
    ensures
        final(g)@ == old(g)@.push(octet_pair(hi, lo)),
{
    g.push(hi as u16 * 256 + lo as u16);
}

fn segments(s: &Vec<char>, dotted: bool) -> (r: Option<Vec<u16>>)
    ensures
        match r {
            Some(g) => segments_of(s@, dotted) == Some(g@),
            None => segments_of(s@, dotted) is None,
        },
{
    let mut g: Vec<u16> = Vec::new();
    if s.len() == 0 {
        assert(g@ =~= Seq::empty());
        return Some(g);
    }
    let f = split(s, ':');
    let ghost fs = fields(s@, ':');
    proof {
        lemma_fields_nonempty(s@, ':');
        assert(texts(f@).len() == f@.len());
        assert(forall|i: int| 0 <= i < f@.len() ==> fs[i] == #[trigger] f@[i]@);
    }
    let last: usize = f.len() - 1;
    for i in 0..last
        invariant
            last == f.len() - 1,
            fs.len() == f@.len(),
            forall|j: int| 0 <= j < f@.len() ==> fs[j] == #[trigger] f@[j]@,
            forall|j: int| 0 <= j < i ==> segment_of(#[trigger] fs[j]) is Some,
            g@ == Seq::new(i as nat, |j: int| segment_of(fs[j])->0),
            s.len() > 0,
            fs == fields(s@, ':'),
    {
        match segment(&f[i]) {
            Some(x) => {
                g.push(x);
                assert(segment_of(fs[i as int]) is Some);
            },
            None => {
                assert(segment_of(fs[i as int]) is None);
                return None;
            },
        }
    }
    let ghost head = g@;
    match segment(&f[last]) {
        Some(x) => {
            g.push(x);
            assert(g@ =~= head + seq![x]);
            Some(g)
        },
        None => {
            if !dotted {
                return None;
            }
            match dotted_quad(&f[last]) {
                Some(ip) => {
                    push_pair(&mut g, ip.a, ip.b);
                    push_pair(&mut g, ip.c, ip.d);
                    assert(g@ =~= head + seq![octet_pair(ip.a, ip.b), octet_pair(ip.c, ip.d)]);
                    Some(g)
                },
                None => None,
            }
        },
    }
}

pub(crate) proof fn lemma_fields_nonempty(s: Seq<char>, sep: char)
    ensures
        fields(s, sep).len() > 0,
    decreases s.len(),
{
    if s.len() > 0 {
        lemma_fields_nonempty(s.drop_last(), sep);
    }
}

/// `first_gap` is the least place at which `::` stands.
pub(crate) proof fn lemma_first_gap(s: Seq<char>)
    ensures
        match first_gap(s) {
            Some(i) => 0 <= i <= s.len() - 2 && s[i] == ':' && s[i + 1] == ':' && (forall|j: int|
                0 <= j < i ==> !(#[trigger] s[j] == ':' && s[j + 1] == ':')),
            None => forall|j: int|
                0 <= j < s.len() - 1 ==> !(#[trigger] s[j] == ':' && s[j + 1] == ':'),
        },
    decreases s.len(),
{
    if s.len() >= 2 {
        let t = s.drop_last();
        lemma_first_gap(t);
        assert(forall|j: int| 0 <= j < t.len() ==> t[j] == s[j]);
        match first_gap(t) {
            Some(i) => {
                assert(s[i] == t[i] && s[i + 1] == t[i + 1]);
                assert forall|j: int| 0 <= j < i implies !(#[trigger] s[j] == ':' && s[j + 1]
                    == ':') by {
                    assert(t[j] == s[j] && t[j + 1] == s[j + 1]);
                }
            },
            None => {
                assert forall|j: int| 0 <= j < s.len() - 2 implies !(#[trigger] s[j] == ':' && s[j
                    + 1] == ':') by {
                    assert(t[j] == s[j] && t[j + 1] == s[j + 1]);
                }
            },
        }
    }
}

/// A place at which `::` stands, with none before it, is `first_gap`.
pub(crate) proof fn lemma_first_gap_at(s: Seq<char>, i: int)
    requires
        0 <= i <= s.len() - 2,
        s[i] == ':',
        s[i + 1] == ':',
        forall|j: int| 0 <= j < i ==> !(#[trigger] s[j] == ':' && s[j + 1] == ':'),
    ensures
        first_gap(s) == Some(i),
{
    lemma_first_gap(s);
    match first_gap(s) {
        Some(k) => {
            if k < i {
                assert(!(s[k] == ':' && s[k + 1] == ':'));
            } else if i < k {
                assert(!(s[i] == ':' && s[i + 1] == ':'));
            }
        },
        None => {
            assert(!(s[i] == ':' && s[i + 1] == ':'));
        },
    }
}

/// A text in which `::` stands nowhere has no `first_gap`.
pub(crate) proof fn lemma_no_gap(s: Seq<char>)
    requires
        forall|j: int| 0 <= j < s.len() - 1 ==> !(#[trigger] s[j] == ':' && s[j + 1] == ':'),
    ensures
        first_gap(s) is None,
{
    lemma_first_gap(s);
    match first_gap(s) {
        Some(k) => {
            assert(!(s[k] == ':' && s[k + 1] == ':'));
        },
        None => {},
    }
}

fn find_gap(s: &Vec<char>) -> (r: Option<usize>)
    ensures
        match r {
            Some(i) => first_gap(s@) == Some(i as int) && i + 2 <= s.len(),
            None => first_gap(s@) is None,
        },
{
    let mut i: usize = 0;
    while i < s.len() && s.len() - i >= 2
        invariant
            i <= s.len(),
            forall|j: int| 0 <= j < i ==> !(#[trigger] s@[j] == ':' && s@[j + 1] == ':'),
        decreases s.len() - i,
    {
        if s[i] == ':' && s[i + 1] == ':' {
            proof {
                lemma_first_gap_at(s@, i as int);
            }
            return Some(i);
        }
        i += 1;
    }
    proof {
        lemma_no_gap(s@);
    }
    None
}

fn address_of(g: &Vec<u16>) -> (r: Ipv6Addr)
    requires
        g.len() == 8,
    ensures
        r == Ipv6Addr::of_segs(g@),
{
    Ipv6Addr::new(g[0], g[1], g[2], g[3], g[4], g[5], g[6], g[7])
}

fn colon_hex(s: &Vec<char>) -> (r: Option<Ipv6Addr>)
    ensures
        r == ipv6_of(s@),
{
    match find_gap(s) {
        Some(i) => {
            let before = part(s, 0, i);
            let after = part(s, i + 2, s.len());
            assert(before@ =~= s@.take(i as int));
            assert(after@ =~= s@.skip(i + 2));
            match (segments(&before, false), segments(&after, true)) {
                (Some(head), Some(tail)) => {
                    if head.len() > 7 || tail.len() > 7 || head.len() + tail.len() > 7 {
                        return None;
                    }
                    let ghost h = head@;
                    let mut g = head;
                    let fill: usize = 8 - g.len() - tail.len();
                    for k in 0..fill
                        invariant
                            g@ == h + zeros(k as int),
                    {
                        g.push(0);
                        assert(g@ =~= h + zeros(k + 1));
                    }
                    for k in 0..tail.len()
                        invariant
                            g@ == h + zeros(fill as int) + tail@.take(k as int),
                    {
                        g.push(tail[k]);
                        assert(g@ =~= h + zeros(fill as int) + tail@.take(k + 1));
                    }
                    assert(tail@.take(tail.len() as int) =~= tail@);
                    Some(address_of(&g))
                },
                _ => None,
            }
        },
        None => match segments(s, true) {
            Some(g) => if g.len() == 8 {
                Some(address_of(&g))
            } else {
                None
            },
            None => None,
        },
    }
}

/// Reads an IP address of either family.
pub fn parse_ip(text: &str) -> (r: Option<IpAddr>)
    ensures
        r == ip_of(text@),
{
    proof {
        reveal(ip_of);
    }
    let s = chars_of(text);
    match dotted_quad(&s) {
        Some(ip) => Some(IpAddr::V4(ip)),
        None => match colon_hex(&s) {
            Some(ip) => Some(IpAddr::V6(ip)),
            None => None,
        },
    }
}

fn push_digit(out: &mut String, d: u32)
    requires
        d < 16,
    ensures
        final(out)@ == old(out)@.push(digit_char(d as nat)),
{
    let digits = "0123456789abcdef";
    proof {
        reveal_strlit("0123456789abcdef");
        assert(digits@.len() == 16);
        assert(digits@[d as int] == digit_char(d as nat));
    }
    let one = digits.substring_char(d as usize, d as usize + 1);
    assert(one@ =~= seq![digit_char(d as nat)]);
    let ghost before = out@;
    out.append(one);
    assert(out@ =~= before.push(digit_char(d as nat)));
}

fn push_number(out: &mut String, n: u32, radix: u32)
    requires
        2 <= radix <= 16,
    ensures
        final(out)@ == old(out)@ + number_text(n as nat, radix as nat),
    decreases n,
{
    let ghost before = out@;
    if n < radix {
        push_digit(out, n);
        assert(out@ =~= before + number_text(n as nat, radix as nat));
    } else {
        proof {
            lemma_div_decreases(n as int, radix as int);
        }
        push_number(out, n / radix, radix);
        push_digit(out, n % radix);
        assert(out@ =~= before + number_text(n as nat, radix as nat));
    }
}

fn push_ipv4(out: &mut String, ip: Ipv4Addr)
    ensures
        final(out)@ == old(out)@ + ipv4_text(ip),
{
    let ghost before = out@;
    proof {
        reveal_strlit(".");
        assert("."@ =~= seq!['.']);
    }
    push_number(out, ip.a as u32, 10);
    out.append(".");
    push_number(out, ip.b as u32, 10);
    out.append(".");
    push_number(out, ip.c as u32, 10);
    out.append(".");
    push_number(out, ip.d as u32, 10);
    proof {
        let f = octet_texts(ip);
        assert(f.drop_last().drop_last().drop_last() =~= seq![f[0]]);
        reveal_with_fuel(joined, 4);
        assert(joined(f, '.') =~= (f[0].push('.') + f[1]).push('.') + f[2].push('.') + f[3]);
        assert(out@ =~= before + ipv4_text(ip));
    }
}

/// One more segment adds a colon, unless it is the first, and its digits.
proof fn lemma_segments_text_push(g: Seq<u16>, x: u16)
    ensures
        segments_text(g.push(x)) == (if g.len() == 0 {
            number_text(x as nat, 16)
        } else {
            segments_text(g).push(':') + number_text(x as nat, 16)
        }),
{
    let f = g.push(x).map_values(|x: u16| number_text(x as nat, 16));
    assert(f.drop_last() =~= g.map_values(|x: u16| number_text(x as nat, 16)));
}

fn push_segments(out: &mut String, g: &[u16; 8], from: usize, to: usize)
    requires
        from <= to <= 8,
    ensures
        final(out)@ == old(out)@ + segments_text(g@.subrange(from as int, to as int)),
{
    let ghost before = out@;
    proof {
        reveal_strlit(":");
        assert(":"@ =~= seq![':']);
        assert(out@ =~= before + segments_text(g@.subrange(from as int, from as int)));
    }
    for i in from..to
        invariant
            from <= to <= 8,
            ":"@ == seq![':'],
            out@ == before + segments_text(g@.subrange(from as int, i as int)),
    {
        proof {
            let sub = g@.subrange(from as int, i as int);
            lemma_segments_text_push(sub, g@[i as int]);
            assert(sub.push(g@[i as int]) =~= g@.subrange(from as int, i + 1));
            if sub.len() == 0 {
                assert(out@ =~= before);
            }
        }
        let ghost mid = out@;
        if i > from {
            out.append(":");
        }
        push_number(out, g[i] as u32, 16);
        assert(out@ =~= before + segments_text(g@.subrange(from as int, i + 1)));
    }
}

fn zeros_at(g: &[u16; 8], i: usize) -> (r: usize)
    requires
        i <= 8,
    ensures
        r == zero_run(g@, i as int),
        i + r <= 8,
{
    let mut j: usize = i;
    while j < 8 && g[j] == 0
        invariant
            i <= j <= 8,
            zero_run(g@, i as int) == (j - i) + zero_run(g@, j as int),
        decreases 8 - j,
    {
        j += 1;
    }
    j - i
}

fn push_ipv6(out: &mut String, ip: Ipv6Addr)
    ensures
        final(out)@ == old(out)@ + ipv6_text(ip),
{
    let ghost before = out@;
    match ip.to_ipv4_mapped() {
        Some(v4) => {
            proof {
                reveal_strlit("::ffff:");
                assert("::ffff:"@ =~= seq![':', ':', 'f', 'f', 'f', 'f', ':']);
            }
            out.append("::ffff:");
            push_ipv4(out, v4);
            assert(out@ =~= before + ipv6_text(ip));
        },
        None => {
            let g = ip.segments();
            let mut start: usize = 0;
            let mut len: usize = zeros_at(&g, 0);
            for i in 1..8usize
                invariant
                    start == longest_zero_run(g@, i as nat),
                    start < 8,
                    len == zero_run(g@, start as int),
                    start + len <= 8,
            {
                let here = zeros_at(&g, i);
                if here > len {
                    start = i;
                    len = here;
                }
            }
            if len > 1 {
                proof {
                    reveal_strlit("::");
                    assert("::"@ =~= seq![':', ':']);
                    assert(g@.subrange(0, start as int) =~= g@.take(start as int));
                    assert(g@.subrange(start + len, 8) =~= g@.skip(start + len));
                }
                push_segments(out, &g, 0, start);
                out.append("::");
                push_segments(out, &g, start + len, 8);
                assert(out@ =~= before + ipv6_text(ip));
            } else {
                assert(g@.subrange(0, 8) =~= g@);
                push_segments(out, &g, 0, 8);
            }
        },
    }
}

/// Writes an IP address of either family.
pub fn format_ip(ip: IpAddr) -> (r: String)
    ensures
        r@ == ip_text(ip),
{
    proof {
        reveal(ip_text);
    }
    let mut out = String::new();
    assert(out@ =~= Seq::empty());
    match ip {
        IpAddr::V4(v4) => push_ipv4(&mut out, v4),
        IpAddr::V6(v6) => push_ipv6(&mut out, v6),
    }
    assert(out@ =~= ip_text(ip));
    out
}

} // verus!

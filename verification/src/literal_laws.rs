//! Which texts name an address, and which text an address is given.
use vstd::prelude::*;

use crate::addr::{octet_pair, IpAddr, Ipv4Addr, Ipv6Addr};
use crate::literal::{
    all_digits, digit, digit_char, fields, first_gap, ip_of, ip_text, ipv4_of, ipv4_text, ipv6_of,
    joined, last_segments, lemma_first_gap, lemma_first_gap_at, longest_zero_run, number_text,
    octet_of, octet_texts, segment_of, segments_of, segments_text, value, zero_run, zeros,
};
use crate::roundtrip::{
    lemma_digit_char, lemma_fields_joined, lemma_fields_plain,
    lemma_ipv4_text, lemma_joined_tight, lemma_longest_zero_run, lemma_number_text, lemma_octet_text,
    lemma_segment_text, lemma_zero_run, tight,
};

verus! {

/// A digit counts by its place in `0` to `9` or, in either case, from ten on in `a` to
/// `f`; nothing else is a digit. The digit written for a number is in lower case.
pub proof fn what_a_digit_counts(c: char, d: nat)
    ensures
        '0' <= c <= '9' ==> digit(c) == c as int - '0' as int,
        'a' <= c <= 'f' ==> digit(c) == c as int - 'a' as int + 10,
        'A' <= c <= 'F' ==> digit(c) == c as int - 'A' as int + 10,
        !('0' <= c <= '9') && !('a' <= c <= 'f') && !('A' <= c <= 'F') ==> digit(c) >= 16,
        d < 16 ==> digit(digit_char(d)) == d && !('A' <= digit_char(d) <= 'F'),
{
    if d < 16 {
        lemma_digit_char(d);
    }
}

/// Joining sets the separator between fields, and nowhere else.
pub proof fn what_joining_gives(f: Seq<Seq<char>>, b: Seq<char>, sep: char)
    ensures
        joined(seq![b], sep) == b,
        f.len() > 0 ==> joined(f.push(b), sep) == joined(f, sep) + seq![sep] + b,
{
    assert(f.push(b).drop_last() =~= f);
    if f.len() > 0 {
        assert(joined(f.push(b), sep) =~= joined(f, sep) + seq![sep] + b);
    }
}

/// Fields are what was joined: joining them gives the text back, and none holds the
/// separator. Fields without the separator that are joined are found again.
pub proof fn fields_are_what_was_joined(s: Seq<char>, f: Seq<Seq<char>>, sep: char, k: int)
    ensures
        fields(s, sep).len() > 0,
        joined(fields(s, sep), sep) == s,
        0 <= k < fields(s, sep).len() ==> !fields(s, sep)[k].contains(sep),
        f.len() > 0 && (forall|i: int| 0 <= i < f.len() ==> !(#[trigger] f[i]).contains(sep))
            ==> fields(joined(f, sep), sep) == f,
    decreases s.len(),
{
    if f.len() > 0 && (forall|i: int| 0 <= i < f.len() ==> !(#[trigger] f[i]).contains(sep)) {
        lemma_fields_joined(f, sep);
    }
    if s.len() == 0 {
        assert(joined(fields(s, sep), sep) =~= s);
    } else {
        let t = s.drop_last();
        let g = fields(t, sep);
        fields_are_what_was_joined(t, f, sep, k);
        assert(s =~= t.push(s.last()));
        if s.last() == sep {
            what_joining_gives(g, Seq::empty(), sep);
            assert(joined(fields(s, sep), sep) =~= s);
        } else {
            let head = g.drop_last();
            let b = g.last().push(s.last());
            assert(head.push(g.last()) =~= g);
            what_joining_gives(head, g.last(), sep);
            what_joining_gives(head, b, sep);
            if head.len() == 0 {
                assert(head.push(b) =~= seq![b]);
                assert(g =~= seq![g.last()]);
            }
            assert(joined(fields(s, sep), sep) =~= s);
            if k == g.len() - 1 && b.contains(sep) {
                let m = choose|m: int| 0 <= m < b.len() && b[m] == sep;
                fields_are_what_was_joined(t, f, sep, g.len() - 1);
                assert(g.last()[m] == sep);
                assert(g.last().contains(sep));
            }
        }
    }
}

proof fn lemma_leading_digit(s: Seq<char>)
    requires
        s.len() > 0,
        all_digits(s, 10),
        s[0] != '0',
    ensures
        value(s, 10) > 0,
    decreases s.len(),
{
    let t = s.drop_last();
    assert(digit(s[0]) < 10);
    if s.len() > 1 {
        assert forall|i: int| 0 <= i < t.len() implies digit(#[trigger] t[i]) < 10 by {
            assert(t[i] == s[i]);
        }
        lemma_leading_digit(t);
    } else {
        assert(value(t, 10) == 0);
        assert(s.last() == s[0]);
    }
}

/// Decimal digits without a leading zero are the text of the number that they spell.
proof fn lemma_decimal(s: Seq<char>)
    requires
        s.len() > 0,
        all_digits(s, 10),
        s.len() == 1 || s[0] != '0',
    ensures
        s == number_text(value(s, 10), 10),
    decreases s.len(),
{
    let t = s.drop_last();
    let d = digit(s.last());
    assert(digit(s[s.len() - 1]) < 10);
    assert(digit_char(d) == s.last());
    assert(s =~= t.push(s.last()));
    if s.len() == 1 {
        assert(value(t, 10) == 0);
        assert(value(s, 10) == d);
        assert(number_text(d, 10) =~= s);
    } else {
        assert forall|i: int| 0 <= i < t.len() implies digit(#[trigger] t[i]) < 10 by {
            assert(t[i] == s[i]);
        }
        lemma_leading_digit(t);
        lemma_decimal(t);
        let n = value(s, 10);
        assert(n == value(t, 10) * 10 + d);
        assert(n / 10 == value(t, 10) && n % 10 == d);
        assert(number_text(n, 10) == number_text(n / 10, 10).push(digit_char(n % 10)));
    }
}

/// The text of an octet has one to three decimal digits, the first of which is a zero in
/// `0` alone, and they spell the octet.
pub proof fn an_octet_is_written_in_decimal(x: u8)
    ensures
        ({
            let s = number_text(x as nat, 10);
            &&& 1 <= s.len() <= 3
            &&& forall|i: int| 0 <= i < s.len() ==> '0' <= #[trigger] s[i] <= '9'
            &&& s[0] == '0' ==> s.len() == 1
            &&& s.len() == 1 ==> x == s[0] as int - '0' as int
            &&& s.len() == 2 ==> x == (s[0] as int - '0' as int) * 10 + (s[1] as int - '0' as int)
            &&& s.len() == 3 ==> x == (s[0] as int - '0' as int) * 100 + (s[1] as int - '0' as int)
                * 10 + (s[2] as int - '0' as int)
        }),
{
    let s = number_text(x as nat, 10);
    lemma_octet_text(x);
    lemma_number_text(x as nat, 10);
    assert forall|i: int| 0 <= i < s.len() implies '0' <= #[trigger] s[i] <= '9' by {
        assert(digit(s[i]) < 10);
    }
    reveal_with_fuel(value, 4);
    if s.len() >= 2 {
        assert(s.drop_last()[0] == s[0]);
        if s.len() == 3 {
            assert(s.drop_last().last() == s[1]);
            assert(s.drop_last().drop_last()[0] == s[0]);
        }
    }
}

/// A text is read as an octet exactly if it is the text of that octet.
pub proof fn only_its_text_reads_as_an_octet(s: Seq<char>, x: u8)
    ensures
        octet_of(s) == Some(x) <==> s == number_text(x as nat, 10),
{
    lemma_octet_text(x);
    if octet_of(s) == Some(x) {
        lemma_decimal(s);
    }
}

/// A text reads as a segment exactly if it has one to four hexadecimal digits, which
/// spell the segment.
pub proof fn what_reads_as_a_segment(s: Seq<char>, x: u16)
    ensures
        segment_of(s) == Some(x) <==> {
            &&& 1 <= s.len() <= 4
            &&& forall|i: int| 0 <= i < s.len() ==> digit(#[trigger] s[i]) < 16
            &&& s.len() == 1 ==> x == digit(s[0])
            &&& s.len() == 2 ==> x == digit(s[0]) * 16 + digit(s[1])
            &&& s.len() == 3 ==> x == digit(s[0]) * 256 + digit(s[1]) * 16 + digit(s[2])
            &&& s.len() == 4 ==> x == digit(s[0]) * 4096 + digit(s[1]) * 256 + digit(s[2]) * 16
                + digit(s[3])
        },
{
    if 1 <= s.len() <= 4 && all_digits(s, 16) {
        reveal_with_fuel(value, 5);
        assert(digit(s[0]) < 16);
        if s.len() >= 2 {
            let t = s.drop_last();
            assert(digit(s[1]) < 16);
            assert(t[0] == s[0]);
            if s.len() >= 3 {
                let u = t.drop_last();
                assert(digit(s[2]) < 16);
                assert(t.last() == s[s.len() - 2]);
                assert(u[0] == s[0]);
                if s.len() == 4 {
                    assert(digit(s[3]) < 16);
                    assert(u.last() == s[1]);
                    assert(u.drop_last()[0] == s[0]);
                }
            }
        }
    }
}

/// The text of a segment has lower-case hexadecimal digits without a leading zero, and
/// reads as that segment.
pub proof fn a_segment_is_written_in_lower_case(x: u16, i: int)
    ensures
        segment_of(number_text(x as nat, 16)) == Some(x),
        0 <= i < number_text(x as nat, 16).len() ==> !('A' <= number_text(x as nat, 16)[i] <= 'F'),
        number_text(x as nat, 16)[0] == '0' ==> x == 0,
        x == 0 ==> number_text(x as nat, 16).len() == 1,
{
    lemma_segment_text(x);
    lemma_number_text(x as nat, 16);
    lemma_lower_case(x as nat, i);
}

proof fn lemma_lower_case(n: nat, i: int)
    ensures
        0 <= i < number_text(n, 16).len() ==> !('A' <= number_text(n, 16)[i] <= 'F'),
    decreases n,
{
    if n >= 16 {
        lemma_lower_case(n / 16, i);
        lemma_digit_char(n % 16);
    } else {
        lemma_digit_char(n);
    }
}

/// The text of an IPv4 address is that of its four octets in order, with dots between
/// them.
pub proof fn an_ipv4_address_is_written_with_dots(ip: Ipv4Addr)
    ensures
        ipv4_text(ip) == number_text(ip.a as nat, 10) + seq!['.'] + number_text(ip.b as nat, 10)
            + seq!['.'] + number_text(ip.c as nat, 10) + seq!['.'] + number_text(ip.d as nat, 10),
{
    let f = octet_texts(ip);
    assert(f.len() == 4);
    let f1 = seq![f[0]];
    let f2 = f1.push(f[1]);
    let f3 = f2.push(f[2]);
    assert(f =~= f3.push(f[3]));
    what_joining_gives(f1, f[0], '.');
    what_joining_gives(f1, f[1], '.');
    what_joining_gives(f2, f[2], '.');
    what_joining_gives(f3, f[3], '.');
}

/// A text reads as an IPv4 address exactly if it is the text of that address.
pub proof fn only_its_text_reads_as_ipv4(s: Seq<char>, ip: Ipv4Addr)
    ensures
        ipv4_of(s) == Some(ip) <==> s == ipv4_text(ip),
{
    lemma_ipv4_text(ip);
    if ipv4_of(s) == Some(ip) {
        let f = fields(s, '.');
        only_its_text_reads_as_an_octet(f[0], ip.a);
        only_its_text_reads_as_an_octet(f[1], ip.b);
        only_its_text_reads_as_an_octet(f[2], ip.c);
        only_its_text_reads_as_an_octet(f[3], ip.d);
        assert(f =~= octet_texts(ip));
        fields_are_what_was_joined(s, f, '.', 0);
    }
}

/// `f` are texts that read as the segments `g`, one by one.
pub open spec fn spells(f: Seq<Seq<char>>, g: Seq<u16>) -> bool {
    f.len() == g.len() && forall|i: int|
        0 <= i < f.len() ==> segment_of(#[trigger] f[i]) == Some(g[i])
}

/// The fields `f`, and a dotted address behind them if there is one.
pub open spec fn with_dotted(f: Seq<Seq<char>>, d: Option<Ipv4Addr>) -> Seq<Seq<char>> {
    match d {
        Some(ip) => f.push(ipv4_text(ip)),
        None => f,
    }
}

/// The segments `g`, and the two of a dotted address behind them if there is one.
pub open spec fn with_octets(g: Seq<u16>, d: Option<Ipv4Addr>) -> Seq<u16> {
    match d {
        Some(ip) => g + seq![(ip.a * 0x100 + ip.b) as u16, (ip.c * 0x100 + ip.d) as u16],
        None => g,
    }
}

/// `s` gives all of the address `ip`: its segments, the last two perhaps dotted, with
/// colons between them.
pub open spec fn written_in_full(
    s: Seq<char>,
    ip: Ipv6Addr,
    f: Seq<Seq<char>>,
    g: Seq<u16>,
    d: Option<Ipv4Addr>,
) -> bool {
    &&& spells(f, g)
    &&& s == joined(with_dotted(f, d), ':')
    &&& ip.segs() == with_octets(g, d)
}

/// `s` gives the first and the last segments of the address `ip`, the last two perhaps
/// dotted, and `::` for at least one segment between them, which are all zero.
pub open spec fn written_with_gap(
    s: Seq<char>,
    ip: Ipv6Addr,
    head: (Seq<Seq<char>>, Seq<u16>),
    tail: (Seq<Seq<char>>, Seq<u16>),
    d: Option<Ipv4Addr>,
) -> bool {
    let n = 8 - head.1.len() - with_octets(tail.1, d).len();
    &&& spells(head.0, head.1)
    &&& spells(tail.0, tail.1)
    &&& n >= 1
    &&& s == joined(head.0, ':') + seq![':', ':'] + joined(with_dotted(tail.0, d), ':')
    &&& ip.segs() == head.1 + Seq::new(n as nat, |i: int| 0u16) + with_octets(tail.1, d)
}

proof fn lemma_segment_plain(s: Seq<char>)
    requires
        segment_of(s) is Some,
    ensures
        s.len() > 0,
        !s.contains(':'),
        !s.contains('.'),
{
    if s.contains(':') {
        let i = choose|i: int| 0 <= i < s.len() && s[i] == ':';
        assert(digit(s[i]) < 16);
    }
    if s.contains('.') {
        let i = choose|i: int| 0 <= i < s.len() && s[i] == '.';
        assert(digit(s[i]) < 16);
    }
}

/// Fields that spell segments, with a dotted address behind them where one may stand,
/// are read as those segments.
proof fn lemma_read(f: Seq<Seq<char>>, g: Seq<u16>, d: Option<Ipv4Addr>, dotted: bool)
    requires
        spells(f, g),
        d is Some ==> dotted,
    ensures
        segments_of(joined(with_dotted(f, d), ':'), dotted) == Some(with_octets(g, d)),
        with_dotted(f, d).len() == 0 ==> joined(with_dotted(f, d), ':').len() == 0,
        with_dotted(f, d).len() > 0 ==> tight(joined(with_dotted(f, d), ':')),
{
    let fs = with_dotted(f, d);
    let s = joined(fs, ':');
    if fs.len() == 0 {
        assert(with_octets(g, d) =~= Seq::empty());
    } else {
        assert forall|i: int| 0 <= i < fs.len() implies (#[trigger] fs[i]).len() > 0
            && !fs[i].contains(':') by {
            if i < f.len() {
                assert(fs[i] == f[i]);
                lemma_segment_plain(f[i]);
            } else {
                lemma_ipv4_text(d->0);
            }
        }
        lemma_fields_joined(fs, ':');
        lemma_joined_tight(fs);
        let last = fs.len() - 1;
        assert forall|i: int| 0 <= i < last implies segment_of(#[trigger] fs[i]) == Some(g[i]) by {
            assert(fs[i] == f[i]);
        }
        match d {
            Some(ip) => {
                let t = ipv4_text(ip);
                lemma_ipv4_text(ip);
                if segment_of(t) is Some {
                    lemma_segment_plain(t);
                }
                assert(fs.last() == t);
                assert(last_segments(t, dotted) == Some(
                    seq![octet_pair(ip.a, ip.b), octet_pair(ip.c, ip.d)],
                ));
                assert(Seq::new(last as nat, |i: int| segment_of(fs[i])->0) =~= g);
            },
            None => {
                assert(fs[last] == f[last]);
                assert(last_segments(fs.last(), dotted) == Some(seq![g[last]]));
                assert(Seq::new(last as nat, |i: int| segment_of(fs[i])->0) + seq![g[last]] =~= g);
            },
        }
    }
}

/// What is read as segments is made of fields that spell them.
proof fn lemma_parts(s: Seq<char>, dotted: bool) -> (r: (
    Seq<Seq<char>>,
    Seq<u16>,
    Option<Ipv4Addr>,
))
    requires
        segments_of(s, dotted) is Some,
    ensures
        spells(r.0, r.1),
        s == joined(with_dotted(r.0, r.2), ':'),
        segments_of(s, dotted)->0 == with_octets(r.1, r.2),
        r.2 is Some ==> dotted,
{
    let v = segments_of(s, dotted)->0;
    if s.len() == 0 {
        let f = Seq::<Seq<char>>::empty();
        assert(joined(f, ':') =~= s);
        (f, Seq::empty(), None)
    } else {
        let f = fields(s, ':');
        fields_are_what_was_joined(s, f, ':', 0);
        let init = f.drop_last();
        let g = Seq::new((f.len() - 1) as nat, |i: int| segment_of(f[i])->0);
        assert(init.push(f.last()) =~= f);
        match segment_of(f.last()) {
            Some(x) => {
                assert forall|i: int| 0 <= i < f.len() implies segment_of(#[trigger] f[i]) == Some(
                    g.push(x)[i],
                ) by {}
                assert(v =~= g.push(x));
                (f, g.push(x), None)
            },
            None => {
                let ip = ipv4_of(f.last())->0;
                only_its_text_reads_as_ipv4(f.last(), ip);
                assert forall|i: int| 0 <= i < init.len() implies segment_of(#[trigger] init[i])
                    == Some(g[i]) by {
                    assert(init[i] == f[i]);
                }
                assert(v =~= with_octets(g, Some(ip)));
                (init, g, Some(ip))
            },
        }
    }
}

/// A text that gives all segments of an address reads as that address.
pub proof fn an_address_in_full_is_read(
    s: Seq<char>,
    ip: Ipv6Addr,
    f: Seq<Seq<char>>,
    g: Seq<u16>,
    d: Option<Ipv4Addr>,
)
    requires
        written_in_full(s, ip, f, g, d),
    ensures
        ipv6_of(s) == Some(ip),
{
    lemma_read(f, g, d, true);
    lemma_first_gap(s);
    assert(ip.segs().len() == 8);
    if let Some(i) = first_gap(s) {
        assert(with_dotted(f, d).len() > 0);
        assert(!(s[i] == ':' && s[i + 1] == ':'));
    }
}

/// A text that gives an address with `::` for a row of zeros reads as that address.
pub proof fn an_address_with_a_gap_is_read(
    s: Seq<char>,
    ip: Ipv6Addr,
    head: (Seq<Seq<char>>, Seq<u16>),
    tail: (Seq<Seq<char>>, Seq<u16>),
    d: Option<Ipv4Addr>,
)
    requires
        written_with_gap(s, ip, head, tail, d),
    ensures
        ipv6_of(s) == Some(ip),
{
    let h = joined(head.0, ':');
    let t = joined(with_dotted(tail.0, d), ':');
    let i = h.len() as int;
    lemma_read(head.0, head.1, None, false);
    lemma_read(tail.0, tail.1, d, true);
    assert(s[i] == ':' && s[i + 1] == ':');
    assert forall|j: int| 0 <= j < i implies !(#[trigger] s[j] == ':' && s[j + 1] == ':') by {
        assert(s[j] == h[j]);
        if j < i - 1 {
            assert(s[j + 1] == h[j + 1]);
        } else {
            assert(h[j] == h.last());
        }
    }
    lemma_first_gap_at(s, i);
    assert(s.take(i) =~= h);
    assert(s.skip(i + 2) =~= t);
    let n = 8 - head.1.len() - with_octets(tail.1, d).len();
    assert(head.1 + zeros(n) + with_octets(tail.1, d) =~= ip.segs());
}

proof fn lemma_segs(g: Seq<u16>)
    requires
        g.len() == 8,
    ensures
        Ipv6Addr::of_segs(g).segs() == g,
{
    assert(Ipv6Addr::of_segs(g).segs() =~= g);
}

proof fn lemma_full_form(s: Seq<char>, ip: Ipv6Addr) -> (r: (
    Seq<Seq<char>>,
    Seq<u16>,
    Option<Ipv4Addr>,
))
    requires
        ipv6_of(s) == Some(ip),
        first_gap(s) is None,
    ensures
        written_in_full(s, ip, r.0, r.1, r.2),
{
    lemma_segs(segments_of(s, true)->0);
    lemma_parts(s, true)
}

proof fn lemma_gapped_form(s: Seq<char>, ip: Ipv6Addr, i: int) -> (r: (
    (Seq<Seq<char>>, Seq<u16>),
    (Seq<Seq<char>>, Seq<u16>),
    Option<Ipv4Addr>,
))
    requires
        ipv6_of(s) == Some(ip),
        first_gap(s) == Some(i),
    ensures
        written_with_gap(s, ip, r.0, r.1, r.2),
{
    lemma_first_gap(s);
    let head = segments_of(s.take(i), false)->0;
    let tail = segments_of(s.skip(i + 2), true)->0;
    let (hf, h, none) = lemma_parts(s.take(i), false);
    let (tf, t, d) = lemma_parts(s.skip(i + 2), true);
    let n = 8 - head.len() - tail.len();
    lemma_segs(head + zeros(n) + tail);
    assert(s =~= s.take(i) + seq![':', ':'] + s.skip(i + 2));
    ((hf, h), (tf, t), d)
}

/// A text reads as an IPv6 address only if it gives that address in full, or with `::`
/// for a row of zeros.
pub proof fn nothing_else_reads_as_ipv6(s: Seq<char>, ip: Ipv6Addr)
    requires
        ipv6_of(s) == Some(ip),
    ensures
        (exists|f: Seq<Seq<char>>, g: Seq<u16>, d: Option<Ipv4Addr>| #[trigger]
            written_in_full(s, ip, f, g, d)) || (exists|
            head: (Seq<Seq<char>>, Seq<u16>),
            tail: (Seq<Seq<char>>, Seq<u16>),
            d: Option<Ipv4Addr>,
        | #[trigger]
            written_with_gap(s, ip, head, tail, d)),
{
    match first_gap(s) {
        Some(i) => {
            let (head, tail, d) = lemma_gapped_form(s, ip, i);
            assert(written_with_gap(s, ip, head, tail, d));
        },
        None => {
            let (f, g, d) = lemma_full_form(s, ip);
            assert(written_in_full(s, ip, f, g, d));
        },
    }
}

proof fn lemma_colon_in_ipv6(s: Seq<char>)
    requires
        ipv6_of(s) is Some,
    ensures
        s.contains(':'),
{
    lemma_first_gap(s);
    match first_gap(s) {
        Some(i) => {
            assert(s.contains(s[i]));
        },
        None => {
            if !s.contains(':') {
                lemma_fields_plain(s, ':');
                assert(fields(s, ':').len() == 1);
                assert(segments_of(s, true)->0.len() <= 2);
            }
        },
    }
}

/// A text names an IPv4 address exactly if it is the text of that address, and an IPv6
/// address exactly if it reads as that; no text names both.
pub proof fn a_text_names_one_family(s: Seq<char>, v4: Ipv4Addr, v6: Ipv6Addr)
    ensures
        ip_of(s) == Some(IpAddr::V4(v4)) <==> s == ipv4_text(v4),
        ip_of(s) == Some(IpAddr::V6(v6)) <==> ipv6_of(s) == Some(v6),
        ip_text(IpAddr::V4(v4)) == ipv4_text(v4),
{
    reveal(ip_of);
    reveal(ip_text);
    only_its_text_reads_as_ipv4(s, v4);
    if ipv6_of(s) is Some && ipv4_of(s) is Some {
        let ip = ipv4_of(s)->0;
        lemma_colon_in_ipv6(s);
        only_its_text_reads_as_ipv4(s, ip);
        lemma_ipv4_text(ip);
    }
}

/// Every segment in `g` from `i` up to `i + n` is zero.
pub open spec fn zero_row(g: Seq<u16>, i: int, n: int) -> bool {
    0 <= i && 0 <= n && i + n <= g.len() && forall|k: int| i <= k < i + n ==> g[k] == 0
}

/// The row of `n` zeros at `i` is the longest in `g`, and the first of that length.
pub open spec fn longest_row(g: Seq<u16>, i: int, n: int) -> bool {
    &&& zero_row(g, i, n)
    &&& forall|j: int, m: int| #[trigger] zero_row(g, j, m) && m > 0 ==> m < n || (m == n && i <= j)
}

/// The texts of segments.
pub open spec fn hex_texts(g: Seq<u16>) -> Seq<Seq<char>> {
    Seq::new(g.len(), |i: int| number_text(g[i] as nat, 16))
}

proof fn lemma_row_in_run(g: Seq<u16>, i: int, n: int)
    requires
        zero_row(g, i, n),
    ensures
        zero_run(g, i) >= n,
    decreases n,
{
    if n > 0 {
        assert(g[i] == 0);
        assert(zero_row(g, i + 1, n - 1));
        lemma_row_in_run(g, i + 1, n - 1);
    }
}

proof fn lemma_longest(g: Seq<u16>, n: nat, i: int)
    requires
        0 <= i < n,
    ensures
        zero_run(g, i) <= zero_run(g, longest_zero_run(g, n)),
        i < longest_zero_run(g, n) ==> zero_run(g, i) < zero_run(g, longest_zero_run(g, n)),
    decreases n,
{
    if n > 1 {
        if i < n - 1 {
            lemma_longest(g, (n - 1) as nat, i);
        }
        lemma_longest_zero_run(g, (n - 1) as nat);
    }
}

/// An IPv6 address in `::ffff:0:0/96` is written with a dotted address at its end.
pub proof fn a_mapped_address_ends_dotted(ip: Ipv6Addr, v4: Ipv4Addr)
    requires
        ip.s0 == 0 && ip.s1 == 0 && ip.s2 == 0 && ip.s3 == 0 && ip.s4 == 0 && ip.s5 == 0xffff,
        v4.a * 0x100 + v4.b == ip.s6,
        v4.c * 0x100 + v4.d == ip.s7,
    ensures
        ip_text(IpAddr::V6(ip)) == seq![':', ':', 'f', 'f', 'f', 'f', ':'] + ipv4_text(v4),
{
    reveal(ip_text);
    assert(ip.low_v4() == v4);
}

/// Any other IPv6 address is written with `::` for its first longest row of two zeros or
/// more, and in full where it has none.
pub proof fn the_longest_row_of_zeros_is_left_out(ip: Ipv6Addr)
    requires
        !(ip.s0 == 0 && ip.s1 == 0 && ip.s2 == 0 && ip.s3 == 0 && ip.s4 == 0 && ip.s5 == 0xffff),
    ensures
        ({
            let g = ip.segs();
            let s = ip_text(IpAddr::V6(ip));
            ||| (forall|i: int| !#[trigger] zero_row(g, i, 2)) && s == joined(hex_texts(g), ':')
            ||| exists|i: int, n: int| #[trigger]
                longest_row(g, i, n) && n >= 2 && s == joined(hex_texts(g.take(i)), ':') + seq![
                    ':',
                    ':',
                ] + joined(hex_texts(g.skip(i + n)), ':')
        }),
{
    reveal(ip_text);
    let g = ip.segs();
    let start = longest_zero_run(g, 8);
    let len = zero_run(g, start) as int;
    lemma_longest_zero_run(g, 8);
    lemma_zero_run(g, start);
    assert forall|j: int, m: int| #[trigger] zero_row(g, j, m) && m > 0 implies m < len || (m
        == len && start <= j) by {
        lemma_row_in_run(g, j, m);
        lemma_longest(g, 8, j);
    }
    assert(g.map_values(|x: u16| number_text(x as nat, 16)) =~= hex_texts(g));
    if len > 1 {
        let (a, b) = (g.take(start), g.skip(start + len));
        assert(a.map_values(|x: u16| number_text(x as nat, 16)) =~= hex_texts(a));
        assert(b.map_values(|x: u16| number_text(x as nat, 16)) =~= hex_texts(b));
        assert(longest_row(g, start, len));
    } else {
        assert forall|i: int| !#[trigger] zero_row(g, i, 2) by {
            if zero_row(g, i, 2) {
                assert(2 < len || (2 == len && start <= i));
            }
        }
    }
}

} // verus!

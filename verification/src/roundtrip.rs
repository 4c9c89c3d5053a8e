//! What is written for an address is read back as that address.
use vstd::arithmetic::div_mod::{lemma_div_decreases, lemma_fundamental_div_mod};
use vstd::prelude::*;

use crate::addr::{octet_pair, IpAddr, Ipv4Addr, Ipv6Addr};
use crate::literal::{
    all_digits, digit, digit_char, fields, first_gap, ip_of, ip_text, ipv4_of, ipv4_text, ipv6_of,
    ipv6_text, joined, last_segments, lemma_fields_nonempty, lemma_first_gap_at, lemma_no_gap,
    longest_zero_run, number_text, octet_of, octet_texts, segment_of, segments_of, segments_text,
    value, zero_run, zeros,
};

verus! {

pub(crate) proof fn lemma_fields_append(a: Seq<char>, sep: char, b: Seq<char>)
    requires
        !b.contains(sep),
    ensures
        fields(a.push(sep) + b, sep) == fields(a, sep).push(b),
    decreases b.len(),
{
    let s = a.push(sep) + b;
    if b.len() == 0 {
        assert(s =~= a.push(sep));
        assert(s.drop_last() =~= a);
        assert(b =~= Seq::empty());
    } else {
        let b0 = b.drop_last();
        assert forall|i: int| 0 <= i < b0.len() implies b0[i] != sep by {
            assert(b[i] == b0[i]);
            assert(b.contains(b[i]));
        }
        lemma_fields_append(a, sep, b0);
        assert(s.drop_last() =~= a.push(sep) + b0);
        assert(s.last() == b.last());
        assert(b.contains(b.last()));
        assert(b0.push(b.last()) =~= b);
        assert(fields(a, sep).push(b0).drop_last() =~= fields(a, sep));
    }
}

pub(crate) proof fn lemma_fields_plain(b: Seq<char>, sep: char)
    requires
        !b.contains(sep),
    ensures
        fields(b, sep) == seq![b],
    decreases b.len(),
{
    if b.len() == 0 {
        assert(b =~= Seq::empty());
    } else {
        let b0 = b.drop_last();
        assert forall|i: int| 0 <= i < b0.len() implies b0[i] != sep by {
            assert(b.contains(b[i]));
        }
        lemma_fields_plain(b0, sep);
        assert(b.contains(b.last()));
        assert(b0.push(b.last()) =~= b);
        assert(fields(b, sep) =~= seq![b]);
    }
}

/// Joining fields and splitting again gives the fields back.
pub(crate) proof fn lemma_fields_joined(f: Seq<Seq<char>>, sep: char)
    requires
        f.len() > 0,
        forall|i: int| 0 <= i < f.len() ==> !(#[trigger] f[i]).contains(sep),
    ensures
        fields(joined(f, sep), sep) == f,
    decreases f.len(),
{
    if f.len() == 1 {
        lemma_fields_plain(f[0], sep);
        assert(f =~= seq![f[0]]);
    } else {
        lemma_fields_joined(f.drop_last(), sep);
        lemma_fields_append(joined(f.drop_last(), sep), sep, f.last());
        assert(f =~= f.drop_last().push(f.last()));
    }
}

/// A character other than the separator lands in some field.
pub(crate) proof fn lemma_char_in_field(s: Seq<char>, sep: char, i: int)
    requires
        0 <= i < s.len(),
        s[i] != sep,
    ensures
        exists|k: int| 0 <= k < fields(s, sep).len() && (#[trigger] fields(s, sep)[k]).contains(s[i]),
    decreases s.len(),
{
    let t = s.drop_last();
    let f = fields(t, sep);
    let g = fields(s, sep);
    lemma_fields_nonempty(t, sep);
    if i < t.len() {
        lemma_char_in_field(t, sep, i);
        let k = choose|k: int| 0 <= k < f.len() && (#[trigger] f[k]).contains(t[i]);
        let m = choose|m: int| 0 <= m < f[k].len() && f[k][m] == t[i];
        assert(g[k][m] == s[i]);
        assert(g[k].contains(s[i]));
    } else {
        assert(g.last()[g.last().len() - 1] == s[i]);
        assert(g[g.len() - 1].contains(s[i]));
    }
}

pub(crate) proof fn lemma_digit_char(d: nat)
    requires
        d < 16,
    ensures
        digit(digit_char(d)) == d,
        digit_char(d) != ':',
        digit_char(d) != '.',
        digit_char(d) == '0' ==> d == 0,
{
}

/// The text of a number spells that number, with no leading zero.
pub(crate) proof fn lemma_number_text(n: nat, radix: nat)
    requires
        2 <= radix <= 16,
    ensures
        number_text(n, radix).len() >= 1,
        all_digits(number_text(n, radix), radix),
        value(number_text(n, radix), radix) == n,
        n > 0 ==> number_text(n, radix)[0] != '0',
        !number_text(n, radix).contains(':'),
        !number_text(n, radix).contains('.'),
    decreases n,
{
    let s = number_text(n, radix);
    if n < radix {
        lemma_digit_char(n);
        assert(s.drop_last() =~= Seq::empty());
        assert(value(s, radix) == value(s.drop_last(), radix) * radix + n);
        assert(value(s.drop_last(), radix) * radix == 0) by (nonlinear_arith)
            requires
                value(s.drop_last(), radix) == 0,
        ;
    } else {
        lemma_div_decreases(n as int, radix as int);
        lemma_fundamental_div_mod(n as int, radix as int);
        vstd::arithmetic::div_mod::lemma_div_non_zero(n as int, radix as int);
        let t = number_text(n / radix, radix);
        lemma_number_text(n / radix, radix);
        lemma_digit_char(n % radix);
        assert(s.drop_last() =~= t);
        assert(s.last() == digit_char(n % radix));
        assert((n / radix) * radix + n % radix == n) by {
            assert(radix * (n / radix) == (n / radix) * radix) by (nonlinear_arith);
        }
        assert(value(s, radix) == value(t, radix) * radix + n % radix);
        assert forall|i: int| 0 <= i < s.len() implies digit(#[trigger] s[i]) < radix && s[i] != ':'
            && s[i] != '.' by {
            if i < t.len() {
                assert(s[i] == t[i]);
                assert(t.contains(t[i]));
            }
        }
    }
}

pub(crate) proof fn lemma_octet_text(x: u8)
    ensures
        octet_of(number_text(x as nat, 10)) == Some(x),
{
    lemma_number_text(x as nat, 10);
    reveal_with_fuel(number_text, 3);
    assert(x as nat / 10 < 26);
    assert((x as nat / 10) / 10 < 3);
    assert(number_text(x as nat, 10).len() <= 3);
    if number_text(x as nat, 10).len() > 1 {
        assert(x > 0);
    }
}

pub(crate) proof fn lemma_segment_text(x: u16)
    ensures
        segment_of(number_text(x as nat, 16)) == Some(x),
{
    lemma_number_text(x as nat, 16);
    reveal_with_fuel(number_text, 4);
    assert(x as nat / 16 < 4096);
    assert((x as nat / 16) / 16 < 256);
    assert(((x as nat / 16) / 16) / 16 < 16);
    assert(number_text(x as nat, 16).len() <= 4);
}

/// A dotted address is read back.
pub(crate) proof fn lemma_ipv4_text(ip: Ipv4Addr)
    ensures
        ipv4_of(ipv4_text(ip)) == Some(ip),
        ipv4_text(ip).contains('.'),
        !ipv4_text(ip).contains(':'),
{
    let f = octet_texts(ip);
    assert forall|i: int| 0 <= i < f.len() implies !(#[trigger] f[i]).contains('.')
        && !f[i].contains(':') by {
        lemma_number_text(ip.octets()[i] as nat, 10);
    }
    lemma_fields_joined(f, '.');
    lemma_octet_text(ip.a);
    lemma_octet_text(ip.b);
    lemma_octet_text(ip.c);
    lemma_octet_text(ip.d);
    assert(f[0] == number_text(ip.a as nat, 10));
    assert(f[1] == number_text(ip.b as nat, 10));
    assert(f[2] == number_text(ip.c as nat, 10));
    assert(f[3] == number_text(ip.d as nat, 10));
    let s = ipv4_text(ip);
    lemma_joined_has_sep(f, '.');
    if s.contains(':') {
        let i = choose|i: int| 0 <= i < s.len() && s[i] == ':';
        lemma_char_in_field(s, '.', i);
        let k = choose|k: int| 0 <= k < f.len() && (#[trigger] f[k]).contains(s[i]);
        assert(f[k].contains(':'));
    }
}

proof fn lemma_joined_has_sep(f: Seq<Seq<char>>, sep: char)
    requires
        f.len() > 1,
    ensures
        joined(f, sep).contains(sep),
{
    let i = joined(f.drop_last(), sep).len() as int;
    assert(joined(f, sep)[i] == sep);
}

/// Text with no `::` in it, and no colon at either end.
pub(crate) open spec fn tight(s: Seq<char>) -> bool {
    &&& s.len() > 0
    &&& s[0] != ':'
    &&& s.last() != ':'
    &&& forall|j: int| 0 <= j < s.len() - 1 ==> !(#[trigger] s[j] == ':' && s[j + 1] == ':')
}

pub(crate) proof fn lemma_joined_tight(f: Seq<Seq<char>>)
    requires
        f.len() > 0,
        forall|i: int| 0 <= i < f.len() ==> (#[trigger] f[i]).len() > 0 && !f[i].contains(':'),
    ensures
        tight(joined(f, ':')),
    decreases f.len(),
{
    let s = joined(f, ':');
    let b = f.last();
    assert(b == f[f.len() - 1]);
    assert forall|i: int| 0 <= i < b.len() implies b[i] != ':' by {
        assert(b.contains(b[i]));
    }
    if f.len() > 1 {
        let a = joined(f.drop_last(), ':');
        lemma_joined_tight(f.drop_last());
        assert forall|j: int| 0 <= j < s.len() - 1 implies !(#[trigger] s[j] == ':' && s[j + 1]
            == ':') by {
            if j < a.len() - 1 {
                assert(s[j] == a[j] && s[j + 1] == a[j + 1]);
            } else if j == a.len() - 1 {
                assert(s[j] == a.last());
            } else {
                assert(s[j + 1] == b[j - a.len()]);
            }
        }
        assert(s[0] == a[0]);
        assert(s.last() == b.last());
    }
}

/// Segments are read back, whether or not a dotted address could stand last.
proof fn lemma_segments_text(g: Seq<u16>, dotted: bool)
    ensures
        segments_of(segments_text(g), dotted) == Some(g),
        g.len() == 0 ==> segments_text(g).len() == 0,
        g.len() > 0 ==> tight(segments_text(g)),
{
    let f = g.map_values(|x: u16| number_text(x as nat, 16));
    let s = segments_text(g);
    if g.len() == 0 {
        assert(g =~= Seq::empty());
    } else {
        assert forall|i: int| 0 <= i < f.len() implies (#[trigger] f[i]).len() > 0
            && !f[i].contains(':') && segment_of(f[i]) == Some(g[i]) by {
            lemma_number_text(g[i] as nat, 16);
            lemma_segment_text(g[i]);
        }
        lemma_fields_joined(f, ':');
        lemma_joined_tight(f);
        assert(last_segments(f.last(), dotted) == Some(seq![g.last()]));
        assert(Seq::new((f.len() - 1) as nat, |i: int| segment_of(f[i])->0) + seq![g.last()]
            =~= g);
    }
}

pub(crate) proof fn lemma_zero_run(g: Seq<u16>, i: int)
    requires
        0 <= i <= g.len(),
    ensures
        i + zero_run(g, i) <= g.len(),
        forall|k: int| i <= k < i + zero_run(g, i) ==> g[k] == 0,
    decreases g.len() - i,
{
    if i < g.len() && g[i] == 0 {
        lemma_zero_run(g, i + 1);
    }
}

pub(crate) proof fn lemma_longest_zero_run(g: Seq<u16>, n: nat)
    ensures
        0 <= longest_zero_run(g, n),
        n > 0 ==> longest_zero_run(g, n) < n,
    decreases n,
{
    if n > 1 {
        lemma_longest_zero_run(g, (n - 1) as nat);
    }
}

proof fn lemma_of_segs(ip: Ipv6Addr)
    ensures
        Ipv6Addr::of_segs(ip.segs()) == ip,
{
}

proof fn lemma_mapped_text(ip: Ipv6Addr)
    requires
        ip.is_v4_mapped(),
    ensures
        ipv6_of(ipv6_text(ip)) == Some(ip),
        ipv6_text(ip).contains(':'),
{
    let v4 = ipv4_text(ip.low_v4());
    let s = ipv6_text(ip);
    let ffff = seq!['f', 'f', 'f', 'f'];
    lemma_ipv4_text(ip.low_v4());
    assert(s[0] == ':' && s[1] == ':');
    lemma_first_gap_at(s, 0);
    assert(s.take(0) =~= Seq::empty());
    assert(segments_of(s.take(0), false) == Some(Seq::<u16>::empty()));
    let t = s.skip(2);
    assert(t =~= ffff.push(':') + v4);
    assert(!ffff.contains(':'));
    lemma_fields_plain(ffff, ':');
    lemma_fields_append(ffff, ':', v4);
    let f = fields(t, ':');
    assert(f =~= seq![ffff, v4]);
    assert(segment_of(ffff) == Some(0xffffu16)) by {
        reveal_with_fuel(value, 5);
        assert(digit('f') == 15);
        assert(ffff.drop_last().drop_last().drop_last().drop_last() =~= Seq::empty());
    }
    assert(segment_of(v4) is None) by {
        let i = choose|i: int| 0 <= i < v4.len() && v4[i] == '.';
        assert(digit(v4[i]) == 16);
    }
    let low = ip.low_v4();
    let pair = seq![octet_pair(low.a, low.b), octet_pair(low.c, low.d)];
    assert(last_segments(v4, true) == Some(pair));
    assert(octet_pair(low.a, low.b) == ip.s6);
    assert(octet_pair(low.c, low.d) == ip.s7);
    assert(Seq::new(1, |i: int| segment_of(f[i])->0) + pair =~= seq![0xffffu16, ip.s6, ip.s7]);
    assert(segments_of(t, true) == Some(seq![0xffffu16, ip.s6, ip.s7]));
    assert(Seq::<u16>::empty() + zeros(5) + seq![0xffffu16, ip.s6, ip.s7] =~= ip.segs());
    lemma_of_segs(ip);
}

/// Segments around one `::` are read back.
proof fn lemma_gapped_text(head: Seq<u16>, n: int, tail: Seq<u16>)
    requires
        n > 1,
        head.len() + n + tail.len() == 8,
    ensures
        ({
            let s = segments_text(head) + seq![':', ':'] + segments_text(tail);
            &&& ipv6_of(s) == Some(Ipv6Addr::of_segs(head + zeros(n) + tail))
            &&& s.contains(':')
        }),
{
    let h = segments_text(head);
    let t = segments_text(tail);
    let s = h + seq![':', ':'] + t;
    lemma_segments_text(head, false);
    lemma_segments_text(tail, true);
    let i = h.len() as int;
    assert(s[i] == ':' && s[i + 1] == ':');
    assert forall|j: int| 0 <= j < i implies !(#[trigger] s[j] == ':' && s[j + 1] == ':') by {
        assert(s[j] == h[j]);
        if j < i - 1 {
            assert(s[j + 1] == h[j + 1]);
        } else {
            assert(h[j] == h.last());
        }
    }
    lemma_first_gap_at(s, i);
    assert(s.take(i) =~= h);
    assert(s.skip(i + 2) =~= t);
}

/// Eight segments in full are read back.
proof fn lemma_full_text(g: Seq<u16>)
    requires
        g.len() == 8,
    ensures
        ipv6_of(segments_text(g)) == Some(Ipv6Addr::of_segs(g)),
        segments_text(g).contains(':'),
{
    lemma_segments_text(g, true);
    lemma_no_gap(segments_text(g));
    lemma_joined_has_sep(g.map_values(|x: u16| number_text(x as nat, 16)), ':');
}

/// An IPv6 address is read back.
proof fn lemma_ipv6_text(ip: Ipv6Addr)
    ensures
        ipv6_of(ipv6_text(ip)) == Some(ip),
        ipv6_text(ip).contains(':'),
{
    let g = ip.segs();
    let start = longest_zero_run(g, 8);
    let len = zero_run(g, start);
    lemma_longest_zero_run(g, 8);
    lemma_zero_run(g, start);
    lemma_of_segs(ip);
    if ip.is_v4_mapped() {
        lemma_mapped_text(ip);
    } else if len > 1 {
        lemma_gapped_text(g.take(start), len as int, g.skip(start + len));
        assert(g.take(start) + zeros(len as int) + g.skip(start + len) =~= g);
    } else {
        lemma_full_text(g);
    }
}

/// Reading what was written for an address gives that address.
pub proof fn written_address_is_read_back(ip: IpAddr)
    ensures
        ip_of(ip_text(ip)) == Some(ip),
{
    reveal(ip_of);
    reveal(ip_text);
    match ip {
        IpAddr::V4(v4) => lemma_ipv4_text(v4),
        IpAddr::V6(v6) => {
            let s = ipv6_text(v6);
            lemma_ipv6_text(v6);
            if ipv4_of(s) is Some {
                let i = choose|i: int| 0 <= i < s.len() && s[i] == ':';
                lemma_char_in_field(s, '.', i);
                let f = fields(s, '.');
                let k = choose|k: int| 0 <= k < f.len() && (#[trigger] f[k]).contains(s[i]);
                let m = choose|m: int| 0 <= m < f[k].len() && f[k][m] == s[i];
                assert(octet_of(f[k]) is Some);
                assert(digit(f[k][m]) < 10);
            }
        },
    }
}

/// The empty text names no address.
pub proof fn no_text_is_no_address()
    ensures
        ip_of(Seq::empty()) is None,
{
    reveal(ip_of);
    let s = Seq::<char>::empty();
    assert(fields(s, '.').len() == 1);
    assert(first_gap(s) is None);
}

/// No two addresses are written alike.
pub proof fn distinct_addresses_are_written_differently(x: IpAddr, y: IpAddr)
    requires
        ip_text(x) == ip_text(y),
    ensures
        x == y,
{
    written_address_is_read_back(x);
    written_address_is_read_back(y);
}

} // verus!

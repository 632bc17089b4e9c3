//! Standard textual notation for IPv4 and IPv6 addresses, and decimal integers.
//!
//! IPv4 is dotted decimal. IPv6 follows the usual compressed form: lowercase hex
//! groups without leading zeros, the earliest longest run of two or more zero
//! groups written as `::`, and IPv4-mapped addresses as `::ffff:a.b.c.d`.
use vstd::prelude::*;
use crate::text::hex_digit;

verus! {

/// Decimal digits of a natural number, without leading zeros.
pub open spec fn decimal_text(n: nat) -> Seq<char>
    decreases n,
{
    if n < 10 {
        seq![hex_digit(n as u8)]
    } else {
        decimal_text(n / 10) + seq![hex_digit((n % 10) as u8)]
    }
}

/// Lowercase hexadecimal digits of a natural number, without leading zeros.
pub open spec fn hex_text(n: nat) -> Seq<char>
    decreases n,
{
    if n < 16 {
        seq![hex_digit(n as u8)]
    } else {
        hex_text(n / 16) + seq![hex_digit((n % 16) as u8)]
    }
}

/// Dotted-decimal text of four octets.
pub open spec fn ipv4_text(b: Seq<u8>) -> Seq<char> {
    decimal_text(b[0] as nat) + seq!['.'] + decimal_text(b[1] as nat) + seq!['.']
        + decimal_text(b[2] as nat) + seq!['.'] + decimal_text(b[3] as nat)
}

/// The eight 16-bit groups of a sixteen-octet address.
pub open spec fn groups(b: Seq<u8>) -> Seq<u16> {
    Seq::new(8, |i: int| (b[2 * i] as int * 256 + b[2 * i + 1] as int) as u16)
}

/// Hex groups joined by ':'.
pub open spec fn join_groups(s: Seq<u16>) -> Seq<char>
    decreases s.len(),
{
    if s.len() == 0 {
        Seq::empty()
    } else if s.len() == 1 {
        hex_text(s[0] as nat)
    } else {
        join_groups(s.drop_last()) + seq![':'] + hex_text(s.last() as nat)
    }
}

/// Number of consecutive zero groups starting at `start`.
pub open spec fn zero_run(s: Seq<u16>, start: int) -> int
    decreases s.len() - start,
{
    if start < 0 || start >= s.len() || s[start] != 0 {
        0
    } else {
        1 + zero_run(s, start + 1)
    }
}

/// `(start, len)` is the earliest longest run of zero groups.
pub open spec fn best_run(s: Seq<u16>, start: int, len: int) -> bool {
    &&& 0 <= start < s.len()
    &&& len == zero_run(s, start)
    &&& forall|k: int| 0 <= k < s.len() ==> #[trigger] zero_run(s, k) <= len
    &&& forall|k: int| 0 <= k < start ==> #[trigger] zero_run(s, k) < len
}

/// An IPv4-mapped IPv6 address: five zero groups, then ffff.
pub open spec fn ipv4_mapped(b: Seq<u8>) -> bool {
    forall|i: int| 0 <= i < 10 ==> #[trigger] b[i] == 0
}

/// Standard IPv6 text of sixteen octets.
pub open spec fn ipv6_text(b: Seq<u8>) -> Seq<char> {
    let s = groups(b);
    if ipv4_mapped(b) && b[10] == 255 && b[11] == 255 {
        seq![':', ':', 'f', 'f', 'f', 'f', ':'] + ipv4_text(b.subrange(12, 16))
    } else {
        let (start, len) = choose|start: int, len: int| best_run(s, start, len);
        if len > 1 {
            join_groups(s.take(start)) + seq![':', ':'] + join_groups(s.skip(start + len))
        } else {
            join_groups(s)
        }
    }
}

fn digit_str(n: u8) -> (r: &'static str)
    requires
        n < 16,
    ensures
        r@ == seq![hex_digit(n)],
{
    if n == 0 { proof { reveal_strlit("0"); } "0" }
    else if n == 1 { proof { reveal_strlit("1"); } "1" }
    else if n == 2 { proof { reveal_strlit("2"); } "2" }
    else if n == 3 { proof { reveal_strlit("3"); } "3" }
    else if n == 4 { proof { reveal_strlit("4"); } "4" }
    else if n == 5 { proof { reveal_strlit("5"); } "5" }
    else if n == 6 { proof { reveal_strlit("6"); } "6" }
    else if n == 7 { proof { reveal_strlit("7"); } "7" }
    else if n == 8 { proof { reveal_strlit("8"); } "8" }
    else if n == 9 { proof { reveal_strlit("9"); } "9" }
    else if n == 10 { proof { reveal_strlit("a"); } "a" }
    else if n == 11 { proof { reveal_strlit("b"); } "b" }
    else if n == 12 { proof { reveal_strlit("c"); } "c" }
    else if n == 13 { proof { reveal_strlit("d"); } "d" }
    else if n == 14 { proof { reveal_strlit("e"); } "e" }
    else { proof { reveal_strlit("f"); } "f" }
}

/// Append the digits of `n` in base `base` (10 or 16).
fn push_digits(out: &mut String, n: u16, base: u16)
    requires
        base == 10 || base == 16,
    ensures
        final(out)@ == old(out)@ + (if base == 10 { decimal_text(n as nat) } else { hex_text(n as nat) }),
    decreases n,
{
    if n >= base {
        push_digits(out, n / base, base);
    }
    out.append(digit_str((n % base) as u8));
}

/// Append the decimal digits of `n`.
fn push_decimal(out: &mut String, n: u128)
    ensures
        final(out)@ == old(out)@ + decimal_text(n as nat),
    decreases n,
{
    if n >= 10 {
        push_decimal(out, n / 10);
    }
    out.append(digit_str((n % 10) as u8));
}

/// Decimal text of an integer, with a leading `-` when it is negative.
pub open spec fn signed_decimal_text(n: int) -> Seq<char> {
    if n < 0 {
        seq!['-'] + decimal_text((-n) as nat)
    } else {
        decimal_text(n as nat)
    }
}

/// Decimal text of an integer.
pub fn format_decimal(n: i128) -> (r: String)
    ensures
        r@ == signed_decimal_text(n as int),
{
    let mut out = String::new();
    if n < 0 {
        proof {
            reveal_strlit("-");
        }
        out.append("-");
        let magnitude: u128 = (-(n + 1)) as u128 + 1;
        push_decimal(&mut out, magnitude);
    } else {
        push_decimal(&mut out, n as u128);
    }
    out
}

fn push_str(out: &mut String, s: &str)
    ensures
        final(out)@ == old(out)@ + s@,
{
    out.append(s);
}

fn push_ipv4(out: &mut String, b: &[u8], start: usize)
    requires
        start + 4 <= b@.len(),
    ensures
        final(out)@ == old(out)@ + ipv4_text(b@.subrange(start as int, start + 4)),
{
    proof { reveal_strlit("."); }
    let ghost q = b@.subrange(start as int, start + 4);
    push_digits(out, b[start] as u16, 10);
    push_str(out, ".");
    push_digits(out, b[start + 1] as u16, 10);
    push_str(out, ".");
    push_digits(out, b[start + 2] as u16, 10);
    push_str(out, ".");
    push_digits(out, b[start + 3] as u16, 10);
    assert(out@ =~= old(out)@ + ipv4_text(q));
}

/// Dotted-decimal text of four octets.
pub fn format_ipv4(b: &[u8]) -> (r: String)
    requires
        b@.len() == 4,
    ensures
        r@ == ipv4_text(b@),
{
    let mut out = String::new();
    push_ipv4(&mut out, b, 0);
    assert(b@.subrange(0, 4) =~= b@);
    out
}

/// Append groups `[from, to)` joined by ':'.
fn push_groups(out: &mut String, s: &[u16; 8], from: usize, to: usize)
    requires
        from <= to <= 8,
    ensures
        final(out)@ == old(out)@ + join_groups(s@.subrange(from as int, to as int)),
{
    proof { reveal_strlit(":"); }
    let mut i = from;
    while i < to
        invariant
            from <= i <= to <= 8,
            s@.len() == 8,
            out@ == old(out)@ + join_groups(s@.subrange(from as int, i as int)),
        decreases to - i,
    {
        let ghost before = out@;
        if i > from {
            push_str(out, ":");
        }
        let g = s[i];
        push_digits(out, g, 16);
        proof {
            assert(g == s@[i as int]);
            let prev = s@.subrange(from as int, i as int);
            let next = s@.subrange(from as int, i + 1);
            assert(next.drop_last() =~= prev);
            assert(next.last() == s@[i as int]);
            if i == from {
                assert(next.len() == 1);
                assert(prev =~= Seq::<u16>::empty());
                assert(join_groups(next) == hex_text(s@[i as int] as nat));
                assert(join_groups(prev) =~= Seq::<char>::empty());
                assert(before =~= old(out)@);
                assert(out@ == before + hex_text(g as nat));
                assert(hex_text(g as nat) == join_groups(next));
                assert(out@ == old(out)@ + join_groups(next));
            } else {
                reveal_strlit(":");
                assert(join_groups(next) == join_groups(prev) + seq![':'] + hex_text(s@[i as int] as nat));
                assert(out@ =~= before + seq![':'] + hex_text(g as nat));
                assert(out@ =~= old(out)@ + join_groups(next));
            }
        }
        i = i + 1;
    }
}

proof fn lemma_zero_run_bound(s: Seq<u16>, start: int)
    ensures
        0 <= zero_run(s, start),
        0 <= start <= s.len() ==> zero_run(s, start) <= s.len() - start,
    decreases s.len() - start,
{
    if !(start < 0 || start >= s.len() || s[start] != 0) {
        lemma_zero_run_bound(s, start + 1);
    }
}

/// Length of the zero run starting at `start`.
fn run_at(s: &[u16; 8], start: usize) -> (r: usize)
    requires
        start <= 8,
    ensures
        r == zero_run(s@, start as int),
{
    let mut i = start;
    while i < 8 && s[i] == 0
        invariant
            start <= i <= 8,
            s@.len() == 8,
            forall|k: int| start <= k < i ==> s@[k] == 0,
        decreases 8 - i,
    {
        i = i + 1;
    }
    proof {
        lemma_run_from(s@, start as int, i as int);
    }
    i - start
}

proof fn lemma_run_from(s: Seq<u16>, start: int, end: int)
    requires
        0 <= start <= end <= s.len(),
        forall|k: int| start <= k < end ==> s[k] == 0,
        end == s.len() || s[end] != 0,
    ensures
        zero_run(s, start) == end - start,
    decreases end - start,
{
    if start < end {
        lemma_run_from(s, start + 1, end);
    }
}

proof fn lemma_best_run_unique(s: Seq<u16>, a: int, la: int, b: int, lb: int)
    requires
        best_run(s, a, la),
        best_run(s, b, lb),
        la > 0,
    ensures
        a == b && la == lb,
{
    assert(zero_run(s, a) <= lb);
    assert(zero_run(s, b) <= la);
    if a < b {
        assert(zero_run(s, a) < lb);
    } else if b < a {
        assert(zero_run(s, b) < la);
    }
}

/// Standard IPv6 text of sixteen octets.
pub fn format_ipv6(b: &[u8]) -> (r: String)
    requires
        b@.len() == 16,
    ensures
        r@ == ipv6_text(b@),
{
    let mut out = String::new();
    let mut mapped = true;
    let mut i: usize = 0;
    while i < 10
        invariant
            i <= 10,
            b@.len() == 16,
            mapped == (forall|k: int| 0 <= k < i ==> #[trigger] b@[k] == 0),
        decreases 10 - i,
    {
        if b[i] != 0 {
            mapped = false;
        }
        i = i + 1;
    }
    if mapped && b[10] == 255 && b[11] == 255 {
        proof { reveal_strlit("::ffff:"); }
        push_str(&mut out, "::ffff:");
        push_ipv4(&mut out, b, 12);
        return out;
    }
    let s: [u16; 8] = [
        (b[0] as u16) * 256 + b[1] as u16, (b[2] as u16) * 256 + b[3] as u16,
        (b[4] as u16) * 256 + b[5] as u16, (b[6] as u16) * 256 + b[7] as u16,
        (b[8] as u16) * 256 + b[9] as u16, (b[10] as u16) * 256 + b[11] as u16,
        (b[12] as u16) * 256 + b[13] as u16, (b[14] as u16) * 256 + b[15] as u16,
    ];
    assert(s@ =~= groups(b@));
    let mut best_start: usize = 0;
    let mut best_len: usize = run_at(&s, 0);
    let mut k: usize = 1;
    while k < 8
        invariant
            1 <= k <= 8,
            s@.len() == 8,
            best_start < k,
            best_len == zero_run(s@, best_start as int),
            forall|j: int| 0 <= j < k ==> #[trigger] zero_run(s@, j) <= best_len,
            forall|j: int| 0 <= j < best_start ==> #[trigger] zero_run(s@, j) < best_len,
        decreases 8 - k,
    {
        let len = run_at(&s, k);
        if len > best_len {
            best_start = k;
            best_len = len;
        }
        k = k + 1;
    }
    proof {
        assert(best_run(s@, best_start as int, best_len as int));
        let (cs, cl) = choose|start: int, len: int| best_run(s@, start, len);
        assert(best_run(s@, cs, cl));
        if best_len > 0 {
            lemma_best_run_unique(s@, best_start as int, best_len as int, cs, cl);
        } else {
            assert(zero_run(s@, cs) <= best_len);
        }
        lemma_zero_run_bound(s@, best_start as int);
    }
    if best_len > 1 {
        proof { reveal_strlit("::"); }
        push_groups(&mut out, &s, 0, best_start);
        push_str(&mut out, "::");
        push_groups(&mut out, &s, best_start + best_len, 8);
        proof {
            assert(s@.subrange(0, best_start as int) =~= s@.take(best_start as int));
            assert(s@.subrange(best_start + best_len, 8) =~= s@.skip(best_start + best_len));
        }
    } else {
        push_groups(&mut out, &s, 0, 8);
        assert(s@.subrange(0, 8) =~= s@);
    }
    out
}

} // verus!

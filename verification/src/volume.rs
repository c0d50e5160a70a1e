//! Reading the system volume out of what `pactl get-sink-volume` prints.
use vstd::prelude::*;
use crate::text::{chars_of, decimal, digit_char, is_white_space, is_whitespace_char};

verus! {

/// The first position at or after `from` whose character satisfies `stop`,
/// or the length of `s` when there is none.
pub open spec fn scan_forward(s: Seq<char>, from: int, stop: spec_fn(char) -> bool) -> int
    decreases s.len() - from,
{
    if from < 0 || from >= s.len() {
        s.len() as int
    } else if stop(s[from]) {
        from
    } else {
        scan_forward(s, from + 1, stop)
    }
}

/// The end of `s.take(to)` once characters satisfying `drop` are removed
/// from its end.
pub open spec fn scan_back(s: Seq<char>, to: int, drop: spec_fn(char) -> bool) -> int
    decreases to,
{
    if to <= 0 || to > s.len() {
        0
    } else if drop(s[to - 1]) {
        scan_back(s, to - 1, drop)
    } else {
        to
    }
}

/// The separator between the fields of a volume line.
pub open spec fn is_slash(c: char) -> bool {
    c == '/'
}

/// A field of a volume line ends at the next separator or at the end of the line.
pub open spec fn ends_field(c: char) -> bool {
    c == '/' || c == '\n'
}

/// A character that is not white space.
pub open spec fn not_white(c: char) -> bool {
    !is_white_space(c)
}

/// The second `/`-separated field of the first line that holds a `/`
/// (the percentage field of pactl's output), if any line holds one.
pub open spec fn percent_field(s: Seq<char>) -> Option<Seq<char>> {
    let p = scan_forward(s, 0, |c: char| is_slash(c));
    if p >= s.len() {
        None
    } else {
        Some(s.subrange(p + 1, scan_forward(s, p + 1, |c: char| ends_field(c))))
    }
}

/// `s` without white space at either end (std's `str::trim`).
pub open spec fn trimmed(s: Seq<char>) -> Seq<char> {
    let start = scan_forward(s, 0, |c: char| not_white(c));
    if start >= s.len() {
        Seq::empty()
    } else {
        s.subrange(start, scan_back(s, s.len() as int, |c: char| is_white_space(c)))
    }
}

/// `s` without the `%` signs at its end (std's `trim_end_matches('%')`).
pub open spec fn without_percent(s: Seq<char>) -> Seq<char> {
    s.take(scan_back(s, s.len() as int, |c: char| c == '%'))
}

/// A decimal digit.
pub open spec fn is_digit(c: char) -> bool {
    48 <= (c as u32) <= 57
}

/// The value of the digit sequence `d`.
pub open spec fn digits_value(d: Seq<char>) -> nat
    decreases d.len(),
{
    if d.len() == 0 {
        0
    } else {
        digits_value(d.drop_last()) * 10 + ((d.last() as u32) - 48) as nat
    }
}

/// `s` without its leading `+` sign, if it has one.
pub open spec fn unsigned_digits(s: Seq<char>) -> Seq<char> {
    if s.len() > 0 && s[0] == '+' { s.drop_first() } else { s }
}

/// Every character of `d` is a decimal digit.
pub open spec fn all_digits(d: Seq<char>) -> bool {
    forall|i: int| 0 <= i < d.len() ==> is_digit(#[trigger] d[i])
}

/// What `s.parse::<u8>()` gives: an optional `+` followed by one or more
/// digits whose value is at most 255; anything else is rejected.
pub open spec fn parse_u8(s: Seq<char>) -> Option<u8> {
    let d = unsigned_digits(s);
    if d.len() > 0 && all_digits(d) && digits_value(d) <= 255 {
        Some(digits_value(d) as u8)
    } else {
        None
    }
}

/// The volume percentage in pactl's output `s`.
pub open spec fn pactl_volume(s: Seq<char>) -> Option<u8> {
    match percent_field(s) {
        None => None,
        Some(f) => parse_u8(without_percent(trimmed(f))),
    }
}

/// The decimal writing of `n` is made of digits and is worth `n`.
pub proof fn lemma_decimal_digits(n: nat)
    ensures
        decimal(n).len() > 0,
        all_digits(decimal(n)),
        digits_value(decimal(n)) == n,
        decimal(n)[0] != '+',
    decreases n,
{
    let d = n % 10;
    assert(digit_char(d) as u32 == 48 + d) by {
        assert('0' as u32 == 48); assert('1' as u32 == 49); assert('2' as u32 == 50);
        assert('3' as u32 == 51); assert('4' as u32 == 52); assert('5' as u32 == 53);
        assert('6' as u32 == 54); assert('7' as u32 == 55); assert('8' as u32 == 56);
        assert('9' as u32 == 57);
    }
    if n >= 10 {
        lemma_decimal_digits(n / 10);
        let w = decimal(n / 10);
        let v = decimal(n);
        assert(v == w.push(digit_char(d)));
        assert(v.drop_last() =~= w);
        assert forall|i: int| 0 <= i < v.len() implies is_digit(#[trigger] v[i]) by {
            if i < w.len() {
                assert(v[i] == w[i]);
            }
        }
        assert(v[0] == w[0]);
    } else {
        assert(n == d);
        let v = decimal(n);
        assert(v.drop_last() =~= Seq::<char>::empty());
        assert(digits_value(Seq::<char>::empty()) == 0);
    }
}

/// Reading back a number written in decimal gives that number when it fits
/// in a `u8` (0 to 255) and nothing otherwise; a leading `+` is accepted.
pub proof fn lemma_parse_u8_of_decimal(n: nat)
    ensures
        n <= 255 ==> parse_u8(decimal(n)) == Some(n as u8),
        n > 255 ==> parse_u8(decimal(n)) is None,
        parse_u8(seq!['+'] + decimal(n)) == parse_u8(decimal(n)),
{
    lemma_decimal_digits(n);
    assert((seq!['+'] + decimal(n)).drop_first() =~= decimal(n));
}

/// The forward scan stops at the first position from `from` on that satisfies `stop`.
proof fn lemma_scan_forward_at(s: Seq<char>, from: int, k: int, stop: spec_fn(char) -> bool)
    requires
        0 <= from <= k < s.len(),
        stop(s[k]),
        forall|i: int| from <= i < k ==> !stop(#[trigger] s[i]),
    ensures
        scan_forward(s, from, stop) == k,
    decreases k - from,
{
    if from < k {
        lemma_scan_forward_at(s, from + 1, k, stop);
    }
}

/// The backward scan stops after the last position before `to` that is not dropped.
proof fn lemma_scan_back_at(s: Seq<char>, to: int, k: int, drop: spec_fn(char) -> bool)
    requires
        0 < k <= to <= s.len(),
        !drop(s[k - 1]),
        forall|i: int| k <= i < to ==> drop(#[trigger] s[i]),
    ensures
        scan_back(s, to, drop) == k,
    decreases to - k,
{
    if k < to {
        lemma_scan_back_at(s, to - 1, k, drop);
    }
}

/// Digits are neither separators, white space nor `%`.
proof fn lemma_digit_is_plain(c: char)
    requires
        is_digit(c),
    ensures
        c != '/',
        c != '\n',
        c != '%',
        !is_white_space(c),
{
    assert(('/' as u32) == 47);
    assert(('\n' as u32) == 10);
    assert(('%' as u32) == 37);
}

/// On a pactl line whose first `/` opens the field ` N% /`, the volume read is
/// N, for every N from 0 to 255 and whatever precedes or follows the field.
pub proof fn lemma_pactl_volume_reads_percent(pre: Seq<char>, n: nat, post: Seq<char>)
    requires
        forall|i: int| 0 <= i < pre.len() ==> #[trigger] pre[i] != '/',
        n <= 255,
    ensures
        pactl_volume(pre + seq!['/', ' '] + decimal(n) + seq!['%', ' ', '/'] + post) == Some(n as u8),
{
    let dec = decimal(n);
    lemma_decimal_digits(n);
    lemma_parse_u8_of_decimal(n);
    let s = pre + seq!['/', ' '] + dec + seq!['%', ' ', '/'] + post;
    let p = pre.len() as int;
    let m = dec.len() as int;
    let q = p + 2 + m + 2;
    assert(s[p] == '/');
    assert forall|i: int| 0 <= i < p implies !is_slash(#[trigger] s[i]) by {
        assert(s[i] == pre[i]);
    }
    lemma_scan_forward_at(s, 0, p, |c: char| is_slash(c));
    assert(s[q] == '/');
    assert(s[p + 1] == ' ');
    assert forall|i: int| p + 1 <= i < q implies !ends_field(#[trigger] s[i]) by {
        if p + 2 <= i < p + 2 + m {
            assert(s[i] == dec[i - p - 2]);
            assert(is_digit(dec[i - p - 2]));
            lemma_digit_is_plain(dec[i - p - 2]);
        } else if i == p + 2 + m {
            assert(s[i] == '%');
        } else if i == p + 2 + m + 1 {
            assert(s[i] == ' ');
        }
    }
    lemma_scan_forward_at(s, p + 1, q, |c: char| ends_field(c));
    let field = s.subrange(p + 1, q);
    assert(field =~= seq![' '] + dec + seq!['%', ' ']);
    assert(percent_field(s) == Some(field));
    // trimming
    assert(is_white_space(field[0]));
    assert(is_digit(dec[0]));
    lemma_digit_is_plain(dec[0]);
    assert(field[1] == dec[0]);
    lemma_scan_forward_at(field, 0, 1, |c: char| not_white(c));
    assert(field[m + 1] == '%');
    assert(!is_white_space(field[m + 1]));
    assert(is_white_space(field[m + 2]));
    lemma_scan_back_at(field, field.len() as int, m + 2, |c: char| is_white_space(c));
    let tr = field.subrange(1, m + 2);
    assert(tr =~= dec + seq!['%']);
    assert(trimmed(field) == tr);
    // the trailing percent sign
    assert(tr[m] == '%');
    assert(tr[m - 1] == dec[m - 1]);
    assert(is_digit(dec[m - 1]));
    lemma_digit_is_plain(dec[m - 1]);
    lemma_scan_back_at(tr, tr.len() as int, m, |c: char| c == '%');
    assert(tr.take(m) =~= dec);
    assert(without_percent(tr) == dec);
}

/// A digit sequence is worth at least as much as any of its prefixes.
proof fn lemma_digits_value_prefix(d: Seq<char>, k: int)
    requires
        0 <= k <= d.len(),
        forall|i: int| 0 <= i < d.len() ==> is_digit(#[trigger] d[i]),
    ensures
        digits_value(d) >= digits_value(d.take(k)),
    decreases d.len(),
{
    if k < d.len() {
        let dl = d.drop_last();
        assert forall|i: int| 0 <= i < dl.len() implies is_digit(#[trigger] dl[i]) by {
            assert(dl[i] == d[i]);
        }
        lemma_digits_value_prefix(dl, k);
        assert(dl.take(k) =~= d.take(k));
    } else {
        assert(d.take(k) =~= d);
    }
}

/// Parses a volume percentage as `u8`.
fn parse_percent(s: &Vec<char>) -> (v: Option<u8>)
    ensures
        v == parse_u8(s@),
{
    let n = s.len();
    let start: usize = if n > 0 && s[0] == '+' { 1 } else { 0 };
    let ghost d = unsigned_digits(s@);
    assert(d =~= s@.skip(start as int));
    if start >= n {
        assert(d.len() == 0);
        return None;
    }
    let mut acc: u32 = 0;
    let mut i: usize = start;
    while i < n
        invariant
            start <= i <= n,
            n == s@.len(),
            start < n,
            d == s@.skip(start as int),
            d == unsigned_digits(s@),
            acc <= 255,
            acc == digits_value(d.take(i - start)),
            forall|k: int| 0 <= k < i - start ==> is_digit(#[trigger] d[k]),
        decreases n - i,
    {
        let c = s[i];
        let code = c as u32;
        assert(d[i - start] == c);
        if code < 48 || code > 57 {
            proof {
                assert(!is_digit(d[i - start]));
                assert(!all_digits(d));
            }
            return None;
        }
        let ghost t = d.take(i - start + 1);
        assert(t.drop_last() =~= d.take(i - start));
        assert(t.last() == c);
        acc = acc * 10 + (code - 48);
        if acc > 255 {
            proof {
                if all_digits(d) {
                    lemma_digits_value_prefix(d, i - start + 1);
                }
            }
            return None;
        }
        i = i + 1;
    }
    assert(d.take(n - start) =~= d);
    Some(acc as u8)
}

/// The system volume reported in the output of `pactl get-sink-volume`
/// (`None` when the command could not be run): the number in the second
/// `/`-separated field of the first line that has one, trimmed and with its
/// trailing `%` signs removed, when it reads as a `u8`.
pub fn get_system_volume_linux(pactl_stdout: Option<&str>) -> (volume: Option<u8>)
    ensures
        volume == match pactl_stdout {
            None => None,
            Some(out) => pactl_volume(out@),
        },
{
    let out = match pactl_stdout {
        None => return None,
        Some(out) => out,
    };
    let cs = chars_of(out);
    let n = cs.len();
    let ghost s = out@;
    // first '/'
    let mut p: usize = 0;
    while p < n && cs[p] != '/'
        invariant
            n == s.len(),
            cs@ == s,
            p <= n,
            scan_forward(s, p as int, |c: char| is_slash(c)) == scan_forward(s, 0, |c: char| is_slash(c)),
        decreases n - p,
    {
        p = p + 1;
    }
    if p >= n {
        return None;
    }
    // end of the field
    let mut q: usize = p + 1;
    while q < n && cs[q] != '/' && cs[q] != '\n'
        invariant
            n == s.len(),
            cs@ == s,
            p < q <= n,
            scan_forward(s, q as int, |c: char| ends_field(c)) == scan_forward(s, p + 1, |c: char| ends_field(c)),
        decreases n - q,
    {
        q = q + 1;
    }
    let ghost field = s.subrange(p + 1, q as int);
    assert(percent_field(s) == Some(field));
    // trim the start
    let mut a: usize = p + 1;
    while a < q && is_whitespace_char(cs[a])
        invariant
            n == s.len(),
            cs@ == s,
            p + 1 <= a <= q <= n,
            field == s.subrange(p + 1, q as int),
            scan_forward(field, a - (p + 1), |c: char| not_white(c)) == scan_forward(field, 0, |c: char| not_white(c)),
        decreases q - a,
    {
        assert(field[a - (p + 1)] == cs@[a as int]);
        a = a + 1;
    }
    // trim the end
    let mut b: usize = q;
    if a < q {
        assert(field[a - (p + 1)] == cs@[a as int]);
        while b > a && is_whitespace_char(cs[b - 1])
            invariant
                n == s.len(),
                cs@ == s,
                p + 1 <= a < q <= n,
                a < b <= q,
                field == s.subrange(p + 1, q as int),
                !is_white_space(s[a as int]),
                scan_back(field, b - (p + 1), |c: char| is_white_space(c))
                    == scan_back(field, field.len() as int, |c: char| is_white_space(c)),
            decreases b - a,
        {
            assert(field[b - 1 - (p + 1)] == cs@[b - 1]);
            assert(b - 1 != a);
            b = b - 1;
        }
        assert(field[b - 1 - (p + 1)] == cs@[b - 1]);
        assert(scan_forward(field, a - (p + 1), |c: char| not_white(c)) == a - (p + 1));
        assert(scan_back(field, b - (p + 1), |c: char| is_white_space(c)) == b - (p + 1));
    } else {
        b = a;
    }
    let ghost tr = trimmed(field);
    assert(tr =~= s.subrange(a as int, b as int));
    // drop trailing '%'
    let mut e: usize = b;
    while e > a && cs[e - 1] == '%'
        invariant
            n == s.len(),
            cs@ == s,
            a <= e <= b <= n,
            tr == s.subrange(a as int, b as int),
            scan_back(tr, e - a, |c: char| c == '%') == scan_back(tr, tr.len() as int, |c: char| c == '%'),
        decreases e - a,
    {
        assert(tr[e - 1 - a] == cs@[e - 1]);
        e = e - 1;
    }
    if e > a {
        assert(tr[e - 1 - a] == cs@[e - 1]);
    }
    let mut digits: Vec<char> = Vec::new();
    let mut k: usize = a;
    while k < e
        invariant
            n == s.len(),
            cs@ == s,
            a <= k <= e <= n,
            digits@ == s.subrange(a as int, k as int),
        decreases e - k,
    {
        digits.push(cs[k]);
        assert(digits@ =~= s.subrange(a as int, k + 1));
        k = k + 1;
    }
    assert(digits@ =~= without_percent(tr));
    parse_percent(&digits)
}

} // verus!

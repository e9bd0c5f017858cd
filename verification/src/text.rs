use vstd::prelude::*;

verus! {

/// Collects the characters of a string slice, in order.
pub fn chars_of(s: &str) -> (v: Vec<char>)
    ensures
        v@ == s@,
{
    let mut v: Vec<char> = Vec::new();
    for c in it: s.chars()
        invariant
            v@ == it.seq().take(it.index() as int),
    {
        v.push(c);
    }
    v
}

/// `String::push` of std: appends one character at the end.
#[verifier::external_body]
pub(crate) fn push_char(s: &mut String, c: char)
    ensures
        final(s)@ == old(s)@.push(c),
{
    s.push(c);
}

/// The string made of `v[lo..hi]`.
pub fn string_from_chars(v: &Vec<char>, lo: usize, hi: usize) -> (s: String)
    requires
        lo <= hi <= v@.len(),
    ensures
        s@ == v@.subrange(lo as int, hi as int),
{
    let mut s = String::new();
    let mut i = lo;
    while i < hi
        invariant
            lo <= i <= hi <= v@.len(),
            s@ == v@.subrange(lo as int, i as int),
        decreases hi - i,
    {
        push_char(&mut s, v[i]);
        assert(v@.subrange(lo as int, i + 1) == v@.subrange(lo as int, i as int).push(v@[i as int]));
        i = i + 1;
    }
    s
}

/// `char::is_whitespace`: the Unicode `White_Space` property.
pub open spec fn is_ws(c: char) -> bool {
    ||| ('\u{9}' <= c && c <= '\u{d}')
    ||| c == ' '
    ||| c == '\u{85}'
    ||| c == '\u{a0}'
    ||| c == '\u{1680}'
    ||| ('\u{2000}' <= c && c <= '\u{200a}')
    ||| c == '\u{2028}'
    ||| c == '\u{2029}'
    ||| c == '\u{202f}'
    ||| c == '\u{205f}'
    ||| c == '\u{3000}'
}

pub fn is_whitespace(c: char) -> (b: bool)
    ensures
        b == is_ws(c),
{
    ('\u{9}' <= c && c <= '\u{d}') || c == ' ' || c == '\u{85}' || c == '\u{a0}'
        || c == '\u{1680}' || ('\u{2000}' <= c && c <= '\u{200a}') || c == '\u{2028}'
        || c == '\u{2029}' || c == '\u{202f}' || c == '\u{205f}' || c == '\u{3000}'
}

/// `s` without its leading whitespace.
pub open spec fn trim_start(s: Seq<char>) -> Seq<char>
    decreases s.len(),
{
    if s.len() > 0 && is_ws(s[0]) {
        trim_start(s.drop_first())
    } else {
        s
    }
}

/// `s` without its trailing whitespace.
pub open spec fn trim_end(s: Seq<char>) -> Seq<char>
    decreases s.len(),
{
    if s.len() > 0 && is_ws(s.last()) {
        trim_end(s.drop_last())
    } else {
        s
    }
}

/// `str::trim`: `s` without leading and trailing whitespace.
pub open spec fn trim(s: Seq<char>) -> Seq<char> {
    trim_end(trim_start(s))
}

/// `s` without the characters `c` at its end (`str::trim_end_matches` with one char).
pub open spec fn strip_end(s: Seq<char>, c: char) -> Seq<char>
    decreases s.len(),
{
    if s.len() > 0 && s.last() == c {
        strip_end(s.drop_last(), c)
    } else {
        s
    }
}

/// Bounds `(a, b)` with `v[a..b] == trim(v[lo..hi])`.
pub fn trim_bounds(v: &Vec<char>, lo: usize, hi: usize) -> (r: (usize, usize))
    requires
        lo <= hi <= v@.len(),
    ensures
        lo <= r.0 <= r.1 <= hi,
        v@.subrange(r.0 as int, r.1 as int) == trim(v@.subrange(lo as int, hi as int)),
{
    let mut a = lo;
    while a < hi && is_whitespace(v[a])
        invariant
            lo <= a <= hi <= v@.len(),
            trim_start(v@.subrange(lo as int, hi as int)) == trim_start(
                v@.subrange(a as int, hi as int),
            ),
        decreases hi - a,
    {
        assert(v@.subrange(a as int, hi as int).drop_first() == v@.subrange(a + 1, hi as int));
        a = a + 1;
    }
    proof {
        if a < hi {
            assert(v@.subrange(a as int, hi as int)[0] == v@[a as int]);
        }
    }
    let mut b = hi;
    while b > a && is_whitespace(v[b - 1])
        invariant
            lo <= a <= b <= hi <= v@.len(),
            trim_end(v@.subrange(a as int, hi as int)) == trim_end(v@.subrange(a as int, b as int)),
        decreases b - a,
    {
        assert(v@.subrange(a as int, b as int).drop_last() == v@.subrange(a as int, b - 1));
        b = b - 1;
    }
    proof {
        if b > a {
            assert(v@.subrange(a as int, b as int).last() == v@[b - 1]);
        }
    }
    (a, b)
}

/// End bound `b` with `v[lo..b] == strip_end(v[lo..hi], c)`.
pub fn strip_end_bound(v: &Vec<char>, lo: usize, hi: usize, c: char) -> (b: usize)
    requires
        lo <= hi <= v@.len(),
    ensures
        lo <= b <= hi,
        v@.subrange(lo as int, b as int) == strip_end(v@.subrange(lo as int, hi as int), c),
{
    let mut b = hi;
    while b > lo && v[b - 1] == c
        invariant
            lo <= b <= hi <= v@.len(),
            strip_end(v@.subrange(lo as int, hi as int), c) == strip_end(
                v@.subrange(lo as int, b as int),
                c,
            ),
        decreases b - lo,
    {
        assert(v@.subrange(lo as int, b as int).drop_last() == v@.subrange(lo as int, b - 1));
        b = b - 1;
    }
    proof {
        if b > lo {
            assert(v@.subrange(lo as int, b as int).last() == v@[b - 1]);
        }
    }
    b
}

// ------------------------------------------------------------------
// Decimal numbers
// ------------------------------------------------------------------

pub open spec fn is_digit(c: char) -> bool {
    '0' <= c && c <= '9'
}

pub open spec fn digit_value(c: char) -> nat {
    (c as int - '0' as int) as nat
}

/// The number written by the digits `s` (most significant first).
pub open spec fn digits_value(s: Seq<char>) -> nat
    decreases s.len(),
{
    if s.len() == 0 {
        0
    } else {
        digits_value(s.drop_last()) * 10 + digit_value(s.last())
    }
}

pub open spec fn all_digits(s: Seq<char>) -> bool {
    forall|i: int| 0 <= i < s.len() ==> is_digit(#[trigger] s[i])
}

/// The number an unsigned integer's `from_str` reads from `s`, before the range check:
/// an optional `+`, then one digit or more, nothing else.
pub open spec fn unsigned_text_value(s: Seq<char>) -> Option<nat> {
    let body = if s.len() > 0 && s[0] == '+' {
        s.drop_first()
    } else {
        s
    };
    if body.len() > 0 && all_digits(body) {
        Some(digits_value(body))
    } else {
        None
    }
}

/// What `str::parse` gives for an unsigned type whose largest value is `max`.
pub open spec fn parse_unsigned(s: Seq<char>, max: nat) -> Option<nat> {
    match unsigned_text_value(s) {
        Some(n) => if n <= max {
            Some(n)
        } else {
            None
        },
        None => None,
    }
}

pub proof fn lemma_digits_value_grows(s: Seq<char>, t: Seq<char>)
    requires
        all_digits(t),
    ensures
        digits_value(s + t) >= digits_value(s),
    decreases t.len(),
{
    if t.len() > 0 {
        let u = t.drop_last();
        assert((s + t).drop_last() == s + u);
        assert((s + t).last() == t.last());
        assert(all_digits(u)) by {
            assert forall|i: int| 0 <= i < u.len() implies is_digit(#[trigger] u[i]) by {
                assert(u[i] == t[i]);
            }
        }
        lemma_digits_value_grows(s, u);
    } else {
        assert(s + t == s);
    }
}

/// Reads `v[lo..hi]` the way `str::parse` reads an unsigned integer bounded by `max`.
pub fn parse_unsigned_chars(v: &Vec<char>, lo: usize, hi: usize, max: u64) -> (r: Option<u64>)
    requires
        lo <= hi <= v@.len(),
    ensures
        r == (match parse_unsigned(v@.subrange(lo as int, hi as int), max as nat) {
            Some(n) => Some(n as u64),
            None => None::<u64>,
        }),
{
    let ghost s = v@.subrange(lo as int, hi as int);
    let mut start = lo;
    if lo < hi && v[lo] == '+' {
        start = lo + 1;
        assert(s.drop_first() == v@.subrange(start as int, hi as int));
    }
    let ghost body = v@.subrange(start as int, hi as int);
    assert(body == (if s.len() > 0 && s[0] == '+' { s.drop_first() } else { s }));
    if start == hi {
        return None;
    }
    let mut acc: u64 = 0;
    let mut i = start;
    while i < hi
        invariant
            lo <= start <= i <= hi <= v@.len(),
            body == v@.subrange(start as int, hi as int),
            s == v@.subrange(lo as int, hi as int),
            body == (if s.len() > 0 && s[0] == '+' { s.drop_first() } else { s }),
            all_digits(v@.subrange(start as int, i as int)),
            acc as nat == digits_value(v@.subrange(start as int, i as int)),
            acc <= max,
        decreases hi - i,
    {
        let c = v[i];
        let ghost pre = v@.subrange(start as int, i as int);
        let ghost next = v@.subrange(start as int, i + 1);
        assert(next.drop_last() == pre);
        assert(next.last() == c);
        if !('0' <= c && c <= '9') {
            assert(body[i - start] == c);
            assert(!is_digit(body[i - start]));
            assert(!all_digits(body));
            return None;
        }
        assert(all_digits(next)) by {
            assert forall|j: int| 0 <= j < next.len() implies is_digit(#[trigger] next[j]) by {
                if j < pre.len() {
                    assert(next[j] == pre[j]);
                }
            }
        }
        let d = (c as u64) - ('0' as u64);
        if d > max || acc > (max - d) / 10 {
            // the value read so far already exceeds `max`, and more digits only make it larger
            assert(digits_value(next) > max) by (nonlinear_arith)
                requires
                    digits_value(next) == acc * 10 + d,
                    d > max || acc > (max - d) / 10,
                    d <= 9,
            ;
            proof {
                let rest = v@.subrange(i + 1, hi as int);
                assert(body == next + rest);
                if all_digits(body) {
                assert(all_digits(rest)) by {
                    assert forall|j: int| 0 <= j < rest.len() implies is_digit(#[trigger] rest[j]) by {
                        assert(rest[j] == v@[i + 1 + j]);
                        assert(body[i + 1 - start + j] == v@[i + 1 + j]);
                    }
                }
                lemma_digits_value_grows(next, rest);
                }
            }
            return None;
        }
        assert(acc * 10 + d <= max) by (nonlinear_arith)
            requires
                d <= max,
                acc <= (max - d) / 10,
        ;
        acc = acc * 10 + d;
        i = i + 1;
    }
    assert(v@.subrange(start as int, i as int) == body);
    Some(acc)
}

} // verus!

verus! {

pub open spec fn digit_char(d: nat) -> char {
    (d + '0' as nat) as char
}

/// The decimal writing of `n`, as `Display` prints an unsigned integer.
pub open spec fn decimal(n: nat) -> Seq<char>
    decreases n,
{
    if n < 10 {
        seq![digit_char(n)]
    } else {
        decimal(n / 10).push(digit_char(n % 10))
    }
}

/// Appends the decimal writing of `n` to `s`.
pub fn push_decimal(s: &mut String, n: u64)
    ensures
        final(s)@ == old(s)@ + decimal(n as nat),
    decreases n,
{
    if n >= 10 {
        push_decimal(s, n / 10);
    }
    let d = n % 10;
    let c = ((d as u8) + 48u8) as char;
    assert(c == digit_char(d as nat));
    push_char(s, c);
    proof {
        if n >= 10 {
            assert(old(s)@ + decimal(n as nat) == old(s)@ + decimal((n / 10) as nat) + seq![c]);
        } else {
            assert(decimal(n as nat) == seq![c]);
        }
    }
}

/// The decimal writing of a signed integer: a `-` in front of a negative one.
pub open spec fn signed_decimal(n: int) -> Seq<char> {
    if n < 0 {
        seq!['-'] + decimal((-n) as nat)
    } else {
        decimal(n as nat)
    }
}

/// Appends the decimal writing of `n` to `s`.
pub fn push_signed_decimal(s: &mut String, n: i32)
    ensures
        final(s)@ == old(s)@ + signed_decimal(n as int),
{
    if n < 0 {
        push_char(s, '-');
        let m: i64 = n as i64;
        push_decimal(s, (-m) as u64);
        assert(old(s)@ + signed_decimal(n as int) =~= old(s)@.push('-') + decimal((-n) as nat));
    } else {
        push_decimal(s, n as u64);
    }
}

/// Appends `t` to `s`.
pub fn push_str(s: &mut String, t: &str)
    ensures
        final(s)@ == old(s)@ + t@,
{
    s.append(t);
}

} // verus!

verus! {

/// Whether two string slices hold the same characters.
pub fn text_eq(a: &str, b: &str) -> (r: bool)
    ensures
        r == (a@ == b@),
{
    let va = chars_of(a);
    let vb = chars_of(b);
    chars_eq(&va, &vb)
}

/// Whether two character vectors are equal.
pub fn chars_eq(va: &Vec<char>, vb: &Vec<char>) -> (r: bool)
    ensures
        r == (va@ == vb@),
{
    if va.len() != vb.len() {
        return false;
    }
    let mut i: usize = 0;
    while i < va.len()
        invariant
            va@.len() == vb@.len(),
            0 <= i <= va@.len(),
            forall|j: int| 0 <= j < i ==> va@[j] == vb@[j],
        decreases va.len() - i,
    {
        if va[i] != vb[i] {
            return false;
        }
        i = i + 1;
    }
    assert(va@ =~= vb@);
    true
}

} // verus!

verus! {

/// `str::split` with the pattern `p`: the pieces between the occurrences of `p`, found from
/// the left without overlap.
pub open spec fn split_by(s: Seq<char>, p: Seq<char>) -> Seq<Seq<char>>
    decreases s.len(),
{
    if p.len() > 0 && s.len() >= p.len() && s.take(p.len() as int) == p {
        seq![Seq::<char>::empty()] + split_by(s.skip(p.len() as int), p)
    } else if s.len() == 0 {
        seq![Seq::<char>::empty()]
    } else {
        let r = split_by(s.drop_first(), p);
        r.update(0, seq![s[0]] + r[0])
    }
}

/// `q` with `cur` put in front of its first piece.
pub open spec fn prefixed(cur: Seq<char>, q: Seq<Seq<char>>) -> Seq<Seq<char>> {
    q.update(0, cur + q[0])
}

/// The texts of the ranges `rs` of `v`.
pub open spec fn ranges_text(v: Seq<char>, rs: Seq<(usize, usize)>) -> Seq<Seq<char>> {
    rs.map_values(|r: (usize, usize)| v.subrange(r.0 as int, r.1 as int))
}

pub proof fn lemma_split_by_nonempty(s: Seq<char>, p: Seq<char>)
    ensures
        split_by(s, p).len() >= 1,
    decreases s.len(),
{
    if p.len() > 0 && s.len() >= p.len() && s.take(p.len() as int) == p {
        lemma_split_by_nonempty(s.skip(p.len() as int), p);
    } else if s.len() == 0 {
    } else {
        lemma_split_by_nonempty(s.drop_first(), p);
    }
}

/// Whether `v[i..]` starts with `p`.
fn starts_with_at(v: &Vec<char>, i: usize, hi: usize, p: &Vec<char>) -> (r: bool)
    requires
        i <= hi <= v@.len(),
    ensures
        r == (hi - i >= p@.len() && v@.subrange(i as int, hi as int).take(p@.len() as int) == p@),
{
    if hi - i < p.len() {
        return false;
    }
    let mut k: usize = 0;
    while k < p.len()
        invariant
            i + p@.len() <= hi <= v@.len(),
            0 <= k <= p@.len(),
            forall|m: int| 0 <= m < k ==> v@[i + m] == p@[m],
        decreases p.len() - k,
    {
        if v[i + k] != p[k] {
            assert(v@.subrange(i as int, hi as int).take(p@.len() as int)[k as int] == v@[i + k]);
            return false;
        }
        k = k + 1;
    }
    assert(v@.subrange(i as int, hi as int).take(p@.len() as int) =~= p@);
    true
}

/// The ranges of the pieces of `v[lo..hi]` between the occurrences of `p` (`str::split`).
pub fn split_ranges(v: &Vec<char>, lo: usize, hi: usize, p: &Vec<char>) -> (rs: Vec<(usize, usize)>)
    requires
        lo <= hi <= v@.len(),
        p@.len() > 0,
    ensures
        ranges_text(v@, rs@) == split_by(v@.subrange(lo as int, hi as int), p@),
        forall|k: int| 0 <= k < rs@.len() ==> lo <= (#[trigger] rs@[k]).0 <= rs@[k].1 <= hi,
{
    let mut rs: Vec<(usize, usize)> = Vec::new();
    let mut start = lo;
    let mut i = lo;
    proof {
        lemma_split_by_nonempty(v@.subrange(lo as int, hi as int), p@);
        assert(v@.subrange(lo as int, lo as int) == Seq::<char>::empty());
        let q = split_by(v@.subrange(lo as int, hi as int), p@);
        assert(prefixed(Seq::<char>::empty(), q) =~= q);
        assert(ranges_text(v@, rs@) == Seq::<Seq<char>>::empty());
        assert(Seq::<Seq<char>>::empty() + q == q);
    }
    while i < hi
        invariant
            lo <= start <= i <= hi <= v@.len(),
            p@.len() > 0,
            forall|k: int| 0 <= k < rs@.len() ==> lo <= (#[trigger] rs@[k]).0 <= rs@[k].1 <= hi,
            split_by(v@.subrange(lo as int, hi as int), p@) == ranges_text(v@, rs@) + prefixed(
                v@.subrange(start as int, i as int),
                split_by(v@.subrange(i as int, hi as int), p@),
            ),
        decreases hi - i,
    {
        let ghost cur = v@.subrange(start as int, i as int);
        let ghost rest = v@.subrange(i as int, hi as int);
        let ghost old_rt = ranges_text(v@, rs@);
        if starts_with_at(v, i, hi, p) {
            let ghost q = split_by(rest.skip(p@.len() as int), p@);
            proof {
                lemma_split_by_nonempty(rest.skip(p@.len() as int), p@);
                assert(split_by(rest, p@) == seq![Seq::<char>::empty()] + q);
                assert(prefixed(cur, seq![Seq::<char>::empty()] + q) =~= seq![cur] + q);
                assert(rest.skip(p@.len() as int) =~= v@.subrange(i + p@.len(), hi as int));
                assert(prefixed(Seq::<char>::empty(), q) =~= q);
            }
            rs.push((start, i));
            assert(ranges_text(v@, rs@) =~= old_rt.push(cur));
            assert(old_rt + (seq![cur] + q) =~= old_rt.push(cur) + q);
            i = i + p.len();
            start = i;
            assert(v@.subrange(start as int, i as int) =~= Seq::<char>::empty());
        } else {
            let ghost r = split_by(rest.drop_first(), p@);
            proof {
                lemma_split_by_nonempty(rest.drop_first(), p@);
                assert(rest.len() > 0);
                assert(split_by(rest, p@) == r.update(0, seq![rest[0]] + r[0]));
                assert(rest[0] == v@[i as int]);
                assert(rest.drop_first() =~= v@.subrange(i + 1, hi as int));
                assert(v@.subrange(start as int, i + 1) =~= cur.push(v@[i as int]));
                let x = v@[i as int];
                let u = r.update(0, seq![x] + r[0]);
                assert(u[0] == seq![x] + r[0]);
                assert(cur + (seq![x] + r[0]) =~= cur.push(x) + r[0]);
                assert(u.update(0, cur + u[0]) =~= r.update(0, cur.push(x) + r[0]));
                assert(prefixed(cur, r.update(0, seq![rest[0]] + r[0])) =~= prefixed(
                    cur.push(v@[i as int]),
                    r,
                ));
            }
            i = i + 1;
        }
    }
    let ghost cur = v@.subrange(start as int, hi as int);
    let ghost old_rt = ranges_text(v@, rs@);
    assert(v@.subrange(hi as int, hi as int) =~= Seq::<char>::empty());
    assert(split_by(Seq::<char>::empty(), p@) == seq![Seq::<char>::empty()]);
    assert(prefixed(cur, seq![Seq::<char>::empty()]) =~= seq![cur]);
    rs.push((start, hi));
    assert(ranges_text(v@, rs@) =~= old_rt.push(cur));
    rs
}

} // verus!

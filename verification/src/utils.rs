use vstd::prelude::*;

use crate::text::{chars_of, is_ws, lemma_split_by_nonempty, ranges_text, split_by, split_ranges, string_from_chars, trim, trim_bounds, trim_end, trim_start};

verus! {

/// `s` with every `\` followed by `n` replaced by a line feed, from the left.
pub open spec fn unescape_newlines(s: Seq<char>) -> Seq<char>
    decreases s.len(),
{
    if s.len() >= 2 && s[0] == '\\' && s[1] == 'n' {
        seq!['\n'] + unescape_newlines(s.skip(2))
    } else if s.len() == 0 {
        Seq::empty()
    } else {
        seq![s[0]] + unescape_newlines(s.drop_first())
    }
}

/// The trimmed pieces, without the empty ones.
pub open spec fn nonempty_trimmed(ps: Seq<Seq<char>>) -> Seq<Seq<char>>
    decreases ps.len(),
{
    if ps.len() == 0 {
        Seq::empty()
    } else {
        let before = nonempty_trimmed(ps.drop_last());
        let t = trim(ps.last());
        if t.len() > 0 {
            before.push(t)
        } else {
            before
        }
    }
}

/// The pages of a dialogue text: written `\n` sequences become line breaks, a blank line
/// (two line feeds) separates pages, pages are trimmed and empty pages dropped.
pub open spec fn dialogue_pages(text: Seq<char>) -> Seq<Seq<char>> {
    nonempty_trimmed(split_by(unescape_newlines(text), seq!['\n', '\n']))
}

fn unescape(v: &Vec<char>) -> (r: Vec<char>)
    ensures
        r@ == unescape_newlines(v@),
{
    let mut r: Vec<char> = Vec::new();
    let mut i: usize = 0;
    assert(v@.skip(0) == v@);
    while i < v.len()
        invariant
            0 <= i <= v@.len(),
            r@ + unescape_newlines(v@.skip(i as int)) == unescape_newlines(v@),
        decreases v.len() - i,
    {
        let ghost rest = v@.skip(i as int);
        if i + 1 < v.len() && v[i] == '\\' && v[i + 1] == 'n' {
            assert(rest[0] == v@[i as int] && rest[1] == v@[i + 1]);
            assert(rest.skip(2) == v@.skip(i + 2));
            r.push('\n');
            assert(r@ + unescape_newlines(v@.skip(i + 2)) =~= (r@.drop_last() + (seq!['\n'] + unescape_newlines(rest.skip(2)))));
            i = i + 2;
        } else {
            assert(rest[0] == v@[i as int]);
            assert(rest.drop_first() == v@.skip(i + 1));
            let ghost before = r@;
            r.push(v[i]);
            assert(r@ + unescape_newlines(v@.skip(i + 1)) =~= before + (seq![rest[0]] + unescape_newlines(rest.drop_first())));
            i = i + 1;
        }
    }
    assert(v@.skip(i as int) == Seq::<char>::empty());
    assert(r@ + Seq::<char>::empty() == r@);
    r
}

/// Splits a dialogue text into its pages (see [`dialogue_pages`]).
pub fn split_dialogue(text: &str) -> (pages: Vec<String>)
    ensures
        pages@.map_values(|p: String| p@) == dialogue_pages(text@),
{
    let v = unescape(&chars_of(text));
    let sep = vec!['\n', '\n'];
    assert(sep@ =~= seq!['\n', '\n']);
    let parts = split_ranges(&v, 0, v.len(), &sep);
    assert(v@.subrange(0, v@.len() as int) == v@);
    let ghost ps = ranges_text(v@, parts@);
    let mut pages: Vec<String> = Vec::new();
    assert(ps.take(0) == Seq::<Seq<char>>::empty());
    assert(pages@.map_values(|p: String| p@) =~= Seq::<Seq<char>>::empty());
    let mut k: usize = 0;
    while k < parts.len()
        invariant
            0 <= k <= parts@.len(),
            ps == ranges_text(v@, parts@),
            forall|m: int| 0 <= m < parts@.len() ==> 0 <= (#[trigger] parts@[m]).0 <= parts@[m].1 <= v@.len(),
            pages@.map_values(|p: String| p@) == nonempty_trimmed(ps.take(k as int)),
        decreases parts.len() - k,
    {
        let (lo, hi) = parts[k];
        assert(ps[k as int] == v@.subrange(lo as int, hi as int));
        assert(ps.take(k + 1).drop_last() == ps.take(k as int));
        assert(ps.take(k + 1).last() == ps[k as int]);
        let (a, b) = trim_bounds(&v, lo, hi);
        if a < b {
            let page = string_from_chars(&v, a, b);
            let ghost before = pages@.map_values(|p: String| p@);
            pages.push(page);
            assert(pages@.map_values(|p: String| p@) =~= before.push(page@));
        }
        k = k + 1;
    }
    assert(ps.take(ps.len() as int) == ps);
    pages
}

/// A page as a dialogue shows it: not empty, neither starting nor ending with whitespace.
pub open spec fn is_clean_page(t: Seq<char>) -> bool {
    t.len() > 0 && !is_ws(t[0]) && !is_ws(t.last())
}

proof fn lemma_trim_start(s: Seq<char>)
    ensures
        trim_start(s).len() > 0 ==> !is_ws(trim_start(s)[0]),
    decreases s.len(),
{
    if s.len() > 0 && is_ws(s[0]) {
        lemma_trim_start(s.drop_first());
    }
}

proof fn lemma_trim_end(t: Seq<char>)
    ensures
        trim_end(t).len() <= t.len(),
        trim_end(t) == t.take(trim_end(t).len() as int),
        trim_end(t).len() > 0 ==> !is_ws(trim_end(t).last()),
        t.len() > 0 && !is_ws(t[0]) ==> trim_end(t).len() > 0,
    decreases t.len(),
{
    if t.len() > 0 && is_ws(t.last()) {
        let u = t.drop_last();
        lemma_trim_end(u);
        assert(u.take(trim_end(u).len() as int) =~= t.take(trim_end(u).len() as int));
        if t.len() > 0 && !is_ws(t[0]) {
            assert(u.len() > 0);
            assert(u[0] == t[0]);
        }
    } else {
        assert(t.take(t.len() as int) =~= t);
    }
}

proof fn lemma_trim_clean(s: Seq<char>)
    ensures
        trim(s).len() > 0 ==> is_clean_page(trim(s)),
{
    let a = trim_start(s);
    lemma_trim_start(s);
    lemma_trim_end(a);
    if trim(s).len() > 0 {
        assert(trim(s)[0] == a[0]);
    }
}

proof fn lemma_nonempty_trimmed_clean(ps: Seq<Seq<char>>)
    ensures
        forall|i: int| 0 <= i < nonempty_trimmed(ps).len() ==> is_clean_page(#[trigger] nonempty_trimmed(ps)[i]),
    decreases ps.len(),
{
    if ps.len() > 0 {
        let before = nonempty_trimmed(ps.drop_last());
        lemma_nonempty_trimmed_clean(ps.drop_last());
        lemma_trim_clean(ps.last());
        assert forall|i: int| 0 <= i < nonempty_trimmed(ps).len() implies is_clean_page(
            #[trigger] nonempty_trimmed(ps)[i],
        ) by {
            if i < before.len() {
                assert(nonempty_trimmed(ps)[i] == before[i]);
            }
        }
    }
}

/// Law: every page of a dialogue has something to show: it is not empty, and neither starts
/// nor ends with whitespace.
pub proof fn law_dialogue_pages_clean(text: Seq<char>)
    ensures
        forall|i: int| 0 <= i < dialogue_pages(text).len() ==> is_clean_page(#[trigger] dialogue_pages(text)[i]),
{
    lemma_nonempty_trimmed_clean(split_by(unescape_newlines(text), seq!['\n', '\n']));
}

/// Whether `a` directly followed by `b` occurs nowhere in `s`.
pub open spec fn no_pair(s: Seq<char>, a: char, b: char) -> bool {
    forall|i: int| 0 <= i < s.len() - 1 ==> !(#[trigger] s[i] == a && s[i + 1] == b)
}

/// Pages put back into one text, with a blank line between two pages.
pub open spec fn join_pages(ps: Seq<Seq<char>>) -> Seq<char>
    decreases ps.len(),
{
    if ps.len() == 0 {
        Seq::empty()
    } else if ps.len() == 1 {
        ps[0]
    } else {
        ps[0] + seq!['\n', '\n'] + join_pages(ps.drop_first())
    }
}

proof fn lemma_no_pair_concat(x: Seq<char>, y: Seq<char>, a: char, b: char)
    requires
        no_pair(x, a, b),
        no_pair(y, a, b),
        x.len() == 0 || y.len() == 0 || !(x.last() == a && y[0] == b),
    ensures
        no_pair(x + y, a, b),
{
    let s = x + y;
    assert forall|i: int| 0 <= i < s.len() - 1 implies !(#[trigger] s[i] == a && s[i + 1] == b) by {
        if i + 1 < x.len() {
            assert(s[i] == x[i] && s[i + 1] == x[i + 1]);
        } else if i >= x.len() {
            assert(s[i] == y[i - x.len()] && s[i + 1] == y[i + 1 - x.len()]);
        } else {
            assert(s[i] == x.last() && s[i + 1] == y[0]);
        }
    }
}

proof fn lemma_unescape_front(s: Seq<char>)
    ensures
        (unescape_newlines(s).len() == 0) == (s.len() == 0),
        s.len() > 0 && !(s.len() >= 2 && s[0] == '\\' && s[1] == 'n') ==> unescape_newlines(s)[0] == s[0],
    decreases s.len(),
{
}

proof fn lemma_unescape_no_escape(s: Seq<char>)
    ensures
        no_pair(unescape_newlines(s), '\\', 'n'),
    decreases s.len(),
{
    if s.len() >= 2 && s[0] == '\\' && s[1] == 'n' {
        lemma_unescape_no_escape(s.skip(2));
        lemma_no_pair_concat(seq!['\n'], unescape_newlines(s.skip(2)), '\\', 'n');
    } else if s.len() > 0 {
        let t = s.drop_first();
        lemma_unescape_no_escape(t);
        lemma_unescape_front(t);
        if t.len() > 0 && s[0] == '\\' {
            if t.len() >= 2 && t[0] == '\\' && t[1] == 'n' {
                assert(unescape_newlines(t)[0] == '\n');
            } else {
                assert(t[0] == s[1]);
            }
        }
        lemma_no_pair_concat(seq![s[0]], unescape_newlines(t), '\\', 'n');
    }
}

proof fn lemma_unescape_plain(s: Seq<char>)
    requires
        no_pair(s, '\\', 'n'),
    ensures
        unescape_newlines(s) == s,
    decreases s.len(),
{
    if s.len() > 0 {
        let t = s.drop_first();
        if s.len() >= 2 {
            assert(!(s[0] == '\\' && s[1] == 'n'));
        }
        assert(no_pair(t, '\\', 'n')) by {
            assert forall|i: int| 0 <= i < t.len() - 1 implies !(#[trigger] t[i] == '\\' && t[i + 1] == 'n') by {
                assert(t[i] == s[i + 1] && t[i + 1] == s[i + 2]);
            }
        }
        lemma_unescape_plain(t);
        assert(seq![s[0]] + t =~= s);
    }
}

proof fn lemma_no_pair_skip(s: Seq<char>, k: int, a: char, b: char)
    requires
        no_pair(s, a, b),
        0 <= k <= s.len(),
    ensures
        no_pair(s.skip(k), a, b),
{
    let t = s.skip(k);
    assert forall|i: int| 0 <= i < t.len() - 1 implies !(#[trigger] t[i] == a && t[i + 1] == b) by {
        assert(t[i] == s[i + k] && t[i + 1] == s[i + k + 1]);
    }
}

proof fn lemma_split_first_prefix(s: Seq<char>, p: Seq<char>)
    requires
        p.len() > 0,
    ensures
        split_by(s, p).len() >= 1,
        split_by(s, p)[0].len() <= s.len(),
        split_by(s, p)[0] == s.take(split_by(s, p)[0].len() as int),
    decreases s.len(),
{
    lemma_split_by_nonempty(s, p);
    if s.len() >= p.len() && s.take(p.len() as int) == p {
        lemma_split_by_nonempty(s.skip(p.len() as int), p);
        assert(s.take(0) =~= Seq::<char>::empty());
    } else if s.len() == 0 {
        assert(s.take(0) =~= Seq::<char>::empty());
    } else {
        let t = s.drop_first();
        lemma_split_first_prefix(t, p);
        let f = split_by(t, p)[0];
        assert(seq![s[0]] + f =~= s.take(f.len() + 1int));
    }
}

proof fn lemma_split_no_pair(s: Seq<char>, p: Seq<char>, a: char, b: char)
    requires
        p.len() == 2,
        no_pair(s, a, b) || (a == p[0] && b == p[1]),
    ensures
        forall|i: int| 0 <= i < split_by(s, p).len() ==> no_pair(#[trigger] split_by(s, p)[i], a, b),
    decreases s.len(),
{
    lemma_split_by_nonempty(s, p);
    if s.len() >= p.len() && s.take(p.len() as int) == p {
        let t = s.skip(2);
        if no_pair(s, a, b) {
            lemma_no_pair_skip(s, 2, a, b);
        }
        lemma_split_no_pair(t, p, a, b);
        assert forall|i: int| 0 <= i < split_by(s, p).len() implies no_pair(#[trigger] split_by(s, p)[i], a, b) by {
            if i > 0 {
                assert(split_by(s, p)[i] == split_by(t, p)[i - 1]);
            }
        }
    } else if s.len() == 0 {
    } else {
        let t = s.drop_first();
        if no_pair(s, a, b) {
            lemma_no_pair_skip(s, 1, a, b);
        }
        lemma_split_no_pair(t, p, a, b);
        lemma_split_first_prefix(t, p);
        let r = split_by(t, p);
        if r[0].len() > 0 {
            assert(r[0][0] == t[0]);
            assert(t[0] == s[1]);
            if s[0] == p[0] && s[1] == p[1] {
                assert(s.take(2) =~= p);
            }
        }
        lemma_no_pair_concat(seq![s[0]], r[0], a, b);
        assert forall|i: int| 0 <= i < split_by(s, p).len() implies no_pair(#[trigger] split_by(s, p)[i], a, b) by {
            if i > 0 {
                assert(split_by(s, p)[i] == r[i]);
            }
        }
    }
}

proof fn lemma_no_pair_take(s: Seq<char>, k: int, a: char, b: char)
    requires
        no_pair(s, a, b),
        0 <= k <= s.len(),
    ensures
        no_pair(s.take(k), a, b),
{
    let t = s.take(k);
    assert forall|i: int| 0 <= i < t.len() - 1 implies !(#[trigger] t[i] == a && t[i + 1] == b) by {
        assert(t[i] == s[i] && t[i + 1] == s[i + 1]);
    }
}

proof fn lemma_trim_no_pair(s: Seq<char>, a: char, b: char)
    requires
        no_pair(s, a, b),
    ensures
        no_pair(trim_start(s), a, b),
        no_pair(trim(s), a, b),
    decreases s.len(),
{
    if s.len() > 0 && is_ws(s[0]) {
        lemma_no_pair_skip(s, 1, a, b);
        lemma_trim_no_pair(s.drop_first(), a, b);
    }
    lemma_trim_end_no_pair(trim_start(s), a, b);
}

proof fn lemma_trim_end_no_pair(s: Seq<char>, a: char, b: char)
    requires
        no_pair(s, a, b),
    ensures
        no_pair(trim_end(s), a, b),
    decreases s.len(),
{
    if s.len() > 0 {
        lemma_no_pair_take(s, s.len() - 1, a, b);
        lemma_trim_end_no_pair(s.drop_last(), a, b);
    }
}

proof fn lemma_nonempty_trimmed_no_pair(ps: Seq<Seq<char>>, a: char, b: char)
    requires
        forall|i: int| 0 <= i < ps.len() ==> no_pair(#[trigger] ps[i], a, b),
    ensures
        forall|i: int| 0 <= i < nonempty_trimmed(ps).len() ==> no_pair(#[trigger] nonempty_trimmed(ps)[i], a, b),
    decreases ps.len(),
{
    if ps.len() > 0 {
        let before = nonempty_trimmed(ps.drop_last());
        assert forall|i: int| 0 <= i < ps.drop_last().len() implies no_pair(#[trigger] ps.drop_last()[i], a, b) by {
            assert(ps.drop_last()[i] == ps[i]);
        }
        lemma_nonempty_trimmed_no_pair(ps.drop_last(), a, b);
        assert(no_pair(ps[ps.len() - 1], a, b));
        lemma_trim_no_pair(ps.last(), a, b);
        assert forall|i: int| 0 <= i < nonempty_trimmed(ps).len() implies no_pair(
            #[trigger] nonempty_trimmed(ps)[i],
            a,
            b,
        ) by {
            if i < before.len() {
                assert(nonempty_trimmed(ps)[i] == before[i]);
            }
        }
    }
}

proof fn lemma_split_whole(s: Seq<char>, p: Seq<char>)
    requires
        p.len() == 2,
        no_pair(s, p[0], p[1]),
    ensures
        split_by(s, p) == seq![s],
    decreases s.len(),
{
    if s.len() >= 2 {
        assert(!(s[0] == p[0] && s[1] == p[1]));
        assert(s.take(2) != p) by {
            if s.take(2) == p {
                assert(s.take(2)[0] == s[0] && s.take(2)[1] == s[1]);
            }
        }
    }
    if s.len() == 0 {
        assert(s =~= Seq::<char>::empty());
    } else {
        let t = s.drop_first();
        lemma_no_pair_skip(s, 1, p[0], p[1]);
        lemma_split_whole(t, p);
        assert(seq![s[0]] + t =~= s);
        assert(split_by(s, p) =~= seq![s]);
    }
}

proof fn lemma_split_at_first(x: Seq<char>, y: Seq<char>, p: Seq<char>)
    requires
        p.len() == 2,
        no_pair(x, p[0], p[1]),
        x.len() == 0 || x.last() != p[0],
    ensures
        split_by(x + p + y, p) == seq![x] + split_by(y, p),
    decreases x.len(),
{
    let s = x + p + y;
    if x.len() == 0 {
        assert(s =~= p + y);
        assert(s.take(2) =~= p);
        assert(s.skip(2) =~= y);
        assert(x =~= Seq::<char>::empty());
    } else {
        assert(s.take(2) != p) by {
            if x.len() >= 2 {
                assert(s.take(2)[0] == x[0] && s.take(2)[1] == x[1]);
                assert(!(x[0] == p[0] && x[1] == p[1]));
            } else {
                assert(s.take(2)[0] == x[0] && x[0] == x.last());
            }
        }
        let t = x.drop_first();
        lemma_no_pair_skip(x, 1, p[0], p[1]);
        if t.len() > 0 {
            assert(t.last() == x.last());
        }
        lemma_split_at_first(t, y, p);
        assert(s.drop_first() =~= t + p + y);
        assert(seq![x[0]] + t =~= x);
        assert(split_by(s, p) =~= seq![x] + split_by(y, p));
    }
}

proof fn lemma_clean_trim_same(t: Seq<char>)
    requires
        is_clean_page(t),
    ensures
        trim(t) == t,
{
    assert(trim_start(t) == t);
}

proof fn lemma_nonempty_trimmed_same(ps: Seq<Seq<char>>)
    requires
        forall|i: int| 0 <= i < ps.len() ==> is_clean_page(#[trigger] ps[i]),
    ensures
        nonempty_trimmed(ps) == ps,
    decreases ps.len(),
{
    if ps.len() > 0 {
        assert forall|i: int| 0 <= i < ps.drop_last().len() implies is_clean_page(#[trigger] ps.drop_last()[i]) by {
            assert(ps.drop_last()[i] == ps[i]);
        }
        lemma_nonempty_trimmed_same(ps.drop_last());
        assert(is_clean_page(ps[ps.len() - 1]));
        lemma_clean_trim_same(ps.last());
        assert(ps.drop_last().push(ps.last()) =~= ps);
    }
}

/// Pages that a dialogue can show back to back: each is clean and holds neither a blank line
/// nor a written `\n`.
pub open spec fn plain_page(t: Seq<char>) -> bool {
    is_clean_page(t) && no_pair(t, '\n', '\n') && no_pair(t, '\\', 'n')
}

proof fn lemma_join_split(ps: Seq<Seq<char>>)
    requires
        ps.len() > 0,
        forall|i: int| 0 <= i < ps.len() ==> plain_page(#[trigger] ps[i]),
    ensures
        split_by(join_pages(ps), seq!['\n', '\n']) == ps,
        no_pair(join_pages(ps), '\\', 'n'),
    decreases ps.len(),
{
    let nn = seq!['\n', '\n'];
    assert(plain_page(ps[0]));
    if ps.len() == 1 {
        lemma_split_whole(ps[0], nn);
        assert(seq![ps[0]] =~= ps);
    } else {
        let rest = ps.drop_first();
        assert forall|i: int| 0 <= i < rest.len() implies plain_page(#[trigger] rest[i]) by {
            assert(rest[i] == ps[i + 1]);
        }
        lemma_join_split(rest);
        let j = join_pages(rest);
        lemma_split_at_first(ps[0], j, nn);
        assert(seq![ps[0]] + rest =~= ps);
        assert(plain_page(rest[0]));
        assert(j[0] == rest[0][0]) by {
            if rest.len() > 1 {
                assert(j == rest[0] + nn + join_pages(rest.drop_first()));
            }
        }
        lemma_no_pair_concat(ps[0], nn, '\\', 'n');
        lemma_no_pair_concat(ps[0] + nn, j, '\\', 'n');
    }
}

/// Law: the pages of a dialogue are stable. No page holds a blank line or a written `\n`,
/// each page read as a dialogue of its own is that one page, and the pages put back together
/// with blank lines between them give the same pages again.
pub proof fn law_dialogue_pages_stable(text: Seq<char>)
    ensures
        forall|i: int| 0 <= i < dialogue_pages(text).len() ==> plain_page(#[trigger] dialogue_pages(text)[i]),
        forall|i: int|
            0 <= i < dialogue_pages(text).len() ==> dialogue_pages(#[trigger] dialogue_pages(text)[i])
                == seq![dialogue_pages(text)[i]],
        dialogue_pages(join_pages(dialogue_pages(text))) == dialogue_pages(text),
{
    let nn = seq!['\n', '\n'];
    let u = unescape_newlines(text);
    let parts = split_by(u, nn);
    let r = dialogue_pages(text);
    law_dialogue_pages_clean(text);
    lemma_unescape_no_escape(text);
    lemma_split_no_pair(u, nn, '\n', '\n');
    lemma_split_no_pair(u, nn, '\\', 'n');
    lemma_nonempty_trimmed_no_pair(parts, '\n', '\n');
    lemma_nonempty_trimmed_no_pair(parts, '\\', 'n');
    assert forall|i: int| 0 <= i < r.len() implies dialogue_pages(#[trigger] r[i]) == seq![r[i]] by {
        let p = r[i];
        assert(plain_page(p));
        assert(nn[0] == '\n' && nn[1] == '\n');
        lemma_unescape_plain(p);
        assert(unescape_newlines(p) == p);
        lemma_split_whole(p, nn);
        assert(split_by(p, nn) == seq![p]);
        lemma_clean_trim_same(p);
        assert(seq![p].drop_last() =~= Seq::<Seq<char>>::empty());
        assert(nonempty_trimmed(Seq::<Seq<char>>::empty()) == Seq::<Seq<char>>::empty());
        assert(seq![p].last() == p);
        assert(Seq::<Seq<char>>::empty().push(p) =~= seq![p]);
        assert(nonempty_trimmed(seq![p]) == seq![p]);
    }
    if r.len() == 0 {
        let e = Seq::<char>::empty();
        assert(join_pages(r) == e);
        assert(unescape_newlines(e) == e);
        assert(split_by(e, nn) == seq![e]);
        assert(seq![e].drop_last() =~= Seq::<Seq<char>>::empty());
        assert(seq![e].last() == e);
        assert(trim_start(e) == e);
        assert(trim(e) == e);
        assert(nonempty_trimmed(seq![e]) == nonempty_trimmed(Seq::<Seq<char>>::empty()));
        assert(r =~= Seq::<Seq<char>>::empty());
    } else {
        lemma_join_split(r);
        lemma_unescape_plain(join_pages(r));
        assert forall|i: int| 0 <= i < r.len() implies is_clean_page(#[trigger] r[i]) by {
            assert(plain_page(r[i]));
        }
        lemma_nonempty_trimmed_same(r);
        assert(split_by(unescape_newlines(join_pages(r)), nn) == r);
    }
}

} // verus!

//! Trimming a text and cutting it into words and lines.

use crate::text::{
    ascii_lower, find_from, is_white, line_at, lines_from, lines_of, skip_white, skip_white_back,
    trimmed, word_end, words_from, words_of,
};
use vstd::prelude::*;

verus! {

/// Whether a text is white space only.
pub open spec fn blank(s: Seq<char>) -> bool {
    forall|i: int| 0 <= i < s.len() ==> is_white(#[trigger] s[i])
}

proof fn lemma_skips(s: Seq<char>, i: int, e: int)
    requires
        0 <= i <= e <= s.len(),
        forall|k: int| i <= k < e ==> is_white(#[trigger] s[k]),
        e < s.len() ==> !is_white(s[e]),
    ensures
        skip_white(s, i) == e,
    decreases e - i,
{
    if i < e {
        lemma_skips(s, i + 1, e);
    }
}

proof fn lemma_skips_back(s: Seq<char>, from: int, e: int, to: int)
    requires
        0 <= from <= e <= to <= s.len(),
        forall|k: int| e <= k < to ==> is_white(#[trigger] s[k]),
        from < e ==> !is_white(s[e - 1]),
    ensures
        skip_white_back(s, from, to) == e,
    decreases to - e,
{
    if e < to {
        lemma_skips_back(s, from, e, to - 1);
    }
}

/// White space at both ends goes, and nothing else; a blank text is then empty.
pub proof fn law_trimmed(a: Seq<char>, t: Seq<char>, b: Seq<char>)
    requires
        blank(a),
        blank(b),
        t.len() > 0,
        !is_white(t[0]),
        !is_white(t.last()),
    ensures
        trimmed(a + t + b) == t,
        trimmed(a).len() == 0,
{
    let s = a + t + b;
    let (i, j) = (a.len() as int, (a.len() + t.len()) as int);
    assert forall|k: int| 0 <= k < i implies is_white(#[trigger] s[k]) by {
        assert(s[k] == a[k]);
    }
    assert forall|k: int| j <= k < s.len() implies is_white(#[trigger] s[k]) by {
        assert(s[k] == b[k - j]);
    }
    assert(s[i] == t[0]);
    assert(s[j - 1] == t.last());
    lemma_skips(s, 0, i);
    lemma_skips_back(s, i, j, s.len() as int);
    assert(s.subrange(i, j) =~= t);
    lemma_skips(a, 0, i);
    lemma_skips_back(a, i, i, i);
}

/// A word alone is the one word of a text.
pub proof fn law_one_word(w: Seq<char>)
    requires
        w.len() > 0,
        forall|i: int| 0 <= i < w.len() ==> !is_white(#[trigger] w[i]),
    ensures
        words_of(w) == seq![w],
        words_of(Seq::<char>::empty()) == Seq::<Seq<char>>::empty(),
{
    assert(!is_white(w[0]));
    assert(skip_white(w, 0) == 0);
    lemma_word(w, 0, w.len() as int);
    assert(w.subrange(0, w.len() as int) =~= w);
    let e = w.len() as int;
    assert(skip_white(w, e) == e);
    assert(words_from(w, e) == Seq::<Seq<char>>::empty());
    assert(seq![w] + Seq::<Seq<char>>::empty() =~= seq![w]);
    assert(skip_white(Seq::<char>::empty(), 0) == 0);
}

proof fn lemma_word(s: Seq<char>, i: int, e: int)
    requires
        0 <= i <= e <= s.len(),
        forall|k: int| i <= k < e ==> !is_white(#[trigger] s[k]),
        e < s.len() ==> is_white(s[e]),
    ensures
        word_end(s, i) == e,
    decreases e - i,
{
    if i < e {
        lemma_word(s, i + 1, e);
    }
}

proof fn lemma_word_inside(s: Seq<char>, i: int)
    requires
        0 <= i <= s.len(),
    ensures
        i <= word_end(s, i) <= s.len(),
        forall|k: int| i <= k < word_end(s, i) ==> !is_white(#[trigger] s[k]),
        word_end(s, i) < s.len() ==> is_white(s[word_end(s, i)]),
    decreases s.len() - i,
{
    if i < s.len() && !is_white(s[i]) {
        lemma_word_inside(s, i + 1);
    }
}

proof fn lemma_skip_inside(s: Seq<char>, i: int)
    requires
        0 <= i <= s.len(),
    ensures
        i <= skip_white(s, i) <= s.len(),
        forall|k: int| i <= k < skip_white(s, i) ==> is_white(#[trigger] s[k]),
        skip_white(s, i) < s.len() ==> !is_white(s[skip_white(s, i)]),
    decreases s.len() - i,
{
    if i < s.len() && is_white(s[i]) {
        lemma_skip_inside(s, i + 1);
    }
}

/// The words of a text do not depend on what stands before them.
proof fn lemma_words_behind(pre: Seq<char>, t: Seq<char>, j: int)
    requires
        0 <= j <= t.len(),
    ensures
        words_from(pre + t, pre.len() + j) == words_from(t, j),
    decreases t.len() - j,
{
    let u = pre + t;
    let n = pre.len() as int;
    lemma_skip_inside(t, j);
    let a = skip_white(t, j);
    assert forall|k: int| n + j <= k < n + a implies is_white(#[trigger] u[k]) by {
        assert(u[k] == t[k - n]);
    }
    assert(a < t.len() ==> u[n + a] == t[a]);
    lemma_skips(u, n + j, n + a);
    if a < t.len() {
        lemma_word_inside(t, a);
        let b = word_end(t, a);
        assert forall|k: int| n + a <= k < n + b implies !is_white(#[trigger] u[k]) by {
            assert(u[k] == t[k - n]);
        }
        assert(b < t.len() ==> u[n + b] == t[b]);
        lemma_word(u, n + a, n + b);
        assert(b > a) by {
            if b == a {
                assert(is_white(t[a]));
            }
        }
        lemma_words_behind(pre, t, b);
        assert(u.subrange(n + a, n + b) =~= t.subrange(a, b));
    }
}

proof fn lemma_words_before(s: Seq<char>, c: char, t: Seq<char>, i: int)
    requires
        is_white(c),
        0 <= i <= s.len(),
    ensures
        words_from(s + seq![c] + t, i) == words_from(s, i) + words_of(t),
    decreases s.len() - i,
{
    let pre = s + seq![c];
    let u = pre + t;
    let n = s.len() as int;
    lemma_skip_inside(s, i);
    let a = skip_white(s, i);
    if a < n {
        lemma_word_inside(s, a);
        let b = word_end(s, a);
        assert forall|k: int| i <= k < a implies is_white(#[trigger] u[k]) by {
            assert(u[k] == s[k]);
        }
        assert(u[a] == s[a]);
        lemma_skips(u, i, a);
        assert forall|k: int| a <= k < b implies !is_white(#[trigger] u[k]) by {
            assert(u[k] == s[k]);
        }
        assert(is_white(u[b])) by {
            if b < n {
                assert(u[b] == s[b]);
            } else {
                assert(u[n] == c);
            }
        }
        lemma_word(u, a, b);
        assert(b > a) by {
            if b == a {
                assert(is_white(s[a]));
            }
        }
        lemma_words_before(s, c, t, b);
        assert(u.subrange(a, b) =~= s.subrange(a, b));
        assert(seq![s.subrange(a, b)] + (words_from(s, b) + words_of(t)) =~= seq![s.subrange(a, b)]
            + words_from(s, b) + words_of(t));
    } else {
        lemma_words_behind(pre, t, 0);
        lemma_skip_inside(t, 0);
        let e = skip_white(t, 0);
        assert forall|k: int| i <= k < n + 1 + e implies is_white(#[trigger] u[k]) by {
            if k < n {
                assert(u[k] == s[k]);
            } else if k > n {
                assert(u[k] == t[k - n - 1]);
            }
        }
        assert(e < t.len() ==> u[n + 1 + e] == t[e]);
        lemma_skips(u, i, n + 1 + e);
        lemma_skips(u, n + 1, n + 1 + e);
        assert(words_from(u, i) == words_from(u, n + 1));
        assert(words_from(s, i) == Seq::<Seq<char>>::empty());
        assert(Seq::<Seq<char>>::empty() + words_of(t) =~= words_of(t));
    }
}

/// White space between two texts keeps their words apart: those of the first
/// come first, and none is lost.
pub proof fn law_words_joined(s: Seq<char>, c: char, t: Seq<char>)
    requires
        is_white(c),
    ensures
        words_of(s + seq![c] + t) == words_of(s) + words_of(t),
{
    lemma_words_before(s, c, t, 0);
}

proof fn lemma_found(s: Seq<char>, c: char, i: int, e: int)
    requires
        0 <= i <= e <= s.len(),
        forall|k: int| i <= k < e ==> s[k] != c,
        e < s.len() ==> s[e] == c,
    ensures
        find_from(s, c, i) == e,
    decreases e - i,
{
    if i < e {
        lemma_found(s, c, i + 1, e);
    }
}

proof fn lemma_lines_behind(pre: Seq<char>, t: Seq<char>, j: int)
    requires
        0 <= j <= t.len(),
    ensures
        lines_from(pre + t, pre.len() + j) == lines_from(t, j),
    decreases t.len() - j,
{
    let u = pre + t;
    let n = pre.len() as int;
    if j < t.len() {
        crate::text::lemma_find_from(t, '\n', j);
        let e = find_from(t, '\n', j);
        assert forall|k: int| n + j <= k < n + e implies u[k] != '\n' by {
            assert(u[k] == t[k - n]);
        }
        assert(e < t.len() ==> u[n + e] == t[e]);
        lemma_found(u, '\n', n + j, n + e);
        assert(line_at(u, n + j, n + e) == line_at(t, j, e)) by {
            assert(u.subrange(n + j, n + e) =~= t.subrange(j, e));
            if j < e {
                assert(u[n + e - 1] == t[e - 1]);
                assert(u.subrange(n + j, n + e - 1) =~= t.subrange(j, e - 1));
            }
        }
        if e < t.len() {
            lemma_lines_behind(pre, t, e + 1);
        } else {
            assert(lines_from(t, e + 1) == Seq::<Seq<char>>::empty());
            assert(lines_from(u, n + e + 1) == Seq::<Seq<char>>::empty());
        }
    }
}

/// A newline ends a line, alone or behind a carriage return; what follows is cut
/// in the same way. The last line needs none.
pub proof fn law_lines_joined(s: Seq<char>, t: Seq<char>)
    requires
        forall|i: int| 0 <= i < s.len() ==> s[i] != '\n',
    ensures
        lines_of(s + seq!['\r', '\n'] + t) == seq![s] + lines_of(t),
        s.len() == 0 || s.last() != '\r' ==> lines_of(s + seq!['\n'] + t) == seq![s] + lines_of(t),
        s.len() > 0 ==> lines_of(s) == seq![s],
        lines_of(Seq::<char>::empty()) == Seq::<Seq<char>>::empty(),
{
    let n = s.len() as int;
    let a = s + seq!['\r', '\n'];
    let u = a + t;
    assert forall|k: int| 0 <= k < n + 1 implies u[k] != '\n' by {
        if k < n {
            assert(u[k] == s[k]);
        }
    }
    assert(u[n] == '\r' && u[n + 1] == '\n');
    lemma_found(u, '\n', 0, n + 1);
    assert(u.subrange(0, n) =~= s);
    lemma_lines_behind(a, t, 0);
    let b = s + seq!['\n'];
    let v = b + t;
    assert forall|k: int| 0 <= k < n implies v[k] != '\n' by {
        assert(v[k] == s[k]);
    }
    assert(v[n] == '\n');
    lemma_found(v, '\n', 0, n);
    assert(v.subrange(0, n) =~= s);
    assert(n > 0 ==> v[n - 1] == s.last());
    lemma_lines_behind(b, t, 0);
    if n > 0 {
        lemma_found(s, '\n', 0, n);
        assert(s.subrange(0, n) =~= s);
        assert(lines_from(s, n + 1) == Seq::<Seq<char>>::empty());
        assert(seq![s] + Seq::<Seq<char>>::empty() =~= seq![s]);
    }
}

/// Of the ASCII characters the blank, the tab and the ends of lines and pages
/// are white space, and no character that prints.
pub proof fn law_white_space(c: char)
    ensures
        is_white(' ') && is_white('\t') && is_white('\n') && is_white('\r'),
        33 <= c as int <= 126 ==> !is_white(c),
        14 <= c as int <= 31 ==> !is_white(c),
        9 <= c as int <= 13 ==> is_white(c),
{
}

/// Capital letters have small letters 32 places behind them; nothing else
/// changes.
pub proof fn law_small_letters(c: char)
    ensures
        'A' <= c && c <= 'Z' ==> ascii_lower(c) as int == c as int + 32,
        c < 'A' || c > 'Z' ==> ascii_lower(c) == c,
{
}

} // verus!

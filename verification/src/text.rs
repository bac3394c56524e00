//! Character-level helpers: building strings, Unicode whitespace, splitting
//! into words, ASCII/Unicode lowercasing.

use vstd::prelude::*;
use vstd::string::*;

verus! {

/// `String::push`: appends one character.
#[verifier::external_body]
pub(crate) fn push_char(s: &mut String, c: char)
    ensures
        final(s)@ == old(s)@.push(c),
{
    s.push(c);
}

/// A fresh `String` holding the characters of `s`.
pub fn owned(s: &str) -> (r: String)
    ensures
        r@ == s@,
{
    s.to_owned()
}

/// The characters of `s`, in order.
pub fn chars_of(s: &str) -> (cs: Vec<char>)
    ensures
        cs@ == s@,
{
    let n = s.unicode_len();
    let mut cs: Vec<char> = Vec::new();
    let mut i: usize = 0;
    while i < n
        invariant
            n == s@.len(),
            i <= n,
            cs@ == s@.take(i as int),
        decreases n - i,
    {
        let c = s.get_char(i);
        cs.push(c);
        i = i + 1;
        assert(cs@ =~= s@.take(i as int));
    }
    assert(s@.take(n as int) =~= s@);
    cs
}

/// The `String` of a sequence of characters.
pub fn string_of_chars(cs: &Vec<char>) -> (s: String)
    ensures
        s@ == cs@,
{
    let mut s = String::new();
    let mut i: usize = 0;
    while i < cs.len()
        invariant
            i <= cs.len(),
            s@ == cs@.take(i as int),
        decreases cs.len() - i,
    {
        push_char(&mut s, cs[i]);
        i = i + 1;
        assert(s@ =~= cs@.take(i as int));
    }
    assert(cs@.take(cs.len() as int) =~= cs@);
    s
}

/// Equality of two texts.
pub fn str_eq(a: &str, b: &str) -> (eq: bool)
    ensures
        eq == (a@ == b@),
{
    let a_owned = a.to_owned();
    let b_owned = b.to_owned();
    a_owned == b_owned
}

/// Concatenation of two strings into a new one.
pub fn concat(a: &str, b: &str) -> (r: String)
    ensures
        r@ == a@ + b@,
{
    let mut r = a.to_owned();
    r.append(b);
    r
}

/// Unicode `White_Space` (what `char::is_whitespace` tests).
pub open spec fn is_unicode_whitespace(c: char) -> bool {
    let v = c as u32;
    ||| (0x09 <= v && v <= 0x0D)
    ||| v == 0x20
    ||| v == 0x85
    ||| v == 0xA0
    ||| v == 0x1680
    ||| (0x2000 <= v && v <= 0x200A)
    ||| v == 0x2028
    ||| v == 0x2029
    ||| v == 0x202F
    ||| v == 0x205F
    ||| v == 0x3000
}

/// Whether `c` is Unicode whitespace.
pub fn is_whitespace(c: char) -> (b: bool)
    ensures
        b == is_unicode_whitespace(c),
{
    let v = c as u32;
    (0x09 <= v && v <= 0x0D) || v == 0x20 || v == 0x85 || v == 0xA0 || v == 0x1680 || (0x2000
        <= v && v <= 0x200A) || v == 0x2028 || v == 0x2029 || v == 0x202F || v == 0x205F || v
        == 0x3000
}

/// The maximal runs of non-whitespace characters of `s`, in order
/// (what `str::split_whitespace` yields).
pub open spec fn ws_words(s: Seq<char>) -> Seq<Seq<char>>
    decreases s.len(),
{
    if s.len() == 0 {
        Seq::empty()
    } else {
        let words = ws_words(s.drop_last());
        let c = s.last();
        if is_unicode_whitespace(c) {
            words
        } else if s.len() >= 2 && !is_unicode_whitespace(s[s.len() - 2]) {
            words.update(words.len() - 1, words.last().push(c))
        } else {
            words.push(seq![c])
        }
    }
}

/// Words joined by single spaces.
pub open spec fn join_spaced(words: Seq<Seq<char>>) -> Seq<char>
    decreases words.len(),
{
    if words.len() == 0 {
        Seq::empty()
    } else if words.len() == 1 {
        words[0]
    } else {
        join_spaced(words.drop_last()) + seq![' '] + words.last()
    }
}

/// `ws_words` of a non-empty text ending in a non-space character has a
/// last word, which is non-empty.
proof fn lemma_ws_words_nonempty_last(s: Seq<char>)
    requires
        s.len() > 0,
        !is_unicode_whitespace(s.last()),
    ensures
        ws_words(s).len() > 0,
        ws_words(s).last().len() > 0,
    decreases s.len(),
{
    if s.len() >= 2 && !is_unicode_whitespace(s[s.len() - 2]) {
        lemma_ws_words_nonempty_last(s.drop_last());
    }
}

/// The words of `s`, each as a `String`.
pub fn split_whitespace(s: &str) -> (words: Vec<String>)
    ensures
        words@.len() == ws_words(s@).len(),
        forall|i: int| 0 <= i < words@.len() ==> #[trigger] words@[i]@ == ws_words(s@)[i],
{
    let cs = chars_of(s);
    let mut words: Vec<String> = Vec::new();
    let mut i: usize = 0;
    while i < cs.len()
        invariant
            cs@ == s@,
            i <= cs.len(),
            words@.len() == ws_words(s@.take(i as int)).len(),
            forall|k: int|
                0 <= k < words@.len() ==> #[trigger] words@[k]@ == ws_words(s@.take(i as int))[k],
        decreases cs.len() - i,
    {
        let c = cs[i];
        let ghost prev = s@.take(i as int);
        let ghost next = s@.take(i + 1);
        assert(next.drop_last() =~= prev);
        assert(next.last() == c);
        if is_whitespace(c) {
        } else if i >= 1 && !is_whitespace(cs[i - 1]) {
            proof {
                assert(next[next.len() - 2] == cs@[i - 1]);
                assert(prev.last() == cs@[i - 1]);
                lemma_ws_words_nonempty_last(prev);
            }
            let last = words.len() - 1;
            let mut w = words[last].clone();
            push_char(&mut w, c);
            words.set(last, w);
        } else {
            let mut w = String::new();
            push_char(&mut w, c);
            assert(w@ =~= seq![c]);
            words.push(w);
        }
        i = i + 1;
        assert forall|k: int| 0 <= k < words@.len() implies #[trigger] words@[k]@ == ws_words(
            s@.take(i as int),
        )[k] by {}
    }
    assert(s@.take(cs.len() as int) =~= s@);
    words
}

/// ASCII lowercase of a character.
pub open spec fn ascii_lower(c: char) -> char {
    if 'A' <= c && c <= 'Z' {
        ((c as int) + 32) as char
    } else {
        c
    }
}

/// ASCII uppercase of a character.
pub open spec fn ascii_upper(c: char) -> char {
    if 'a' <= c && c <= 'z' {
        ((c as int) - 32) as char
    } else {
        c
    }
}

/// The text with its ASCII letters upper-cased (what `str::to_uppercase`
/// gives on ASCII text).
pub open spec fn upper_ascii(s: Seq<char>) -> Seq<char> {
    s.map_values(|c: char| ascii_upper(c))
}

/// What `str::to_lowercase` gives for characters outside ASCII.
pub uninterp spec fn spec_unicode_lowercase(s: Seq<char>) -> Seq<char>;

/// Every character is ASCII.
pub open spec fn is_ascii_text(s: Seq<char>) -> bool {
    forall|i: int| 0 <= i < s.len() ==> (#[trigger] s[i] as u32) < 128
}

/// `str::to_lowercase`: on ASCII text it lowercases `A`-`Z` and keeps the
/// rest; beyond ASCII it applies Unicode's lowercase mapping.
pub open spec fn spec_to_lowercase(s: Seq<char>) -> Seq<char> {
    if is_ascii_text(s) {
        s.map_values(|c: char| ascii_lower(c))
    } else {
        spec_unicode_lowercase(s)
    }
}

/// `str::to_lowercase`.
#[verifier::external_body]
pub(crate) fn to_lowercase(s: &str) -> (r: String)
    ensures
        r@ == spec_to_lowercase(s@),
        !is_ascii_text(s@) ==> r@ == spec_unicode_lowercase(s@),
{
    s.to_lowercase()
}

/// Lowercase ASCII words separated by single spaces.
pub open spec fn is_single_spaced_lowercase(s: Seq<char>) -> bool {
    &&& s.len() > 0
    &&& s[0] != ' '
    &&& s.last() != ' '
    &&& forall|i: int| 0 <= i < s.len() ==> (#[trigger] s[i] == ' ' || ('a' <= s[i] && s[i] <= 'z'))
    &&& forall|i: int| 0 <= i < s.len() - 1 ==> !(#[trigger] s[i] == ' ' && s[i + 1] == ' ')
}

/// Every character is a space or a lowercase ASCII letter, the text does
/// not start with a space and no two spaces are adjacent.
pub open spec fn spaced_lowercase_prefix(s: Seq<char>) -> bool {
    &&& s.len() > 0 ==> s[0] != ' '
    &&& forall|i: int| 0 <= i < s.len() ==> (#[trigger] s[i] == ' ' || ('a' <= s[i] && s[i] <= 'z'))
    &&& forall|i: int| 0 <= i < s.len() - 1 ==> !(#[trigger] s[i] == ' ' && s[i + 1] == ' ')
}

/// Replacing the last word by itself followed by `x` appends `x` to the
/// joined text.
proof fn lemma_join_spaced_extend_last(words: Seq<Seq<char>>, x: Seq<char>)
    requires
        words.len() > 0,
    ensures
        join_spaced(words.update(words.len() - 1, words.last() + x)) == join_spaced(words) + x,
{
    let w2 = words.update(words.len() - 1, words.last() + x);
    if words.len() == 1 {
        assert(join_spaced(w2) == w2[0]);
    } else {
        assert(w2.drop_last() =~= words.drop_last());
        assert(join_spaced(w2) == join_spaced(words.drop_last()) + seq![' '] + (words.last() + x));
        assert(join_spaced(w2) =~= join_spaced(words) + x);
    }
}

/// The words of such a text are made of lowercase letters, and joining
/// them by single spaces gives the text back (with its trailing space, if
/// any, removed).
proof fn lemma_spaced_words(s: Seq<char>)
    requires
        spaced_lowercase_prefix(s),
    ensures
        forall|i: int, j: int|
            0 <= i < ws_words(s).len() && 0 <= j < ws_words(s)[i].len() ==> 'a' <= #[trigger] ws_words(s)[i][j]
                <= 'z',
        s.len() == 0 || s.last() != ' ' ==> join_spaced(ws_words(s)) == s,
        s.len() > 0 && s.last() == ' ' ==> ws_words(s).len() > 0 && join_spaced(ws_words(s)) + seq![' '] == s,
    decreases s.len(),
{
    if s.len() == 0 {
        assert(ws_words(s) =~= Seq::<Seq<char>>::empty());
    } else {
        let t = s.drop_last();
        let c = s.last();
        assert(spaced_lowercase_prefix(t)) by {
            assert forall|i: int| 0 <= i < t.len() implies (#[trigger] t[i] == ' ' || ('a' <= t[i] && t[i] <= 'z')) by {
                assert(t[i] == s[i]);
            }
            assert forall|i: int| 0 <= i < t.len() - 1 implies !(#[trigger] t[i] == ' ' && t[i + 1] == ' ') by {
                assert(t[i] == s[i] && t[i + 1] == s[i + 1]);
            }
        }
        lemma_spaced_words(t);
        let wt = ws_words(t);
        assert(c == s[s.len() - 1]);
        if c == ' ' {
            assert(is_unicode_whitespace(c));
            assert(ws_words(s) == wt);
            assert(t.len() > 0);
            assert(t.last() == s[s.len() - 2]);
            assert(t.last() != ' ');
            assert('a' <= t.last() <= 'z');
            assert(!is_unicode_whitespace(t.last()));
            lemma_ws_words_nonempty_last(t);
            assert(s =~= t + seq![' ']);
        } else {
            assert('a' <= c <= 'z');
            assert(!is_unicode_whitespace(c));
            if s.len() >= 2 && !is_unicode_whitespace(s[s.len() - 2]) {
                assert(t.last() == s[s.len() - 2]);
                assert(t.last() != ' ');
                lemma_ws_words_nonempty_last(t);
                assert(ws_words(s) == wt.update(wt.len() - 1, wt.last().push(c)));
                assert(wt.last().push(c) =~= wt.last() + seq![c]);
                lemma_join_spaced_extend_last(wt, seq![c]);
                assert(s =~= t + seq![c]);
                let ws = ws_words(s);
                assert forall|i: int, j: int| 0 <= i < ws.len() && 0 <= j < ws[i].len() implies 'a'
                    <= #[trigger] ws[i][j] <= 'z' by {
                    if i < ws.len() - 1 {
                        assert(ws[i] == wt[i]);
                    } else if j < wt.last().len() {
                        assert(ws[i][j] == wt.last()[j]);
                    }
                }
            } else {
                assert(ws_words(s) == wt.push(seq![c]));
                let ws = ws_words(s);
                assert forall|i: int, j: int| 0 <= i < ws.len() && 0 <= j < ws[i].len() implies 'a'
                    <= #[trigger] ws[i][j] <= 'z' by {
                    if i < ws.len() - 1 {
                        assert(ws[i] == wt[i]);
                    }
                }
                if t.len() == 0 {
                    assert(wt =~= Seq::<Seq<char>>::empty());
                    assert(join_spaced(ws) == ws[0]);
                    assert(s =~= seq![c]);
                } else {
                    assert(t.last() == s[s.len() - 2]);
                    assert(is_unicode_whitespace(t.last()));
                    assert(t.last() == ' ');
                    assert(ws.drop_last() =~= wt);
                    assert(join_spaced(ws) == join_spaced(wt) + seq![' '] + seq![c]);
                    assert(s =~= t + seq![c]);
                }
            }
        }
    }
}

/// Splitting a text of lowercase words separated by single spaces and
/// joining the words with single spaces gives the text back.
pub proof fn lemma_single_spaced_joins_back(s: Seq<char>)
    requires
        is_single_spaced_lowercase(s),
    ensures
        join_spaced(ws_words(s)) == s,
{
    lemma_spaced_words(s);
}

/// Upper-casing ASCII letters keeps the words of a text apart where they
/// were, and upper-cases each word.
proof fn lemma_ws_words_upper(s: Seq<char>)
    ensures
        ws_words(upper_ascii(s)) == ws_words(s).map_values(|w: Seq<char>| upper_ascii(w)),
    decreases s.len(),
{
    let u = upper_ascii(s);
    if s.len() == 0 {
        assert(ws_words(u) =~= ws_words(s).map_values(|w: Seq<char>| upper_ascii(w)));
    } else {
        let p = s.drop_last();
        let c = s.last();
        lemma_ws_words_upper(p);
        assert(u.drop_last() =~= upper_ascii(p));
        assert(u.last() == ascii_upper(c));
        assert(is_unicode_whitespace(ascii_upper(c)) == is_unicode_whitespace(c));
        let wp = ws_words(p);
        let up = wp.map_values(|w: Seq<char>| upper_ascii(w));
        if is_unicode_whitespace(c) {
        } else if s.len() >= 2 && !is_unicode_whitespace(s[s.len() - 2]) {
            assert(u[u.len() - 2] == ascii_upper(s[s.len() - 2]));
            assert(is_unicode_whitespace(ascii_upper(s[s.len() - 2])) == is_unicode_whitespace(
                s[s.len() - 2],
            ));
            assert(p.last() == s[s.len() - 2]);
            lemma_ws_words_nonempty_last(p);
            assert(upper_ascii(wp.last().push(c)) =~= upper_ascii(wp.last()).push(ascii_upper(c)));
            assert(ws_words(u) =~= ws_words(s).map_values(|w: Seq<char>| upper_ascii(w)));
        } else {
            if s.len() >= 2 {
                assert(u[u.len() - 2] == ascii_upper(s[s.len() - 2]));
                assert(is_unicode_whitespace(ascii_upper(s[s.len() - 2])) == is_unicode_whitespace(
                    s[s.len() - 2],
                ));
            }
            assert(upper_ascii(seq![c]) =~= seq![ascii_upper(c)]);
            assert(ws_words(u) =~= ws_words(s).map_values(|w: Seq<char>| upper_ascii(w)));
        }
    }
}

/// The words of an upper-cased text of lowercase words separated by single
/// spaces, each lowercased, are the words of the text.
pub proof fn lemma_lowercase_words_of_upper(s: Seq<char>)
    requires
        is_single_spaced_lowercase(s),
    ensures
        Seq::new(ws_words(upper_ascii(s)).len(), |i: int| spec_to_lowercase(ws_words(upper_ascii(s))[i]))
            == ws_words(s),
{
    lemma_spaced_words(s);
    lemma_ws_words_upper(s);
    let ws = ws_words(s);
    let wu = ws_words(upper_ascii(s));
    let lw = Seq::new(wu.len(), |i: int| spec_to_lowercase(wu[i]));
    assert forall|i: int| 0 <= i < ws.len() implies #[trigger] lw[i] == ws[i] by {
        let w = ws[i];
        let v = wu[i];
        assert(v == upper_ascii(w));
        assert forall|j: int| 0 <= j < v.len() implies (#[trigger] v[j] as u32) < 128 by {
            assert('a' <= ws[i][j] <= 'z');
        }
        assert(v.map_values(|c: char| ascii_lower(c)) =~= w) by {
            assert forall|j: int| 0 <= j < w.len() implies #[trigger] ascii_lower(v[j]) == w[j] by {
                assert('a' <= ws[i][j] <= 'z');
            }
        }
    }
    assert(lw =~= ws);
}

/// A text of lowercase words separated by single spaces is its own
/// normal form: splitting on whitespace, lowercasing each word and joining
/// with single spaces gives it back.
pub proof fn lemma_single_spaced_is_normal(s: Seq<char>)
    requires
        is_single_spaced_lowercase(s),
    ensures
        join_spaced(Seq::new(ws_words(s).len(), |i: int| spec_to_lowercase(ws_words(s)[i]))) == s,
{
    lemma_spaced_words(s);
    let ws = ws_words(s);
    let lw = Seq::new(ws.len(), |i: int| spec_to_lowercase(ws[i]));
    assert forall|i: int| 0 <= i < ws.len() implies #[trigger] lw[i] == ws[i] by {
        let w = ws[i];
        assert forall|j: int| 0 <= j < w.len() implies (#[trigger] w[j] as u32) < 128 by {
            assert('a' <= ws[i][j] <= 'z');
        }
        assert(is_ascii_text(w));
        assert(w.map_values(|c: char| ascii_lower(c)) =~= w) by {
            assert forall|j: int| 0 <= j < w.len() implies #[trigger] ascii_lower(w[j]) == w[j] by {
                assert('a' <= ws[i][j] <= 'z');
            }
        }
    }
    assert(lw =~= ws);
}

} // verus!

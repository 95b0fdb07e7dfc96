//! Splitting and joining of text, stated over sequences of characters.

use vstd::prelude::*;
use vstd::string::*;

verus! {

/// Whether `c` has the Unicode property `White_Space`.
pub open spec fn is_whitespace_char(c: char) -> bool {
    ||| '\u{9}' <= c <= '\u{d}'
    ||| c == ' '
    ||| c == '\u{85}'
    ||| c == '\u{a0}'
    ||| c == '\u{1680}'
    ||| '\u{2000}' <= c <= '\u{200a}'
    ||| c == '\u{2028}'
    ||| c == '\u{2029}'
    ||| c == '\u{202f}'
    ||| c == '\u{205f}'
    ||| c == '\u{3000}'
}

/// Whether `s` is a name: not empty, and without white space.
pub open spec fn is_name(s: Seq<char>) -> bool {
    s.len() > 0 && forall|k: int| 0 <= k < s.len() ==> !is_whitespace_char(#[trigger] s[k])
}

/// The number of characters of `s` that stand before its first white-space
/// character: all of them where it has none.
pub open spec fn word_len(s: Seq<char>) -> nat
    decreases s.len(),
{
    if s.len() == 0 || is_whitespace_char(s[0]) {
        0
    } else {
        1 + word_len(s.drop_first())
    }
}

/// The words of `s`: its maximal runs of characters that are not white space,
/// from left to right.
pub open spec fn words(s: Seq<char>) -> Seq<Seq<char>>
    decreases s.len(),
{
    if s.len() == 0 {
        Seq::empty()
    } else if is_whitespace_char(s[0]) {
        words(s.drop_first())
    } else {
        proof {
            lemma_word_len_bounds(s);
        }
        seq![s.take(word_len(s) as int)] + words(s.skip(word_len(s) as int))
    }
}

/// The number of items of `s` that stand before the first `a` in it: all of
/// them where `a` does not occur.
pub open spec fn offset_of<A>(s: Seq<A>, a: A) -> nat
    decreases s.len(),
{
    if s.len() == 0 || s[0] == a {
        0
    } else {
        1 + offset_of(s.drop_first(), a)
    }
}

/// The pieces into which the occurrences of `sep` cut `s`. There is one piece
/// more than there are occurrences, so at least one, and a piece may be empty.
pub open spec fn fields(s: Seq<char>, sep: char) -> Seq<Seq<char>>
    decreases s.len(),
{
    let n = offset_of(s, sep) as int;
    if n >= s.len() {
        seq![s]
    } else {
        seq![s.take(n)] + fields(s.skip(n + 1), sep)
    }
}

/// A line without the carriage return that stood before its line feed.
pub open spec fn without_carriage_return(line: Seq<char>) -> Seq<char> {
    if line.len() > 0 && line.last() == '\r' {
        line.drop_last()
    } else {
        line
    }
}

/// The lines of `text`. A line ends at a line feed, which is not part of it,
/// and neither is a carriage return directly before that line feed. What
/// follows the last line feed is a line too unless it is empty.
pub open spec fn lines(text: Seq<char>) -> Seq<Seq<char>>
    decreases text.len(),
{
    let n = offset_of(text, '\n') as int;
    if text.len() == 0 {
        Seq::empty()
    } else if n >= text.len() {
        seq![text]
    } else {
        seq![without_carriage_return(text.take(n))] + lines(text.skip(n + 1))
    }
}

/// The items of `items` in order, with `sep` between each two neighbours.
pub open spec fn joined(items: Seq<Seq<char>>, sep: Seq<char>) -> Seq<char>
    decreases items.len(),
{
    if items.len() == 0 {
        Seq::empty()
    } else if items.len() == 1 {
        items[0]
    } else {
        joined(items.drop_last(), sep) + sep + items.last()
    }
}

/// `word_len` counts no more characters than there are.
pub proof fn lemma_word_len_bounds(s: Seq<char>)
    ensures
        word_len(s) <= s.len(),
        s.len() > 0 && !is_whitespace_char(s[0]) ==> word_len(s) >= 1,
    decreases s.len(),
{
    if s.len() > 0 && !is_whitespace_char(s[0]) {
        lemma_word_len_bounds(s.drop_first());
    }
}

/// A run of `n` characters without white space at the start of `s`, which ends
/// with `s` or at a white-space character, is the word that `s` begins with.
pub proof fn lemma_word_len_is(s: Seq<char>, n: int)
    requires
        0 <= n <= s.len(),
        forall|k: int| 0 <= k < n ==> !is_whitespace_char(s[k]),
        n == s.len() || is_whitespace_char(s[n]),
    ensures
        word_len(s) == n,
    decreases n,
{
    if n > 0 {
        lemma_word_len_is(s.drop_first(), n - 1);
    }
}

/// `offset_of` counts no more items than there are, none of those it counts
/// is `a`, and where it stops short of the end it stops at an `a`.
pub proof fn lemma_offset_of_bounds<A>(s: Seq<A>, a: A)
    ensures
        offset_of(s, a) <= s.len(),
        forall|k: int| 0 <= k < offset_of(s, a) ==> s[k] != a,
        offset_of(s, a) < s.len() ==> s[offset_of(s, a) as int] == a,
    decreases s.len(),
{
    if s.len() > 0 && s[0] != a {
        let rest = s.drop_first();
        lemma_offset_of_bounds(rest, a);
        assert forall|k: int| 0 <= k < offset_of(s, a) implies s[k] != a by {
            if k > 0 {
                assert(s[k] == rest[k - 1]);
            }
        }
    }
}

/// Where the first `n` items of `s` are not `a`, and `s` ends there or has `a`
/// next, `n` is the offset of `a` in `s`.
pub proof fn lemma_offset_of_is<A>(s: Seq<A>, a: A, n: int)
    requires
        0 <= n <= s.len(),
        forall|k: int| 0 <= k < n ==> s[k] != a,
        n == s.len() || s[n] == a,
    ensures
        offset_of(s, a) == n,
    decreases n,
{
    if n > 0 {
        lemma_offset_of_is(s.drop_first(), a, n - 1);
    }
}

/// Every word is a name.
pub proof fn lemma_words_are_names(s: Seq<char>)
    ensures
        forall|i: int| 0 <= i < words(s).len() ==> is_name(#[trigger] words(s)[i]),
    decreases s.len(),
{
    if s.len() > 0 {
        if is_whitespace_char(s[0]) {
            lemma_words_are_names(s.drop_first());
            assert(words(s) == words(s.drop_first()));
        } else {
            lemma_word_len_bounds(s);
            lemma_word_holds_no_whitespace(s);
            let n = word_len(s) as int;
            let rest = words(s.skip(n));
            lemma_words_are_names(s.skip(n));
            assert(is_name(s.take(n)));
            assert(words(s) == seq![s.take(n)] + rest);
            assert forall|i: int| 0 <= i < words(s).len() implies is_name(#[trigger] words(s)[i]) by {
                if i > 0 {
                    assert(words(s)[i] == rest[i - 1]);
                }
            }
        }
    }
}

/// None of the characters that `word_len` counts is white space.
pub proof fn lemma_word_holds_no_whitespace(s: Seq<char>)
    ensures
        forall|k: int| 0 <= k < word_len(s) ==> !is_whitespace_char(#[trigger] s[k]),
    decreases s.len(),
{
    lemma_word_len_bounds(s);
    if s.len() > 0 && !is_whitespace_char(s[0]) {
        let rest = s.drop_first();
        lemma_word_holds_no_whitespace(rest);
        lemma_word_len_bounds(rest);
        assert forall|k: int| 0 <= k < word_len(s) implies !is_whitespace_char(#[trigger] s[k]) by {
            if k > 0 {
                assert(s[k] == rest[k - 1]);
            }
        }
    }
}

/// The first piece of `fields(s, sep)` is what stands before the first `sep`,
/// and where there is a `sep` the second piece is the first piece of what
/// follows it.
pub proof fn lemma_first_fields(s: Seq<char>, sep: char)
    ensures
        fields(s, sep).len() >= 1,
        fields(s, sep)[0] == s.take(offset_of(s, sep) as int),
        offset_of(s, sep) >= s.len() ==> fields(s, sep).len() == 1,
        offset_of(s, sep) < s.len() ==> fields(s, sep).len() >= 2 && fields(s, sep)[1] == fields(
            s.skip(offset_of(s, sep) as int + 1),
            sep,
        )[0],
{
    lemma_offset_of_bounds(s, sep);
    let n = offset_of(s, sep) as int;
    if n < s.len() {
        lemma_first_fields_of_rest(s.skip(n + 1), sep);
    }
}

/// The part of `lemma_first_fields` that its own proof needs of what follows
/// the first separator.
proof fn lemma_first_fields_of_rest(s: Seq<char>, sep: char)
    ensures
        fields(s, sep).len() >= 1,
    decreases s.len(),
{
    lemma_offset_of_bounds(s, sep);
    let n = offset_of(s, sep) as int;
    if n < s.len() {
        lemma_first_fields_of_rest(s.skip(n + 1), sep);
    }
}

/// The first `n` items of `s` hold an `a` exactly if the first `a` of `s` is
/// among them.
pub proof fn lemma_prefix_contains<A>(s: Seq<A>, a: A, n: int)
    requires
        0 <= n <= s.len(),
    ensures
        s.take(n).contains(a) <==> offset_of(s, a) < n,
{
    lemma_offset_of_bounds(s, a);
    let at = offset_of(s, a) as int;
    if at < n {
        assert(s.take(n)[at] == a);
    }
}

/// Where `pick` yields something for every item, `filter_map` keeps them all.
pub proof fn lemma_filter_map_of_all_some<A, B>(items: Seq<A>, pick: spec_fn(A) -> Option<B>)
    requires
        forall|i: int| 0 <= i < items.len() ==> pick(#[trigger] items[i]) is Some,
    ensures
        items.filter_map(pick).len() == items.len(),
        forall|i: int|
            0 <= i < items.len() ==> Some(#[trigger] items.filter_map(pick)[i]) == pick(
                items[i],
            ),
    decreases items.len(),
{
    if items.len() > 0 {
        lemma_filter_map_of_all_some(items.drop_last(), pick);
    }
}

/// Tells whether `c` is a white-space character.
pub fn is_whitespace(c: char) -> (yes: bool)
    ensures
        yes == is_whitespace_char(c),
{
    ('\u{9}' <= c && c <= '\u{d}') || c == ' ' || c == '\u{85}' || c == '\u{a0}' || c
        == '\u{1680}' || ('\u{2000}' <= c && c <= '\u{200a}') || c == '\u{2028}' || c
        == '\u{2029}' || c == '\u{202f}' || c == '\u{205f}' || c == '\u{3000}'
}

/// The characters of `s`, in order.
pub fn chars_of(s: &str) -> (chars: Vec<char>)
    ensures
        chars@ == s@,
{
    broadcast use vstd::string::axiom_spec_iter;

    let mut chars: Vec<char> = Vec::new();
    let iter = s.chars();
    for c in it: iter
        invariant
            it.seq() == s@,
            chars@ == s@.take(it.index()),
    {
        chars.push(c);
    }
    chars
}

/// Tells whether `s` consists of exactly the characters `expected`.
pub fn has_chars(s: &str, expected: &Vec<char>) -> (same: bool)
    ensures
        same == (s@ == expected@),
{
    broadcast use vstd::string::axiom_spec_iter;

    let iter = s.chars();
    let mut i: usize = 0;
    for c in it: iter
        invariant
            it.seq() == s@,
            i == it.index(),
            i <= expected.len(),
            s@.take(i as int) == expected@.take(i as int),
    {
        if i >= expected.len() || expected[i] != c {
            return false;
        }
        i += 1;
    }
    assert(s@.take(i as int) =~= s@);
    if i == expected.len() {
        assert(expected@.take(i as int) =~= expected@);
        true
    } else {
        false
    }
}

/// The index of the first `c` in `chars` at or after `from`, or the length of
/// `chars` where there is none.
pub fn find_from(chars: &Vec<char>, from: usize, c: char) -> (at: usize)
    ensures
        at <= chars.len(),
        from <= chars.len() ==> at == from + offset_of(chars@.skip(from as int), c),
        from > chars.len() ==> at == chars.len(),
{
    if from > chars.len() {
        return chars.len();
    }
    let mut at = from;
    while at < chars.len() && chars[at] != c
        invariant
            from <= at <= chars.len(),
            forall|k: int| from <= k < at ==> chars@[k] != c,
        decreases chars.len() - at,
    {
        at += 1;
    }
    proof {
        lemma_offset_of_is(chars@.skip(from as int), c, at - from);
    }
    at
}

/// Splits `s` into its words, as `str::split_whitespace` does.
pub fn split_whitespace<'a>(s: &'a str) -> (out: Vec<&'a str>)
    ensures
        out.deep_view() == words(s@),
{
    let chars = chars_of(s);
    let n = chars.len();
    let mut out: Vec<&'a str> = Vec::new();
    let mut i: usize = 0;
    assert(s@.skip(0) =~= s@);
    while i < n
        invariant
            n == chars.len(),
            chars@ == s@,
            i <= n,
            out.deep_view() + words(s@.skip(i as int)) == words(s@),
        decreases n - i,
    {
        let ghost rest = s@.skip(i as int);
        if is_whitespace(chars[i]) {
            assert(rest.drop_first() =~= s@.skip(i + 1));
            i += 1;
        } else {
            let start = i;
            while i < n && !is_whitespace(chars[i])
                invariant
                    n == chars.len(),
                    chars@ == s@,
                    start <= i <= n,
                    forall|k: int| start <= k < i ==> !is_whitespace_char(s@[k]),
                decreases n - i,
            {
                i += 1;
            }
            let word = s.substring_char(start, i);
            let ghost before = out.deep_view();
            out.push(word);
            proof {
                lemma_word_len_is(rest, i - start);
                assert(rest.take(i - start) =~= word@);
                assert(rest.skip(i - start) =~= s@.skip(i as int));
                assert(before.push(word@) + words(s@.skip(i as int)) =~= before + (seq![word@]
                    + words(s@.skip(i as int))));
            }
        }
    }
    out
}

/// Splits `text` into its lines, as `str::lines` does.
pub fn split_lines<'a>(text: &'a str) -> (out: Vec<&'a str>)
    ensures
        out.deep_view() == lines(text@),
{
    let chars = chars_of(text);
    let n = chars.len();
    let mut out: Vec<&'a str> = Vec::new();
    let mut start: usize = 0;
    assert(text@.skip(0) =~= text@);
    while start < n
        invariant
            n == chars.len(),
            chars@ == text@,
            start <= n,
            out.deep_view() + lines(text@.skip(start as int)) == lines(text@),
        decreases n - start,
    {
        let ghost rest = text@.skip(start as int);
        let ghost before = out.deep_view();
        let end = find_from(&chars, start, '\n');
        if end == n {
            let line = text.substring_char(start, n);
            out.push(line);
            proof {
                assert(line@ =~= rest);
                assert(before.push(line@) + lines(text@.skip(n as int)) =~= before + seq![rest]);
            }
            start = n;
        } else {
            let stop = if end > start && chars[end - 1] == '\r' {
                end - 1
            } else {
                end
            };
            let line = text.substring_char(start, stop);
            out.push(line);
            proof {
                assert(line@ =~= without_carriage_return(rest.take(end - start)));
                assert(rest.skip(end - start + 1) =~= text@.skip(end + 1));
                assert(before.push(line@) + lines(text@.skip(end + 1)) =~= before + (seq![line@]
                    + lines(text@.skip(end + 1))));
            }
            start = end + 1;
        }
    }
    out
}

/// Joins `items` with `sep` between them, as `join` on a slice of strings
/// does.
pub fn join(items: &Vec<String>, sep: &str) -> (out: String)
    ensures
        out@ == joined(items.deep_view(), sep@),
{
    let mut out = String::new();
    let mut i: usize = 0;
    while i < items.len()
        invariant
            i <= items.len(),
            out@ == joined(items.deep_view().take(i as int), sep@),
        decreases items.len() - i,
    {
        if i > 0 {
            out.append(sep);
        }
        out.append(items[i].as_str());
        proof {
            let next = items.deep_view().take(i + 1);
            assert(next.drop_last() =~= items.deep_view().take(i as int));
        }
        i += 1;
    }
    assert(items.deep_view().take(items.len() as int) =~= items.deep_view());
    out
}

} // verus!

//! Field names: from snake case to Pascal case, and from there to the
//! alias under which a field is serialized.

use vstd::prelude::*;
use vstd::string::*;

verus! {

/// The literal that every alias starts with.
pub const PREFIX: &'static str = "TodoApp";

/// The characters that `char::to_uppercase` yields for `c`, in order.
///
/// The mapping is the one of the Unicode character database that the standard
/// library carries; it may hold more than one character.
pub uninterp spec fn uppercase_of(c: char) -> Seq<char>;

/// The text that `str::to_lowercase` returns for the text `s`.
///
/// This is no character-wise mapping: what a character becomes may depend on
/// its neighbours.
pub uninterp spec fn lowercase_of(s: Seq<char>) -> Seq<char>;

/// Calls `char::to_uppercase` and collects what it yields into a `String`.
///
/// Trusted: that the text is a function of `c` alone, named `uppercase_of`.
#[verifier::external_body]
fn uppercase(c: char) -> (upper: String)
    ensures
        upper@ == uppercase_of(c),
{
    c.to_uppercase().collect()
}

/// Calls `str::to_lowercase`.
///
/// Trusted: that the text is a function of `s` alone, named `lowercase_of`.
#[verifier::external_body]
fn lowercase(s: &str) -> (lower: String)
    ensures
        lower@ == lowercase_of(s@),
{
    s.to_lowercase()
}

/// The number of characters of `s` before its first underscore; all of them
/// where it has none.
pub open spec fn first_word_len(s: Seq<char>) -> int
    decreases s.len(),
{
    if s.len() == 0 || s[0] == '_' {
        0
    } else {
        1 + first_word_len(s.skip(1))
    }
}

/// The words of `s`: the runs of characters that its underscores separate, in
/// order. Two underscores in a row, or one at either end, bound an empty word.
pub open spec fn words(s: Seq<char>) -> Seq<Seq<char>>
    decreases s.len(),
{
    let k = first_word_len(s);
    if 0 <= k < s.len() {
        seq![s.take(k)] + words(s.skip(k + 1))
    } else {
        seq![s]
    }
}

/// `word` with its first character in upper case and the others in lower
/// case; the empty word stays empty.
pub open spec fn capitalized(word: Seq<char>) -> Seq<char> {
    if word.len() == 0 {
        Seq::empty()
    } else {
        uppercase_of(word[0]) + lowercase_of(word.skip(1))
    }
}

/// The words `ws`, each capitalized, written one after another.
pub open spec fn capitalized_run(ws: Seq<Seq<char>>) -> Seq<char>
    decreases ws.len(),
{
    if ws.len() == 0 {
        Seq::empty()
    } else {
        capitalized_run(ws.drop_last()) + capitalized(ws.last())
    }
}

/// The Pascal case form of `s`: its words, capitalized and joined without a
/// separator. Empty words add nothing, so only the non-empty ones count.
pub open spec fn pascal_case(s: Seq<char>) -> Seq<char> {
    capitalized_run(words(s))
}

/// The words of `s` that hold at least one character, in order.
pub open spec fn nonempty_words(s: Seq<char>) -> Seq<Seq<char>> {
    words(s).filter(|w: Seq<char>| w.len() > 0)
}

/// The words `ws` with an underscore between each two of them.
pub open spec fn joined(ws: Seq<Seq<char>>) -> Seq<char>
    decreases ws.len(),
{
    if ws.len() == 0 {
        Seq::empty()
    } else if ws.len() == 1 {
        ws[0]
    } else {
        ws[0] + seq!['_'] + joined(ws.skip(1))
    }
}

/// The alias of the field named `ident`.
pub open spec fn alias_of(ident: Seq<char>) -> Seq<char> {
    PREFIX@ + pascal_case(ident)
}

/// The texts that the string slices of `v` hold.
pub open spec fn texts(v: Seq<&str>) -> Seq<Seq<char>> {
    Seq::new(v.len(), |i: int| v[i]@)
}

/// Where the first `k` characters of `s` hold no underscore, and `s` ends
/// there or has one next, the first word of `s` has `k` characters.
pub proof fn lemma_first_word_len(s: Seq<char>, k: int)
    requires
        0 <= k <= s.len(),
        forall|j: int| 0 <= j < k ==> s[j] != '_',
        k < s.len() ==> s[k] == '_',
    ensures
        first_word_len(s) == k,
    decreases k,
{
    if k > 0 {
        lemma_first_word_len(s.skip(1), k - 1);
    }
}

/// The first word of `s` ends within `s`, holds no underscore, and is
/// followed by one unless `s` ends with it.
pub proof fn lemma_first_word(s: Seq<char>)
    ensures
        0 <= first_word_len(s) <= s.len(),
        forall|j: int| 0 <= j < first_word_len(s) ==> s[j] != '_',
        first_word_len(s) < s.len() ==> s[first_word_len(s)] == '_',
    decreases s.len(),
{
    if s.len() > 0 && s[0] != '_' {
        let rest = s.skip(1);
        lemma_first_word(rest);
        assert forall|j: int| 0 <= j < first_word_len(s) implies s[j] != '_' by {
            if j > 0 {
                assert(s[j] == rest[j - 1]);
            }
        }
        if first_word_len(s) < s.len() {
            assert(s[first_word_len(s)] == rest[first_word_len(rest)]);
        }
    }
}

/// The words of `s` are what a split at every underscore gives: there is at
/// least one, none of them holds an underscore, and with an underscore put
/// back between each two of them they spell `s`.
pub proof fn lemma_words_split_at_underscores(s: Seq<char>)
    ensures
        words(s).len() >= 1,
        forall|i: int, j: int|
            0 <= i < words(s).len() && 0 <= j < words(s)[i].len() ==> words(s)[i][j] != '_',
        joined(words(s)) == s,
    decreases s.len(),
{
    lemma_first_word(s);
    let k = first_word_len(s);
    if k < s.len() {
        let rest = s.skip(k + 1);
        lemma_words_split_at_underscores(rest);
        let ws = words(s);
        assert(ws == seq![s.take(k)] + words(rest));
        assert(ws.skip(1) == words(rest));
        assert(ws[0] == s.take(k));
        assert(s == s.take(k) + seq!['_'] + rest);
        assert forall|i: int, j: int| 0 <= i < ws.len() && 0 <= j < ws[i].len() implies ws[i][j]
            != '_' by {
            if i > 0 {
                assert(ws[i] == words(rest)[i - 1]);
            }
        }
    }
}

/// No other split does that: words without an underscore, joined with
/// underscores, are the words of what they spell.
pub proof fn lemma_words_of_joined(ws: Seq<Seq<char>>)
    requires
        ws.len() >= 1,
        forall|i: int, j: int| 0 <= i < ws.len() && 0 <= j < ws[i].len() ==> ws[i][j] != '_',
    ensures
        words(joined(ws)) == ws,
    decreases ws.len(),
{
    let s = joined(ws);
    let k = ws[0].len() as int;
    if ws.len() == 1 {
        lemma_first_word_len(s, k);
    } else {
        let rest = ws.skip(1);
        assert(s == ws[0] + seq!['_'] + joined(rest));
        assert forall|j: int| 0 <= j < k implies s[j] != '_' by {
            assert(s[j] == ws[0][j]);
        }
        lemma_first_word_len(s, k);
        assert(s.take(k) == ws[0]);
        assert(s.skip(k + 1) == joined(rest));
        assert forall|i: int, j: int| 0 <= i < rest.len() && 0 <= j < rest[i].len() implies rest[i][j]
            != '_' by {
            assert(rest[i] == ws[i + 1]);
        }
        lemma_words_of_joined(rest);
        assert(seq![ws[0]] + rest == ws);
    }
}

/// Leaving out the empty words of `ws` changes nothing in what the words give
/// when capitalized and joined.
pub proof fn lemma_empty_words_add_nothing(ws: Seq<Seq<char>>)
    ensures
        capitalized_run(ws.filter(|w: Seq<char>| w.len() > 0)) == capitalized_run(ws),
    decreases ws.len(),
{
    reveal(Seq::filter);
    if ws.len() > 0 {
        lemma_empty_words_add_nothing(ws.drop_last());
        let kept = ws.filter(|w: Seq<char>| w.len() > 0);
        if ws.last().len() > 0 {
            assert(kept.drop_last() == ws.drop_last().filter(|w: Seq<char>| w.len() > 0));
            assert(kept.last() == ws.last());
        } else {
            assert(capitalized_run(ws.drop_last()) + capitalized(ws.last()) == capitalized_run(
                ws.drop_last(),
            ));
        }
    }
}

/// The Pascal case form of `s` is made of its non-empty words alone, each
/// capitalized.
pub proof fn lemma_pascal_case_of_nonempty_words(s: Seq<char>)
    ensures
        pascal_case(s) == capitalized_run(nonempty_words(s)),
{
    lemma_empty_words_add_nothing(words(s));
}

/// Splits `s` at its underscores.
pub fn split_words<'a>(s: &'a str) -> (out: Vec<&'a str>)
    ensures
        texts(out@) == words(s@),
{
    broadcast use group_string_axioms;

    let n = s.unicode_len();
    let mut out: Vec<&'a str> = Vec::new();
    let mut start: usize = 0;
    let mut i: usize = 0;
    proof {
        assert(s@.skip(0) == s@);
        assert(texts(out@) + words(s@) == words(s@));
    }
    for c in chars: s.chars()
        invariant
            i == chars.index(),
            chars.seq() == s@,
            n == s@.len(),
            start <= i <= n,
            forall|j: int| start <= j < i ==> s@[j] != '_',
            words(s@) == texts(out@) + words(s@.skip(start as int)),
    {
        if c == '_' {
            let word = s.substring_char(start, i);
            proof {
                let rest = s@.skip(start as int);
                lemma_first_word_len(rest, i - start);
                assert(rest.take(i - start) == word@);
                assert(rest.skip(i - start + 1) == s@.skip(i + 1));
            }
            out.push(word);
            start = i + 1;
        }
        i += 1;
    }
    let word = s.substring_char(start, n);
    proof {
        let rest = s@.skip(start as int);
        lemma_first_word_len(rest, n - start);
        assert(rest == word@);
        assert(texts(out@.push(word)) == texts(out@) + seq![word@]);
    }
    out.push(word);
    out
}

/// Puts the first character of `word` in upper case and the others in lower
/// case.
pub fn capitalize(word: &str) -> (out: String)
    ensures
        out@ == capitalized(word@),
{
    let n = word.unicode_len();
    if n == 0 {
        return String::new();
    }
    let mut out = uppercase(word.get_char(0));
    let tail = lowercase(word.substring_char(1, n));
    out.append(tail.as_str());
    out
}

/// Turns a snake case name into Pascal case.
pub fn to_pascal_case(s: &String) -> (out: String)
    ensures
        out@ == pascal_case(s@),
{
    let parts = split_words(s.as_str());
    let mut out = String::new();
    let mut i: usize = 0;
    while i < parts.len()
        invariant
            i <= parts.len(),
            texts(parts@) == words(s@),
            out@ == capitalized_run(texts(parts@).take(i as int)),
        decreases parts.len() - i,
    {
        let word = capitalize(parts[i]);
        proof {
            let done = texts(parts@).take(i + 1);
            assert(done.drop_last() == texts(parts@).take(i as int));
            assert(done.last() == parts[i as int]@);
        }
        out.append(word.as_str());
        i += 1;
    }
    assert(texts(parts@).take(parts.len() as int) == texts(parts@));
    out
}

/// Computes the alias of the field named `ident`: the prefix, then the name
/// in Pascal case.
pub fn computed_alias(ident: &String) -> (alias: String)
    ensures
        alias@ == alias_of(ident@),
{
    let mut alias = PREFIX.to_owned();
    let pascal = to_pascal_case(ident);
    alias.append(pascal.as_str());
    alias
}

} // verus!

//! Text as sequences of characters: finding a token in a text and putting a value in its place.

use vstd::prelude::*;

verus! {

/// The text of each of `strings`.
pub open spec fn texts(strings: Seq<String>) -> Seq<Seq<char>> {
    strings.map_values(|s: String| s@)
}

/// `token` stands in `text` at position `at`.
pub open spec fn occurs_at(text: Seq<char>, token: Seq<char>, at: int) -> bool {
    &&& 0 <= at
    &&& at + token.len() <= text.len()
    &&& text.subrange(at, at + token.len()) == token
}

/// `token` stands somewhere in `text`. The empty token stands in every text.
pub open spec fn occurs_in(text: Seq<char>, token: Seq<char>) -> bool {
    exists|at: int| occurs_at(text, token, at)
}

/// `text` with every occurrence of `token` replaced by `value`.
///
/// The text is read from the left. Where the token stands, the value is put and reading goes
/// on behind the token, so occurrences that are replaced never overlap. The empty token
/// stands before every character and at the end of the text.
pub open spec fn replace_all(text: Seq<char>, token: Seq<char>, value: Seq<char>) -> Seq<char>
    decreases text.len(),
{
    if occurs_at(text, token, 0) {
        if token.len() > 0 {
            value + replace_all(text.skip(token.len() as int), token, value)
        } else if text.len() > 0 {
            value.push(text[0]) + replace_all(text.skip(1), token, value)
        } else {
            value
        }
    } else if text.len() > 0 {
        seq![text[0]] + replace_all(text.skip(1), token, value)
    } else {
        text
    }
}

/// An occurrence in the rest of a text behind `from` is an occurrence in the whole text.
proof fn lemma_occurs_at_skip(text: Seq<char>, token: Seq<char>, from: int, at: int)
    requires
        0 <= from <= text.len(),
    ensures
        occurs_at(text.skip(from), token, at) == (0 <= at && occurs_at(text, token, from + at)),
{
    if 0 <= at && from + at + token.len() <= text.len() {
        assert(text.skip(from).subrange(at, at + token.len()) =~= text.subrange(
            from + at,
            from + at + token.len(),
        ));
    }
}

/// Where the token stands nowhere between `from` and `to`, replacing leaves that stretch as
/// it is.
proof fn lemma_replace_all_passes(
    text: Seq<char>,
    token: Seq<char>,
    value: Seq<char>,
    from: int,
    to: int,
)
    requires
        0 <= from <= to <= text.len(),
        forall|at: int| from <= at < to ==> !occurs_at(text, token, at),
    ensures
        replace_all(text.skip(from), token, value) == text.subrange(from, to) + replace_all(
            text.skip(to),
            token,
            value,
        ),
    decreases to - from,
{
    if from < to {
        lemma_occurs_at_skip(text, token, from, 0);
        assert(text.skip(from).skip(1) =~= text.skip(from + 1));
        lemma_replace_all_passes(text, token, value, from + 1, to);
    }
}

/// A text in which the token stands nowhere is left as it is, character for character.
pub proof fn lemma_replace_all_without_token(text: Seq<char>, token: Seq<char>, value: Seq<char>)
    requires
        !occurs_in(text, token),
    ensures
        replace_all(text, token, value) == text,
{
    let n = text.len() as int;
    lemma_replace_all_passes(text, token, value, 0, n);
    assert(text.subrange(0, n) =~= text);
    lemma_occurs_at_skip(text, token, n, 0);
}

/// Where the token first stands at `at`, what comes before it is kept, the value takes the
/// place of the token, and what follows the token is treated in the same way.
pub proof fn lemma_replace_all_first_occurrence(
    text: Seq<char>,
    token: Seq<char>,
    value: Seq<char>,
    at: int,
)
    requires
        token.len() > 0,
        occurs_at(text, token, at),
        forall|before: int| 0 <= before < at ==> !occurs_at(text, token, before),
    ensures
        replace_all(text, token, value) == text.take(at) + value + replace_all(
            text.skip(at + token.len()),
            token,
            value,
        ),
{
    lemma_replace_all_passes(text, token, value, 0, at);
    lemma_occurs_at_skip(text, token, at, 0);
    assert(text.skip(0) =~= text);
    assert(text.skip(at).skip(token.len() as int) =~= text.skip(at + token.len()));
}

/// The characters of `s`, in order.
pub fn chars_of(s: &str) -> (chars: Vec<char>)
    ensures
        chars@ == s@,
{
    let mut chars: Vec<char> = Vec::new();
    for c in it: s.chars()
        invariant
            it.seq() == s@,
            chars@ == s@.take(it.index() as int),
    {
        chars.push(c);
    }
    chars
}

/// Whether `token` stands in `text` at position `at`.
pub fn matches_at(text: &Vec<char>, token: &Vec<char>, at: usize) -> (found: bool)
    ensures
        found == occurs_at(text@, token@, at as int),
{
    let n = text.len();
    let m = token.len();
    if at > n || m > n - at {
        return false;
    }
    let mut k: usize = 0;
    while k < m
        invariant
            n == text.len(),
            m == token.len(),
            at + m <= n,
            k <= m,
            forall|j: int| 0 <= j < k ==> text[at + j] == token[j],
        decreases m - k,
    {
        if text[at + k] != token[k] {
            return false;
        }
        k += 1;
    }
    assert(text@.subrange(at as int, at + m) =~= token@);
    true
}

/// The first position at or behind `from` where `token` stands in `text`, if there is one.
pub fn find_from(text: &Vec<char>, token: &Vec<char>, from: usize) -> (found: Option<usize>)
    ensures
        match found {
            Some(at) => {
                &&& from <= at
                &&& occurs_at(text@, token@, at as int)
                &&& forall|j: int| from <= j < at ==> !occurs_at(text@, token@, j)
            },
            None => forall|j: int| from <= j ==> !occurs_at(text@, token@, j),
        },
{
    let n = text.len();
    let mut at: usize = from;
    while at <= n
        invariant
            n == text.len(),
            from <= at,
            forall|j: int| from <= j < at ==> !occurs_at(text@, token@, j),
        decreases n + 1 - at,
    {
        if matches_at(text, token, at) {
            return Some(at);
        }
        if at == n {
            return None;
        }
        at += 1;
    }
    None
}

/// Whether `token` stands somewhere in `text`.
pub fn contains(text: &str, token: &str) -> (found: bool)
    ensures
        found == occurs_in(text@, token@),
{
    let text_chars = chars_of(text);
    let token_chars = chars_of(token);
    find_from(&text_chars, &token_chars, 0).is_some()
}

/// `text` with every occurrence of `token` replaced by `value`.
pub fn replace(text: &str, token: &str, value: &str) -> (replaced: String)
    ensures
        replaced@ == replace_all(text@, token@, value@),
{
    let text_chars = chars_of(text);
    let token_chars = chars_of(token);
    let n = text_chars.len();
    let m = token_chars.len();
    let mut replaced = String::new();
    let mut from: usize = 0;
    let mut done = false;
    assert(text@.skip(0) =~= text@);
    while !done
        invariant
            text_chars@ == text@,
            token_chars@ == token@,
            n == text@.len(),
            m == token@.len(),
            from <= n,
            !done ==> replaced@ + replace_all(text@.skip(from as int), token@, value@)
                == replace_all(text@, token@, value@),
            done ==> replaced@ == replace_all(text@, token@, value@),
        decreases n - from, if done { 0int } else { 1int },
    {
        match find_from(&text_chars, &token_chars, from) {
            None => {
                replaced.append(text.substring_char(from, n));
                proof {
                    lemma_replace_all_passes(text@, token@, value@, from as int, n as int);
                    lemma_occurs_at_skip(text@, token@, n as int, 0);
                }
                done = true;
            },
            Some(at) => {
                replaced.append(text.substring_char(from, at));
                replaced.append(value);
                proof {
                    lemma_replace_all_passes(text@, token@, value@, from as int, at as int);
                    lemma_occurs_at_skip(text@, token@, at as int, 0);
                }
                if m > 0 {
                    assert(text@.skip(at as int).skip(m as int) =~= text@.skip(at + m));
                    from = at + m;
                } else if at < n {
                    replaced.append(text.substring_char(at, at + 1));
                    assert(text@.skip(at as int).skip(1) =~= text@.skip(at + 1));
                    from = at + 1;
                } else {
                    done = true;
                }
            },
        }
    }
    replaced
}

} // verus!

//! Case-insensitive pattern matching, as `LIKE` does it.

use crate::text::ascii_upper;
use crate::text::ascii_uppercase;
use crate::text::chars_of;
use vstd::prelude::*;

verus! {

/// One element of a pattern.
#[derive(Clone, Copy, Debug, PartialEq, Eq, Structural)]
pub enum LikeToken {
    /// `%`: any text, even none.
    AnyText,
    /// `_`: any one character.
    AnyChar,
    /// That character, in either case.
    Literal(char),
}

/// The elements of a pattern. Where `escapes`, a backslash makes the next character literal.
pub open spec fn like_tokens(pattern: Seq<char>, escapes: bool) -> Seq<LikeToken>
    decreases pattern.len(),
{
    if pattern.len() == 0 {
        Seq::empty()
    } else if escapes && pattern[0] == '\\' && pattern.len() > 1 {
        seq![LikeToken::Literal(pattern[1])] + like_tokens(pattern.skip(2), escapes)
    } else {
        seq![token_of(pattern[0])] + like_tokens(pattern.skip(1), escapes)
    }
}

pub open spec fn token_of(c: char) -> LikeToken {
    if c == '%' {
        LikeToken::AnyText
    } else if c == '_' {
        LikeToken::AnyChar
    } else {
        LikeToken::Literal(c)
    }
}

/// The whole text matches the pattern.
pub open spec fn like(text: Seq<char>, tokens: Seq<LikeToken>) -> bool
    decreases tokens.len(), text.len(),
{
    if tokens.len() == 0 {
        text.len() == 0
    } else {
        match tokens[0] {
            LikeToken::AnyText => like(text, tokens.skip(1)) || text.len() > 0 && like(text.skip(1), tokens),
            LikeToken::AnyChar => text.len() > 0 && like(text.skip(1), tokens.skip(1)),
            LikeToken::Literal(c) => text.len() > 0 && ascii_upper(text[0]) == ascii_upper(c) && like(text.skip(1), tokens.skip(1)),
        }
    }
}

/// `filter` occurs in the text, where `filter` may hold wildcards.
pub open spec fn like_part(text: Seq<char>, filter: Seq<char>, escapes: bool) -> bool {
    like(text, like_tokens(seq!['%'] + filter + seq!['%'], escapes))
}

fn pattern_tokens(pattern: &Vec<char>, escapes: bool) -> (tokens: Vec<LikeToken>)
    ensures
        tokens@ == like_tokens(pattern@, escapes),
{
    let mut tokens: Vec<LikeToken> = Vec::new();
    let mut i: usize = 0;
    assert(pattern@.skip(0) =~= pattern@);
    while i < pattern.len()
        invariant
            i <= pattern@.len(),
            tokens@ + like_tokens(pattern@.skip(i as int), escapes) == like_tokens(pattern@, escapes),
        decreases pattern@.len() - i,
    {
        let ghost rest = pattern@.skip(i as int);
        let ghost before = tokens@;
        if escapes && pattern[i] == '\\' && i + 1 < pattern.len() {
            tokens.push(LikeToken::Literal(pattern[i + 1]));
            proof {
                assert(rest.skip(2) =~= pattern@.skip(i + 2));
                assert(tokens@ + like_tokens(rest.skip(2), escapes) =~= before + (seq![LikeToken::Literal(rest[1])] + like_tokens(rest.skip(2), escapes)));
            }
            i += 2;
        } else {
            let token = match pattern[i] {
                '%' => LikeToken::AnyText,
                '_' => LikeToken::AnyChar,
                c => LikeToken::Literal(c),
            };
            tokens.push(token);
            proof {
                assert(rest.skip(1) =~= pattern@.skip(i + 1));
                assert(tokens@ + like_tokens(rest.skip(1), escapes) =~= before + (seq![token_of(rest[0])] + like_tokens(rest.skip(1), escapes)));
            }
            i += 1;
        }
    }
    assert(tokens@ + like_tokens(pattern@.skip(i as int), escapes) =~= tokens@);
    tokens
}

/// From what `rest` matches, for every end of the text, to what `token` followed by it matches.
fn extended_matches(text: &Vec<char>, token: LikeToken, rest: &Vec<bool>, Ghost(tokens): Ghost<Seq<LikeToken>>) -> (found: Vec<bool>)
    requires
        rest@.len() == text@.len() + 1,
        tokens.len() > 0,
        token == tokens[0],
        forall|i: int| 0 <= i <= text@.len() ==> #[trigger] rest@[i] == like(text@.skip(i), tokens.skip(1)),
    ensures
        found@.len() == text@.len() + 1,
        forall|i: int| 0 <= i <= text@.len() ==> #[trigger] found@[i] == like(text@.skip(i), tokens),
{
    let size: usize = text.len();
    let mut found: Vec<bool> = Vec::new();
    let last = match token {
        LikeToken::AnyText => rest[size],
        _ => false,
    };
    assert(last == like(text@.skip(size as int), tokens));
    found.push(last);
    // `found` is filled from the end of the text: its i-th element is about the last i characters.
    let mut i: usize = size;
    while i > 0
        invariant
            i <= size,
            size == text@.len(),
            rest@.len() == text@.len() + 1,
            tokens.len() > 0,
            token == tokens[0],
            found@.len() == size - i + 1,
            forall|k: int| 0 <= k <= text@.len() ==> #[trigger] rest@[k] == like(text@.skip(k), tokens.skip(1)),
            forall|k: int| 0 <= k < found@.len() ==> #[trigger] found@[k] == like(text@.skip(size - k), tokens),
        decreases i,
    {
        i -= 1;
        let ghost end = text@.skip(i as int);
        assert(end.skip(1) =~= text@.skip(i + 1));
        assert(end[0] == text@[i as int]);
        let beyond = found[size - i - 1];
        assert(beyond == like(text@.skip(i + 1), tokens));
        let held = match token {
            LikeToken::AnyText => rest[i] || beyond,
            LikeToken::AnyChar => rest[i + 1],
            LikeToken::Literal(c) => ascii_uppercase(text[i]) == ascii_uppercase(c) && rest[i + 1],
        };
        assert(held == like(end, tokens));
        found.push(held);
    }
    let mut ordered: Vec<bool> = Vec::new();
    let mut k: usize = 0;
    let total: usize = found.len();
    while k < total
        invariant
            k <= total,
            size == text@.len(),
            total == size + 1,
            found@.len() == total,
            ordered@.len() == k,
            forall|j: int| 0 <= j < found@.len() ==> #[trigger] found@[j] == like(text@.skip(size - j), tokens),
            forall|j: int| 0 <= j < k ==> #[trigger] ordered@[j] == like(text@.skip(j), tokens),
        decreases total - k,
    {
        ordered.push(found[size - k]);
        k += 1;
    }
    ordered
}

/// Whether `filter` occurs in `text`.
pub fn is_like_part(text: &str, filter: &str, escapes: bool) -> (found: bool)
    ensures
        found == like_part(text@, filter@, escapes),
{
    let chars = chars_of(text);
    let mut pattern: Vec<char> = Vec::new();
    pattern.push('%');
    let mut wanted = chars_of(filter);
    pattern.append(&mut wanted);
    pattern.push('%');
    assert(pattern@ =~= seq!['%'] + filter@ + seq!['%']);
    let tokens = pattern_tokens(&pattern, escapes);
    let size: usize = chars.len();
    let mut matched: Vec<bool> = Vec::new();
    let mut i: usize = 0;
    let count: usize = tokens.len();
    let ghost none = tokens@.skip(count as int);
    while i < size
        invariant
            i <= size,
            size == chars@.len(),
            none.len() == 0,
            matched@.len() == i,
            forall|k: int| 0 <= k < i ==> #[trigger] matched@[k] == like(chars@.skip(k), none),
        decreases size - i,
    {
        matched.push(false);
        i += 1;
    }
    matched.push(true);
    let mut at: usize = count;
    while at > 0
        invariant
            at <= count,
            count == tokens@.len(),
            size == chars@.len(),
            matched@.len() == size + 1,
            forall|k: int| 0 <= k <= size ==> #[trigger] matched@[k] == like(chars@.skip(k), tokens@.skip(at as int)),
        decreases at,
    {
        at -= 1;
        let ghost rest = tokens@.skip(at as int);
        assert(rest.skip(1) =~= tokens@.skip(at + 1));
        matched = extended_matches(&chars, tokens[at], &matched, Ghost(rest));
    }
    assert(tokens@.skip(0) =~= tokens@);
    assert(chars@.skip(0) =~= chars@);
    matched[0]
}

} // verus!

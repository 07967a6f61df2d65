//! Text predicates and orders that the stores decide by.

use crate::thread_id::opt_view;
use vstd::prelude::*;
use vstd::string::*;

verus! {

/// Order of two texts by their code points.
pub open spec fn text_before(a: Seq<char>, b: Seq<char>) -> bool
    decreases a.len(),
{
    if b.len() == 0 {
        false
    } else if a.len() == 0 {
        true
    } else if a[0] == b[0] {
        text_before(a.drop_first(), b.drop_first())
    } else {
        (a[0] as u32) < (b[0] as u32)
    }
}

pub proof fn lemma_text_before_asymmetric(a: Seq<char>, b: Seq<char>)
    requires
        text_before(a, b),
    ensures
        !text_before(b, a),
    decreases a.len(),
{
    if a.len() > 0 && b.len() > 0 && a[0] == b[0] {
        lemma_text_before_asymmetric(a.drop_first(), b.drop_first());
    }
}

pub proof fn lemma_text_before_total(a: Seq<char>, b: Seq<char>)
    requires
        a != b,
    ensures
        text_before(a, b) || text_before(b, a),
    decreases a.len(),
{
    if a.len() == 0 || b.len() == 0 {
        if a.len() == 0 && b.len() == 0 {
            assert(a =~= b);
        }
    } else if a[0] == b[0] {
        if a.drop_first() == b.drop_first() {
            assert(a =~= seq![a[0]] + a.drop_first());
            assert(b =~= seq![b[0]] + b.drop_first());
        }
        lemma_text_before_total(a.drop_first(), b.drop_first());
    } else {
        vstd::utf8::char_u32_cast(a[0], a[0] as u32);
        vstd::utf8::char_u32_cast(b[0], b[0] as u32);
    }
}

pub proof fn lemma_text_before_transitive(a: Seq<char>, b: Seq<char>, c: Seq<char>)
    requires
        text_before(a, b),
        text_before(b, c),
    ensures
        text_before(a, c),
    decreases a.len(),
{
    if a.len() > 0 && b.len() > 0 && c.len() > 0 && a[0] == b[0] && b[0] == c[0] {
        lemma_text_before_transitive(a.drop_first(), b.drop_first(), c.drop_first());
    }
}

/// The characters of a text.
pub fn chars_of(text: &str) -> (chars: Vec<char>)
    ensures
        chars@ == text@,
{
    let mut chars: Vec<char> = Vec::new();
    for c in it: text.chars()
        invariant
            it.seq() == text@,
            chars@ == text@.take(it.index() as int),
    {
        chars.push(c);
        assert(text@.take(it.index() + 1) =~= text@.take(it.index() as int).push(c));
    }
    assert(text@.take(text@.len() as int) =~= text@);
    chars
}

/// Whether two texts are the same.
pub fn same_text(a: &str, b: &str) -> (same: bool)
    ensures
        same == (a@ == b@),
{
    let left = chars_of(a);
    let right = chars_of(b);
    if left.len() != right.len() {
        return false;
    }
    let mut i: usize = 0;
    while i < left.len()
        invariant
            left@ == a@,
            right@ == b@,
            left@.len() == right@.len(),
            i <= left@.len(),
            forall|j: int| 0 <= j < i ==> left@[j] == right@[j],
        decreases left@.len() - i,
    {
        if left[i] != right[i] {
            return false;
        }
        i += 1;
    }
    assert(left@ =~= right@);
    true
}

/// Whether `a` comes before `b` by code points.
pub fn is_text_before(a: &str, b: &str) -> (r: bool)
    ensures
        r == text_before(a@, b@),
{
    let left = chars_of(a);
    let right = chars_of(b);
    let mut i: usize = 0;
    assert(a@.skip(0) =~= a@ && b@.skip(0) =~= b@);
    while i < left.len() && i < right.len()
        invariant
            left@ == a@,
            right@ == b@,
            i <= left@.len(),
            i <= right@.len(),
            text_before(a@, b@) == text_before(a@.skip(i as int), b@.skip(i as int)),
        decreases left@.len() - i,
    {
        assert(a@.skip(i as int).drop_first() =~= a@.skip(i + 1));
        assert(b@.skip(i as int).drop_first() =~= b@.skip(i + 1));
        let l: char = left[i];
        let r: char = right[i];
        if l != r {
            return (l as u32) < (r as u32);
        }
        i += 1;
    }
    i < right.len()
}

/// Unicode `White_Space`.
pub open spec fn is_space(c: char) -> bool {
    let u = c as u32;
    ||| 0x9 <= u <= 0xd
    ||| u == 0x20
    ||| u == 0x85
    ||| u == 0xa0
    ||| u == 0x1680
    ||| 0x2000 <= u <= 0x200a
    ||| u == 0x2028
    ||| u == 0x2029
    ||| u == 0x202f
    ||| u == 0x205f
    ||| u == 0x3000
}

fn is_space_char(c: char) -> (r: bool)
    ensures
        r == is_space(c),
{
    let u = c as u32;
    (0x9 <= u && u <= 0xd) || u == 0x20 || u == 0x85 || u == 0xa0 || u == 0x1680 || (0x2000 <= u && u <= 0x200a)
        || u == 0x2028 || u == 0x2029 || u == 0x202f || u == 0x205f || u == 0x3000
}

/// A text with nothing but white space.
pub open spec fn is_blank(text: Seq<char>) -> bool {
    forall|i: int| 0 <= i < text.len() ==> is_space(#[trigger] text[i])
}

/// `trimmed` is `text` without its leading and trailing white space.
pub open spec fn is_trimmed(text: Seq<char>, trimmed: Seq<char>) -> bool {
    exists|from: int, to: int| #[trigger] trims(text, from, to) && trimmed == text.subrange(from, to)
}

/// What lies outside `from..to` is white space, and the range neither starts nor ends with it.
pub open spec fn trims(text: Seq<char>, from: int, to: int) -> bool {
    &&& 0 <= from <= to <= text.len()
    &&& forall|i: int| 0 <= i < from ==> is_space(#[trigger] text[i])
    &&& forall|i: int| to <= i < text.len() ==> is_space(#[trigger] text[i])
    &&& from < to ==> !is_space(text[from]) && !is_space(text[to - 1])
}

/// The text without its leading and trailing white space.
pub fn trim(text: &str) -> (trimmed: String)
    ensures
        is_trimmed(text@, trimmed@),
        (trimmed@.len() == 0) == is_blank(text@),
{
    let chars = chars_of(text);
    let mut from: usize = 0;
    while from < chars.len() && is_space_char(chars[from])
        invariant
            chars@ == text@,
            from <= chars@.len(),
            forall|i: int| 0 <= i < from ==> is_space(#[trigger] text@[i]),
        decreases chars@.len() - from,
    {
        from += 1;
    }
    let mut to: usize = chars.len();
    while from < to && is_space_char(chars[to - 1])
        invariant
            chars@ == text@,
            from <= to <= chars@.len(),
            from < chars@.len() ==> !is_space(text@[from as int]),
            forall|i: int| to <= i < text@.len() ==> is_space(#[trigger] text@[i]),
        decreases to,
    {
        to -= 1;
    }
    let trimmed = text.substring_char(from, to).to_owned();
    assert(trims(text@, from as int, to as int));
    trimmed
}

/// Whether the text is empty but for white space.
pub fn is_blank_text(text: &str) -> (blank: bool)
    ensures
        blank == is_blank(text@),
{
    let chars = chars_of(text);
    let mut i: usize = 0;
    while i < chars.len()
        invariant
            chars@ == text@,
            i <= chars@.len(),
            forall|j: int| 0 <= j < i ==> is_space(#[trigger] text@[j]),
        decreases chars@.len() - i,
    {
        if !is_space_char(chars[i]) {
            return false;
        }
        i += 1;
    }
    true
}

/// `part` occurs in `text` at position `at`.
pub open spec fn occurs_at(text: Seq<char>, part: Seq<char>, at: int) -> bool {
    0 <= at && at + part.len() <= text.len() && text.subrange(at, at + part.len()) == part
}

/// `part` occurs somewhere in `text`.
pub open spec fn has_part(text: Seq<char>, part: Seq<char>) -> bool {
    exists|at: int| occurs_at(text, part, at)
}

fn is_at(text: &Vec<char>, part: &Vec<char>, at: usize) -> (r: bool)
    requires
        at + part@.len() <= text@.len(),
    ensures
        r == occurs_at(text@, part@, at as int),
{
    let size: usize = text.len();
    let mut i: usize = 0;
    while i < part.len()
        invariant
            size == text@.len(),
            at + part@.len() <= text@.len(),
            i <= part@.len(),
            forall|j: int| 0 <= j < i ==> text@[at + j] == #[trigger] part@[j],
        decreases part@.len() - i,
    {
        if text[at + i] != part[i] {
            assert(text@.subrange(at as int, at + part@.len())[i as int] != part@[i as int]);
            return false;
        }
        i += 1;
    }
    assert(text@.subrange(at as int, at + part@.len()) =~= part@);
    true
}

/// Whether `part` occurs in `text`.
pub fn contains_text(text: &str, part: &str) -> (found: bool)
    ensures
        found == has_part(text@, part@),
{
    let all = chars_of(text);
    let wanted = chars_of(part);
    if wanted.len() > all.len() {
        return false;
    }
    let last: usize = all.len() - wanted.len();
    let mut at: usize = 0;
    while at < last
        invariant
            all@ == text@,
            wanted@ == part@,
            last == all@.len() - wanted@.len(),
            at <= last,
            forall|i: int| 0 <= i < at ==> !occurs_at(text@, part@, i),
        decreases last - at,
    {
        if is_at(&all, &wanted, at) {
            return true;
        }
        at += 1;
    }
    is_at(&all, &wanted, last)
}

/// Whether `text` begins with `prefix`.
pub fn has_prefix(text: &str, prefix: &str) -> (r: bool)
    ensures
        r == prefix@.is_prefix_of(text@),
{
    let all = chars_of(text);
    let wanted = chars_of(prefix);
    if wanted.len() > all.len() {
        return false;
    }
    let r = is_at(&all, &wanted, 0);
    assert(text@.subrange(0, prefix@.len() as int) =~= text@.take(prefix@.len() as int));
    r
}

/// Length of the text in UTF-8 bytes.
pub open spec fn byte_len(text: Seq<char>) -> nat {
    vstd::utf8::encode_utf8(text).len()
}

pub fn byte_length(text: &str) -> (n: usize)
    ensures
        n == byte_len(text@),
{
    text.as_bytes().len()
}

/// Whether an optional text is the given one.
pub fn is_text(value: &Option<String>, wanted: &str) -> (r: bool)
    ensures
        r == (value is Some && value->0@ == wanted@),
{
    match value {
        Some(text) => same_text(text.as_str(), wanted),
        None => false,
    }
}

/// The views of texts.
pub open spec fn text_views(texts: Seq<String>) -> Seq<Seq<char>> {
    Seq::new(texts.len(), |i: int| texts[i]@)
}

/// Every text comes before the next.
pub open spec fn in_text_order(texts: Seq<Seq<char>>) -> bool {
    forall|i: int, j: int| #![trigger texts[i], texts[j]] 0 <= i < j < texts.len() ==> text_before(texts[i], texts[j])
}

/// Both sequences hold the same texts.
pub open spec fn same_texts(left: Seq<Seq<char>>, right: Seq<Seq<char>>) -> bool {
    forall|text: Seq<char>| #[trigger] left.contains(text) <==> right.contains(text)
}

/// `sorted` holds the texts of `given`, each once and in order.
pub open spec fn is_sorted_set(given: Seq<Seq<char>>, sorted: Seq<Seq<char>>) -> bool {
    in_text_order(sorted) && same_texts(given, sorted)
}

/// The same texts again.
pub fn copy_texts(texts: &Vec<String>) -> (copy: Vec<String>)
    ensures
        copy@ == texts@,
{
    let mut copy: Vec<String> = Vec::new();
    let mut i: usize = 0;
    while i < texts.len()
        invariant
            i <= texts@.len(),
            copy@ == texts@.take(i as int),
        decreases texts@.len() - i,
    {
        copy.push(texts[i].clone());
        assert(texts@.take(i + 1) =~= texts@.take(i as int).push(texts@[i as int]));
        i += 1;
    }
    assert(texts@.take(i as int) =~= texts@);
    copy
}

/// Insert a text at its place in an ordered sequence, unless it is there already.
fn insert_text(sorted: &mut Vec<String>, text: String)
    requires
        in_text_order(text_views(old(sorted)@)),
    ensures
        in_text_order(text_views(final(sorted)@)),
        same_texts(text_views(old(sorted)@).push(text@), text_views(final(sorted)@)),
{
    let ghost before = text_views(sorted@);
    let ghost value = text@;
    let ghost wanted = before.push(value);
    let mut at: usize = 0;
    while at < sorted.len() && is_text_before(sorted[at].as_str(), text.as_str())
        invariant
            before == text_views(sorted@),
            text@ == value,
            at <= sorted@.len(),
            forall|i: int| 0 <= i < at ==> text_before(#[trigger] before[i], value),
        decreases sorted@.len() - at,
    {
        assert(before[at as int] == sorted@[at as int]@);
        at += 1;
    }
    if at < sorted.len() && sorted[at] == text {
        proof {
            assert(before[at as int] == sorted@[at as int]@);
            assert forall|t: Seq<char>| #[trigger] wanted.contains(t) <==> before.contains(t) by {
                if wanted.contains(t) {
                    let i = choose|i: int| 0 <= i < wanted.len() && wanted[i] == t;
                    if i < before.len() {
                        assert(before[i] == t);
                    } else {
                        assert(before[at as int] == t);
                    }
                }
                if before.contains(t) {
                    let i = choose|i: int| 0 <= i < before.len() && before[i] == t;
                    assert(wanted[i] == t);
                }
            }
        }
        return;
    }
    proof {
        if at < before.len() {
            assert(before[at as int] == sorted@[at as int]@);
            lemma_text_before_total(before[at as int], value);
        }
    }
    sorted.insert(at, text);
    proof {
        let after = text_views(sorted@);
        assert(after =~= before.insert(at as int, value));
        assert forall|i: int, j: int| #![trigger after[i], after[j]] 0 <= i < j < after.len() implies text_before(after[i], after[j]) by {
            if i == at {
                assert(after[j] == before[j - 1]);
                if j - 1 > at {
                    assert(text_before(before[at as int], before[j - 1]));
                    lemma_text_before_transitive(value, before[at as int], before[j - 1]);
                }
            } else if j == at {
                assert(after[i] == before[i]);
            } else {
                let a = if i < at { i } else { i - 1 };
                let b = if j < at { j } else { j - 1 };
                assert(after[i] == before[a] && after[j] == before[b]);
            }
        }
        assert forall|t: Seq<char>| #[trigger] wanted.contains(t) <==> after.contains(t) by {
            if wanted.contains(t) {
                let i = choose|i: int| 0 <= i < wanted.len() && wanted[i] == t;
                if i == before.len() {
                    assert(after[at as int] == t);
                } else {
                    assert(after[if i < at { i } else { i + 1 }] == t);
                }
            }
            if after.contains(t) {
                let i = choose|i: int| 0 <= i < after.len() && after[i] == t;
                if i == at {
                    assert(wanted[before.len() as int] == t);
                } else {
                    assert(wanted[if i < at { i } else { i - 1 }] == t);
                }
            }
        }
    }
}

/// The texts, each once and in order.
pub fn sorted_set(given: Vec<String>) -> (sorted: Vec<String>)
    ensures
        is_sorted_set(text_views(given@), text_views(sorted@)),
        given@.len() > 0 ==> sorted@.len() > 0,
{
    let ghost all = text_views(given@);
    let mut sorted: Vec<String> = Vec::new();
    let mut i: usize = 0;
    while i < given.len()
        invariant
            all == text_views(given@),
            i <= given@.len(),
            in_text_order(text_views(sorted@)),
            same_texts(all.take(i as int), text_views(sorted@)),
        decreases given@.len() - i,
    {
        let ghost before = text_views(sorted@);
        let ghost earlier = all.take(i as int);
        let ghost value = given@[i as int]@;
        insert_text(&mut sorted, given[i].clone());
        proof {
            let after = text_views(sorted@);
            let later = all.take(i + 1);
            assert(later =~= earlier.push(value));
            assert forall|t: Seq<char>| #[trigger] later.contains(t) <==> after.contains(t) by {
                lemma_push_contains(earlier, value, t);
                lemma_push_contains(before, value, t);
                assert(earlier.contains(t) <==> before.contains(t));
                assert(before.push(value).contains(t) <==> after.contains(t));
            }
        }
        i += 1;
    }
    assert(all.take(i as int) =~= all);
    proof {
        if given@.len() > 0 {
            assert(all[0] == given@[0]@);
            assert(all.contains(all[0]));
            assert(text_views(sorted@).contains(all[0]));
        }
    }
    sorted
}

/// What a sequence holds once a text is pushed to it.
pub proof fn lemma_push_contains(texts: Seq<Seq<char>>, pushed: Seq<char>, text: Seq<char>)
    ensures
        texts.push(pushed).contains(text) <==> texts.contains(text) || text == pushed,
{
    let after = texts.push(pushed);
    if texts.contains(text) {
        let i = choose|i: int| 0 <= i < texts.len() && texts[i] == text;
        assert(after[i] == text);
    }
    if text == pushed {
        assert(after[texts.len() as int] == text);
    }
    if after.contains(text) {
        let i = choose|i: int| 0 <= i < after.len() && after[i] == text;
        if i < texts.len() {
            assert(texts[i] == text);
        }
    }
}

/// Whether the text has the character in it.
pub fn has_char(text: &str, wanted: char) -> (found: bool)
    ensures
        found == text@.contains(wanted),
{
    let chars = chars_of(text);
    let mut i: usize = 0;
    while i < chars.len()
        invariant
            chars@ == text@,
            i <= chars@.len(),
            forall|j: int| 0 <= j < i ==> text@[j] != wanted,
        decreases chars@.len() - i,
    {
        if chars[i] == wanted {
            assert(text@[i as int] == wanted);
            return true;
        }
        i += 1;
    }
    false
}

/// Whether `texts` holds `text`.
pub open spec fn holds_text(texts: Seq<String>, text: Seq<char>) -> bool {
    exists|i: int| 0 <= i < texts.len() && #[trigger] texts[i]@ == text
}

pub fn has_text(texts: &[String], text: &str) -> (found: bool)
    ensures
        found == holds_text(texts@, text@),
{
    let mut i: usize = 0;
    while i < texts.len()
        invariant
            i <= texts@.len(),
            forall|j: int| 0 <= j < i ==> #[trigger] texts@[j]@ != text@,
        decreases texts@.len() - i,
    {
        if same_text(texts[i].as_str(), text) {
            return true;
        }
        i += 1;
    }
    false
}

/// The upper-case ASCII letter; any other character itself.
pub open spec fn ascii_upper(c: char) -> char {
    if 'a' <= c <= 'z' {
        ((c as u32 - 32) as u32) as char
    } else {
        c
    }
}

/// The upper-case ASCII letter; any other character itself.
pub fn ascii_uppercase(c: char) -> (upper: char)
    ensures
        upper == ascii_upper(c),
{
    match c {
        'a' => 'A', 'b' => 'B', 'c' => 'C', 'd' => 'D', 'e' => 'E', 'f' => 'F', 'g' => 'G',
        'h' => 'H', 'i' => 'I', 'j' => 'J', 'k' => 'K', 'l' => 'L', 'm' => 'M', 'n' => 'N',
        'o' => 'O', 'p' => 'P', 'q' => 'Q', 'r' => 'R', 's' => 'S', 't' => 'T', 'u' => 'U',
        'v' => 'V', 'w' => 'W', 'x' => 'X', 'y' => 'Y', 'z' => 'Z',
        _ => c,
    }
}

/// The decimal digit.
pub open spec fn digit(n: nat) -> char {
    seq!['0', '1', '2', '3', '4', '5', '6', '7', '8', '9'][n as int]
}

/// The decimal digits of a number, without leading zeros.
pub open spec fn digits(n: nat) -> Seq<char>
    decreases n,
{
    if n < 10 {
        seq![digit(n)]
    } else {
        digits(n / 10).push(digit(n % 10))
    }
}

/// The decimal text of a number, with at least `width` characters: zeros follow the sign.
pub open spec fn zero_padded(n: int, width: nat) -> Seq<char> {
    let sign = if n < 0 {
        seq!['-']
    } else {
        Seq::empty()
    };
    let size = digits(absolute(n));
    let used = sign.len() + size.len();
    sign + zeros(if used < width {
        (width - used) as nat
    } else {
        0
    }) + size
}

pub open spec fn absolute(n: int) -> nat {
    if n < 0 {
        (-n) as nat
    } else {
        n as nat
    }
}

pub open spec fn zeros(count: nat) -> Seq<char> {
    Seq::new(count, |i: int| '0')
}

pub open spec fn spaces(count: nat) -> Seq<char> {
    Seq::new(count, |i: int| ' ')
}

fn push_digit(text: &mut String, n: u64)
    requires
        n < 10,
    ensures
        final(text)@ == old(text)@.push(digit(n as nat)),
{
    let ghost before = text@;
    let part = match n {
        0 => "0",
        1 => "1",
        2 => "2",
        3 => "3",
        4 => "4",
        5 => "5",
        6 => "6",
        7 => "7",
        8 => "8",
        _ => "9",
    };
    proof {
        reveal_strlit("0");
        reveal_strlit("1");
        reveal_strlit("2");
        reveal_strlit("3");
        reveal_strlit("4");
        reveal_strlit("5");
        reveal_strlit("6");
        reveal_strlit("7");
        reveal_strlit("8");
        reveal_strlit("9");
    }
    text.append(part);
    assert(text@ =~= before.push(digit(n as nat)));
}

/// The decimal digits of a number.
pub fn decimal_digits(n: u64) -> (text: String)
    ensures
        text@ == digits(n as nat),
    decreases n,
{
    if n < 10 {
        let mut text = String::new();
        push_digit(&mut text, n);
        assert(text@ =~= digits(n as nat));
        text
    } else {
        let mut text = decimal_digits(n / 10);
        push_digit(&mut text, n % 10);
        text
    }
}

/// The decimal text of a number, padded with zeros.
pub fn zero_padded_text(n: i64, width: usize) -> (text: String)
    ensures
        text@ == zero_padded(n as int, width as nat),
{
    proof {
        reveal_strlit("-");
        reveal_strlit("0");
    }
    let mut text = String::new();
    let size: u64 = if n < 0 {
        (-(n + 1)) as u64 + 1
    } else {
        n as u64
    };
    let number = decimal_digits(size);
    let chars: usize = chars_of(number.as_str()).len();
    let mut used: usize = chars;
    let ghost sign: Seq<char> = if n < 0 {
        seq!['-']
    } else {
        Seq::empty()
    };
    if n < 0 {
        text.append("-");
        proof {
            lemma_digits_short(size as nat, 20);
        }
        used = chars + 1;
    }
    assert(text@ =~= sign);
    let ghost first = used;
    while used < width
        invariant
            first <= used,
            used <= width || used == first,
            text@ == sign + zeros((used - first) as nat),
        decreases width - used,
    {
        proof {
            reveal_strlit("0");
        }
        text.append("0");
        assert(text@ =~= sign + zeros((used + 1 - first) as nat));
        used += 1;
    }
    text.append(number.as_str());
    text
}

proof fn lemma_digits_short(n: nat, most: nat)
    requires
        n < 18446744073709551616,
        most == 20,
    ensures
        digits(n).len() <= most,
{
    reveal_with_fuel(digits, 21);
}

/// The text with `pad` spaces before it.
pub fn push_right_aligned(text: &mut String, value: &str, width: usize)
    ensures
        final(text)@ == old(text)@ + right_aligned(value@, width as nat),
{
    let ghost start = text@;
    let first: usize = chars_of(value).len();
    let mut used: usize = first;
    assert(text@ =~= start + spaces(0));
    while used < width
        invariant
            first <= used,
            used <= width || used == first,
            text@ == start + spaces((used - first) as nat),
        decreases width - used,
    {
        proof {
            reveal_strlit(" ");
        }
        text.append(" ");
        assert(text@ =~= start + spaces((used + 1 - first) as nat));
        used += 1;
    }
    text.append(value);
    assert(text@ =~= start + right_aligned(value@, width as nat));
}

/// The text with spaces before it, at least `width` characters.
pub open spec fn right_aligned(value: Seq<char>, width: nat) -> Seq<char> {
    spaces(if value.len() < width {
        (width - value.len()) as nat
    } else {
        0
    }) + value
}

/// The view of an optional text.
pub open spec fn str_view(text: Option<&str>) -> Option<Seq<char>> {
    match text {
        Some(text) => Some(text@),
        None => None,
    }
}

/// An optional text, owned.
pub fn owned_text(text: Option<&str>) -> (owned: Option<String>)
    ensures
        opt_view(owned) == str_view(text),
{
    match text {
        Some(text) => Some(text.to_owned()),
        None => None,
    }
}

} // verus!

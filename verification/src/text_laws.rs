//! Laws of texts, told in their characters.

use crate::text::ascii_uppercase;
use crate::text::contains_text;
use crate::text::decimal_digits;
use crate::text::digit;
use crate::text::digits;
use crate::text::has_part;
use crate::text::is_blank;
use crate::text::is_blank_text;
use crate::text::is_space;
use crate::text::is_text_before;
use crate::text::occurs_at;
use crate::text::push_right_aligned;
use crate::text::right_aligned;
use crate::text::sorted_set;
use crate::text::text_before;
use crate::text::text_views;
use crate::text::trim;
use crate::text::trims;
use crate::text::zero_padded_text;
use crate::text::zeros;
use crate::thread_id::ThreadId;
use crate::threads::DirectionalThreadSpawnEdgeStatus;
use crate::threads::ThreadHistoryMode;
use vstd::prelude::*;

verus! {

/// The code points of white space.
pub open spec fn white_space() -> Set<u32> {
    set![
        0x09, 0x0a, 0x0b, 0x0c, 0x0d, 0x20, 0x85, 0xa0, 0x1680, 0x2000, 0x2001, 0x2002, 0x2003, 0x2004, 0x2005, 0x2006, 0x2007, 0x2008, 0x2009, 0x200a, 0x2028, 0x2029, 0x202f,
        0x205f, 0x3000,
    ]
}

proof fn lemma_white_space(c: char)
    ensures
        white_space().contains(c as u32) <==> is_space(c),
{
}

/// A text is blank if it holds nothing but white space.
pub proof fn law_blank_text(text: &str, blank: bool)
    requires
        call_ensures(is_blank_text, (text,), blank),
    ensures
        blank <==> forall|i: int| 0 <= i < text@.len() ==> white_space().contains(#[trigger] text@[i] as u32),
{
    assert forall|c: char| white_space().contains(#[trigger] (c as u32)) <==> is_space(c) by {
        lemma_white_space(c);
    }
    if forall|i: int| 0 <= i < text@.len() ==> white_space().contains(#[trigger] text@[i] as u32) {
        assert forall|i: int| 0 <= i < text@.len() implies is_space(#[trigger] text@[i]) by {
            assert(white_space().contains(text@[i] as u32));
        }
    }
    if is_blank(text@) {
        assert forall|i: int| 0 <= i < text@.len() implies white_space().contains(#[trigger] text@[i] as u32) by {
            assert(is_space(text@[i]));
        }
    }
}

/// A trimmed text is what is left of a text without the white space around it.
pub proof fn law_trimmed_text(text: &str, trimmed: String)
    requires
        call_ensures(trim, (text,), trimmed),
    ensures
        trimmed@.len() > 0 ==> !white_space().contains(trimmed@[0] as u32) && !white_space().contains(trimmed@[trimmed@.len() - 1] as u32),
        exists|from: int, to: int| {
            &&& 0 <= from <= to <= text@.len()
            &&& trimmed@ == #[trigger] text@.subrange(from, to)
            &&& forall|i: int| (0 <= i < from || to <= i < text@.len()) ==> white_space().contains(#[trigger] text@[i] as u32)
        },
{
    let (from, to) = choose|from: int, to: int| #[trigger] trims(text@, from, to) && trimmed@ == text@.subrange(from, to);
    if from < to {
        lemma_white_space(text@[from]);
        lemma_white_space(text@[to - 1]);
        assert(trimmed@[0] == text@[from]);
        assert(trimmed@[trimmed@.len() - 1] == text@[to - 1]);
    }
    assert forall|i: int| (0 <= i < from || to <= i < text@.len()) implies white_space().contains(#[trigger] text@[i] as u32) by {
        lemma_white_space(text@[i]);
        assert(is_space(text@[i]));
    }
    assert(trimmed@ == text@.subrange(from, to));
}

/// One text is before another if it ends first, or has the smaller character, where they first differ.
pub proof fn law_order_of_texts(a: &str, b: &str, before: bool)
    requires
        call_ensures(is_text_before, (a, b), before),
    ensures
        before <==> exists|n: int| #[trigger] differ_first_at(a@, b@, n) && (n == a@.len() || n < b@.len() && (a@[n] as u32) < (b@[n] as u32)),
{
    lemma_order(a@, b@);
}

/// The texts are the same up to position `n` and differ there.
pub open spec fn differ_first_at(a: Seq<char>, b: Seq<char>, n: int) -> bool {
    &&& 0 <= n <= a.len()
    &&& n <= b.len()
    &&& a != b
    &&& a.take(n) == b.take(n)
    &&& n == a.len() || n == b.len() || a[n] != b[n]
}

proof fn lemma_order(a: Seq<char>, b: Seq<char>)
    ensures
        text_before(a, b) <==> exists|n: int| #[trigger] differ_first_at(a, b, n) && (n == a.len() || n < b.len() && (a[n] as u32) < (b[n] as u32)),
    decreases a.len(),
{
    if a.len() == 0 || b.len() == 0 || a[0] != b[0] {
        if text_before(a, b) {
            assert(a.take(0) =~= b.take(0));
            assert(a.len() != b.len() || a[0] != b[0]);
            assert(differ_first_at(a, b, 0));
        }
        if exists|n: int| #[trigger] differ_first_at(a, b, n) && (n == a.len() || n < b.len() && (a[n] as u32) < (b[n] as u32)) {
            let n = choose|n: int| #[trigger] differ_first_at(a, b, n) && (n == a.len() || n < b.len() && (a[n] as u32) < (b[n] as u32));
            if n > 0 {
                assert(a.take(n)[0] == b.take(n)[0]);
            }
            if b.len() == 0 {
                assert(a =~= b);
            }
        }
    } else {
        let x = a.drop_first();
        let y = b.drop_first();
        lemma_order(x, y);
        assert(a =~= seq![a[0]] + x);
        assert(b =~= seq![b[0]] + y);
        if text_before(a, b) {
            let n = choose|n: int| #[trigger] differ_first_at(x, y, n) && (n == x.len() || n < y.len() && (x[n] as u32) < (y[n] as u32));
            assert(a.take(n + 1) =~= seq![a[0]] + x.take(n));
            assert(b.take(n + 1) =~= seq![b[0]] + y.take(n));
            if a == b {
                assert(x =~= y);
            }
            assert(differ_first_at(a, b, n + 1));
        }
        if exists|n: int| #[trigger] differ_first_at(a, b, n) && (n == a.len() || n < b.len() && (a[n] as u32) < (b[n] as u32)) {
            let n = choose|n: int| #[trigger] differ_first_at(a, b, n) && (n == a.len() || n < b.len() && (a[n] as u32) < (b[n] as u32));
            assert(n > 0);
            assert(x.take(n - 1) =~= a.take(n).drop_first());
            assert(y.take(n - 1) =~= b.take(n).drop_first());
            assert(differ_first_at(x, y, n - 1));
        }
    }
}

/// A text contains another exactly if from some position on its characters are those of the other.
pub proof fn law_contained_text(text: &str, part: &str, found: bool)
    requires
        call_ensures(contains_text, (text, part), found),
    ensures
        found <==> exists|at: int| #[trigger] stands_at(text@, part@, at),
{
    assert forall|at: int| #[trigger] stands_at(text@, part@, at) <==> occurs_at(text@, part@, at) by {
        if stands_at(text@, part@, at) {
            assert(text@.subrange(at, at + part@.len()) =~= part@);
        }
        if occurs_at(text@, part@, at) {
            assert forall|i: int| 0 <= i < part@.len() implies #[trigger] part@[i] == text@[at + i] by {
                assert(text@.subrange(at, at + part@.len())[i] == text@[at + i]);
            }
        }
    }
    if has_part(text@, part@) {
        let at = choose|at: int| occurs_at(text@, part@, at);
        assert(stands_at(text@, part@, at));
    }
}

/// The characters of `part` are those of `text` from position `at` on.
pub open spec fn stands_at(text: Seq<char>, part: Seq<char>, at: int) -> bool {
    &&& 0 <= at
    &&& at + part.len() <= text.len()
    &&& forall|i: int| 0 <= i < part.len() ==> #[trigger] part[i] == text[at + i]
}

/// The upper case of an ASCII letter is the letter 32 code points before it; every other character is its own.
pub proof fn law_upper_case(c: char, upper: char)
    requires
        call_ensures(ascii_uppercase, (c,), upper),
    ensures
        'a' <= c <= 'z' ==> upper as u32 == c as u32 - 32,
        !('a' <= c <= 'z') ==> upper == c,
{
    vstd::utf8::char_u32_cast(c, c as u32);
}

/// The number that decimal digits stand for.
pub open spec fn number_of(text: Seq<char>) -> int
    decreases text.len(),
{
    if text.len() == 0 {
        0
    } else {
        number_of(text.drop_last()) * 10 + (text.last() as u32 - '0' as u32)
    }
}

/// The text holds decimal digits alone.
pub open spec fn is_decimal(text: Seq<char>) -> bool {
    forall|i: int| 0 <= i < text.len() ==> '0' <= #[trigger] text[i] <= '9'
}

proof fn lemma_digit(n: nat)
    requires
        n < 10,
    ensures
        digit(n) as u32 - '0' as u32 == n,
        '0' <= digit(n) <= '9',
        n > 0 ==> digit(n) != '0',
{
    let all = seq!['0', '1', '2', '3', '4', '5', '6', '7', '8', '9'];
    assert(n == 0 || n == 1 || n == 2 || n == 3 || n == 4 || n == 5 || n == 6 || n == 7 || n == 8 || n == 9);
    assert(all[n as int] == digit(n));
}

proof fn lemma_digits(n: nat)
    ensures
        digits(n).len() > 0,
        number_of(digits(n)) == n,
        is_decimal(digits(n)),
        n > 0 ==> digits(n)[0] != '0',
        n == 0 ==> digits(n).len() == 1,
    decreases n,
{
    lemma_digit(n % 10);
    if n < 10 {
        let text = digits(n);
        assert(text.drop_last() =~= Seq::empty());
        assert(number_of(text.drop_last()) == 0);
        lemma_digit(n);
    } else {
        lemma_digits(n / 10);
        let text = digits(n);
        assert(text.drop_last() =~= digits(n / 10));
        assert(n == (n / 10) * 10 + n % 10);
    }
}

/// Decimal digits stand for their number, without leading zeros.
pub proof fn law_decimal_digits(n: u64, text: String)
    requires
        call_ensures(decimal_digits, (n,), text),
    ensures
        number_of(text@) == n,
        is_decimal(text@),
        n > 0 ==> text@[0] != '0',
        n == 0 ==> text@.len() == 1,
{
    lemma_digits(n as nat);
}

proof fn lemma_leading_zeros(count: nat, text: Seq<char>)
    requires
        is_decimal(text),
    ensures
        number_of(zeros(count) + text) == number_of(text),
        is_decimal(zeros(count) + text),
    decreases text.len(), count,
{
    let whole = zeros(count) + text;
    if text.len() > 0 {
        let front = text.drop_last();
        assert forall|i: int| 0 <= i < front.len() implies '0' <= #[trigger] front[i] <= '9' by {
            assert(front[i] == text[i]);
        }
        lemma_leading_zeros(count, front);
        assert(whole.drop_last() =~= zeros(count) + front);
        assert(whole.last() == text.last());
    } else if count > 0 {
        lemma_leading_zeros((count - 1) as nat, text);
        assert(whole.drop_last() =~= zeros((count - 1) as nat) + text);
        assert(whole.last() == '0');
    }
    assert forall|i: int| 0 <= i < whole.len() implies '0' <= #[trigger] whole[i] <= '9' by {
        if i >= count {
            assert(whole[i] == text[i - count]);
        } else {
            assert(whole[i] == zeros(count)[i]);
        }
    }
}

/// A padded number is at least as long as asked for. It stands for its number, behind a sign if that is
/// negative, and is longer only where the number needs it.
pub proof fn law_padded_number(n: i64, width: usize, text: String)
    requires
        call_ensures(zero_padded_text, (n, width), text),
    ensures
        text@.len() >= width,
        n >= 0 ==> number_of(text@) == n && is_decimal(text@),
        n < 0 ==> text@[0] == '-' && number_of(text@.skip(1)) == -n && is_decimal(text@.skip(1)),
        n > 0 && text@.len() > width ==> text@[0] != '0',
{
    let size = crate::text::absolute(n as int);
    lemma_digits(size);
    let sign: nat = if n < 0 {
        1
    } else {
        0
    };
    let used = sign + digits(size).len();
    let count: nat = if used < width {
        (width - used) as nat
    } else {
        0
    };
    lemma_leading_zeros(count, digits(size));
    if n < 0 {
        assert(text@.skip(1) =~= zeros(count) + digits(size));
    } else {
        assert(text@ =~= zeros(count) + digits(size));
    }
}

/// An aligned text gains the value behind as many spaces as are missing to the width.
pub proof fn law_aligned_text(text: &mut String, value: &str, width: usize)
    requires
        call_ensures(push_right_aligned, (text, value, width), ()),
    ensures
        ({
            let missing = if value@.len() < width {
                width - value@.len()
            } else {
                0
            };
            let start = old(text)@.len() as int;
            &&& final(text)@.len() == start + missing + value@.len()
            &&& final(text)@.take(start) == old(text)@
            &&& forall|i: int| start <= i < start + missing ==> #[trigger] final(text)@[i] == ' '
            &&& final(text)@.skip(start + missing) == value@
        }),
{
    let missing = if value@.len() < width {
        width - value@.len()
    } else {
        0
    };
    let start = old(text)@.len() as int;
    let added = right_aligned(value@, width as nat);
    assert(final(text)@.take(start) =~= old(text)@);
    assert(final(text)@.skip(start + missing) =~= value@);
    assert forall|i: int| start <= i < start + missing implies #[trigger] final(text)@[i] == ' ' by {
        assert(added[i - start] == ' ');
    }
}

/// A sorted set holds the given texts, each once, in order.
pub proof fn law_sorted_set(given: Vec<String>, sorted: Vec<String>)
    requires
        call_ensures(sorted_set, (given,), sorted),
    ensures
        forall|text: Seq<char>| #[trigger] text_views(sorted@).contains(text) <==> text_views(given@).contains(text),
        forall|i: int, j: int| #![trigger sorted@[i], sorted@[j]] 0 <= i < j < sorted@.len() ==> text_before(sorted@[i]@, sorted@[j]@),
{
    let all = text_views(given@);
    let kept = text_views(sorted@);
    assert forall|text: Seq<char>| #[trigger] kept.contains(text) <==> all.contains(text) by {
        assert(all.contains(text) <==> kept.contains(text));
    }
    assert forall|i: int, j: int| #![trigger sorted@[i], sorted@[j]] 0 <= i < j < sorted@.len() implies text_before(sorted@[i]@, sorted@[j]@) by {
        assert(kept[i] == sorted@[i]@ && kept[j] == sorted@[j]@);
    }
}

/// The stored names of history modes and of the states of edges, each read back from its own.
pub proof fn law_stored_names(
    mode: ThreadHistoryMode,
    mode_name: &'static str,
    status: DirectionalThreadSpawnEdgeStatus,
    status_name: &'static str,
    text: &str,
    read_mode: Option<ThreadHistoryMode>,
    read_status: Option<DirectionalThreadSpawnEdgeStatus>,
)
    requires
        call_ensures(ThreadHistoryMode::as_str, (mode,), mode_name),
        call_ensures(DirectionalThreadSpawnEdgeStatus::as_str, (status,), status_name),
        call_ensures(ThreadHistoryMode::from_stored, (text,), read_mode),
        call_ensures(DirectionalThreadSpawnEdgeStatus::from_stored, (text,), read_status),
    ensures
        mode == ThreadHistoryMode::Legacy <==> mode_name@ == "legacy"@,
        mode == ThreadHistoryMode::Paginated <==> mode_name@ == "paginated"@,
        status == DirectionalThreadSpawnEdgeStatus::Open <==> status_name@ == "open"@,
        status == DirectionalThreadSpawnEdgeStatus::Closed <==> status_name@ == "closed"@,
        read_mode == Some(mode) <==> text@ == mode_name@,
        read_status == Some(status) <==> text@ == status_name@,
{
    reveal_strlit("legacy");
    reveal_strlit("paginated");
    reveal_strlit("open");
    reveal_strlit("closed");
    assert("legacy"@.len() == 6 && "paginated"@.len() == 9 && "open"@.len() == 4 && "closed"@.len() == 6);
    assert(mode_name@ == crate::threads::model::history_mode_text(mode));
    assert(status_name@ == crate::threads::model::edge_status_text(status));
}

/// An identifier is read back from its text.
pub proof fn law_identifier_is_read_back(id: ThreadId, text: String, given: &str, read: Option<ThreadId>)
    requires
        call_ensures(ThreadId::text, (id,), text),
        call_ensures(ThreadId::from_text, (given,), read),
    ensures
        given@ == text@ ==> read == Some(id),
{
}

} // verus!

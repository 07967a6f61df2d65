//! How identifiers and their texts go together.

use super::ThreadId;
use crate::outside::hex_text;
use crate::outside::uuid_text;
use crate::text::lemma_text_before_asymmetric;
use crate::text::text_before;
use vstd::arithmetic::power::lemma_pow0;
use vstd::arithmetic::power::lemma_pow1;
use vstd::arithmetic::power::lemma_pow_adds;
use vstd::arithmetic::power::pow;
use vstd::prelude::*;

verus! {

/// Two texts that start with texts of the same length are ordered by these first.
proof fn lemma_text_before_concat(a: Seq<char>, b: Seq<char>, x: Seq<char>, y: Seq<char>)
    requires
        a.len() == b.len(),
    ensures
        text_before(a + x, b + y) <==> text_before(a, b) || a == b && text_before(x, y),
    decreases a.len(),
{
    if a.len() == 0 {
        assert(a + x =~= x);
        assert(b + y =~= y);
        assert(a =~= b);
    } else {
        assert((a + x).drop_first() =~= a.drop_first() + x);
        assert((b + y).drop_first() =~= b.drop_first() + y);
        lemma_text_before_concat(a.drop_first(), b.drop_first(), x, y);
        if a[0] == b[0] && a.drop_first() == b.drop_first() {
            assert(a =~= seq![a[0]] + a.drop_first());
            assert(b =~= seq![b[0]] + b.drop_first());
        }
    }
}

/// The digits of smaller values come first.
proof fn lemma_hex_text_order(a: nat, b: nat, n: nat)
    requires
        a < pow(16, n),
        b < pow(16, n),
    ensures
        hex_text(a, n).len() == n,
        hex_text(b, n).len() == n,
        a < b <==> text_before(hex_text(a, n), hex_text(b, n)),
        a == b <==> hex_text(a, n) == hex_text(b, n),
    decreases n,
{
    if n == 0 {
        lemma_pow0(16);
    } else {
        let m = (n - 1) as nat;
        lemma_pow_adds(16, m, 1);
        lemma_pow1(16);
        assert(pow(16, n) == pow(16, m) * 16);
        lemma_hex_text_order(a / 16, b / 16, m);
        let digits = seq!['0', '1', '2', '3', '4', '5', '6', '7', '8', '9', 'a', 'b', 'c', 'd', 'e', 'f'];
        let x = digits[(a % 16) as int];
        let y = digits[(b % 16) as int];
        assert(hex_text(a, n) =~= hex_text(a / 16, m) + seq![x]);
        assert(hex_text(b, n) =~= hex_text(b / 16, m) + seq![y]);
        lemma_text_before_concat(hex_text(a / 16, m), hex_text(b / 16, m), seq![x], seq![y]);
        assert(text_before(seq![x], seq![y]) <==> (x as u32) < (y as u32)) by {
            reveal_with_fuel(text_before, 2);
            assert(seq![x].drop_first() =~= Seq::<char>::empty());
            assert(seq![y].drop_first() =~= Seq::<char>::empty());
        }
        if hex_text(a, n) == hex_text(b, n) {
            assert(hex_text(a / 16, m) =~= hex_text(a, n).drop_last());
            assert(hex_text(b / 16, m) =~= hex_text(b, n).drop_last());
            assert(x == hex_text(a, n).last());
            assert(y == hex_text(b, n).last());
        }
    }
}

proof fn lemma_square(n: nat, power: int)
    requires
        pow(16, n) == power,
    ensures
        pow(16, n + n) == power * power,
{
    lemma_pow_adds(16, n, n);
}

proof fn lemma_identifier_has_32_digits(value: u128)
    ensures
        value < pow(16, 32),
{
    lemma_pow1(16);
    lemma_square(1, 16);
    lemma_square(2, 256);
    lemma_square(4, 0x1_0000);
    lemma_square(8, 0x1_0000_0000);
    lemma_square(16, 0x1_0000_0000_0000_0000);
}

/// Hyphens between groups of digits do not change the order.
proof fn lemma_hyphenated(a: Seq<char>, b: Seq<char>, x: Seq<char>, y: Seq<char>, s: Seq<char>, t: Seq<char>)
    requires
        a.len() == b.len(),
        text_before(x, y) <==> text_before(s, t),
        x == y <==> s == t,
    ensures
        text_before(a + (seq!['-'] + x), b + (seq!['-'] + y)) <==> text_before(a + s, b + t),
        a + (seq!['-'] + x) == b + (seq!['-'] + y) <==> a + s == b + t,
{
    lemma_text_before_concat(a, b, seq!['-'] + x, seq!['-'] + y);
    lemma_text_before_concat(seq!['-'], seq!['-'], x, y);
    lemma_text_before_concat(a, b, s, t);
    if text_before(seq!['-'], seq!['-']) {
        lemma_text_before_asymmetric(seq!['-'], seq!['-']);
    }
    let with_x = a + (seq!['-'] + x);
    let with_y = b + (seq!['-'] + y);
    let n = a.len() as int;
    if with_x == with_y {
        assert(a =~= with_x.subrange(0, n));
        assert(b =~= with_y.subrange(0, n));
        assert(x =~= with_x.subrange(n + 1, with_x.len() as int));
        assert(y =~= with_y.subrange(n + 1, with_y.len() as int));
    }
    if a + s == b + t {
        assert(a =~= (a + s).subrange(0, n));
        assert(b =~= (b + t).subrange(0, n));
        assert(s =~= (a + s).subrange(n, (a + s).len() as int));
        assert(t =~= (b + t).subrange(n, (b + t).len() as int));
    }
}

/// Identifiers have the order of their texts, and no two identifiers have the same text.
pub proof fn law_identifiers_are_ordered_as_their_texts(a: ThreadId, b: ThreadId)
    ensures
        a.value < b.value <==> text_before(uuid_text(a.value), uuid_text(b.value)),
        a == b <==> uuid_text(a.value) == uuid_text(b.value),
{
    lemma_identifier_has_32_digits(a.value);
    lemma_identifier_has_32_digits(b.value);
    lemma_hex_text_order(a.value as nat, b.value as nat, 32);
    let s = hex_text(a.value as nat, 32);
    let t = hex_text(b.value as nat, 32);
    let tail_s = s.subrange(16, 20) + (seq!['-'] + s.subrange(20, 32));
    let tail_t = t.subrange(16, 20) + (seq!['-'] + t.subrange(20, 32));
    lemma_hyphenated(s.subrange(16, 20), t.subrange(16, 20), s.subrange(20, 32), t.subrange(20, 32), s.subrange(20, 32), t.subrange(20, 32));
    assert(s.subrange(16, 20) + s.subrange(20, 32) =~= s.subrange(16, 32));
    assert(t.subrange(16, 20) + t.subrange(20, 32) =~= t.subrange(16, 32));
    lemma_hyphenated(s.subrange(12, 16), t.subrange(12, 16), tail_s, tail_t, s.subrange(16, 32), t.subrange(16, 32));
    assert(s.subrange(12, 16) + s.subrange(16, 32) =~= s.subrange(12, 32));
    assert(t.subrange(12, 16) + t.subrange(16, 32) =~= t.subrange(12, 32));
    let rest_s = s.subrange(12, 16) + (seq!['-'] + tail_s);
    let rest_t = t.subrange(12, 16) + (seq!['-'] + tail_t);
    lemma_hyphenated(s.subrange(8, 12), t.subrange(8, 12), rest_s, rest_t, s.subrange(12, 32), t.subrange(12, 32));
    assert(s.subrange(8, 12) + s.subrange(12, 32) =~= s.subrange(8, 32));
    assert(t.subrange(8, 12) + t.subrange(12, 32) =~= t.subrange(8, 32));
    let most_s = s.subrange(8, 12) + (seq!['-'] + rest_s);
    let most_t = t.subrange(8, 12) + (seq!['-'] + rest_t);
    lemma_hyphenated(s.subrange(0, 8), t.subrange(0, 8), most_s, most_t, s.subrange(8, 32), t.subrange(8, 32));
    assert(s.subrange(0, 8) + s.subrange(8, 32) =~= s);
    assert(t.subrange(0, 8) + t.subrange(8, 32) =~= t);
}

} // verus!

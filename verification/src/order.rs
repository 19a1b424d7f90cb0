//! Strict orders on texts and on lists of texts.

use crate::text::to_chars;
use vstd::prelude::*;

verus! {

/// How one value stands to another.
#[derive(Debug, Clone, Copy, PartialEq, Eq, Structural)]
pub enum Order {
    Less,
    Equal,
    Greater,
}

/// `a` comes before `b` in dictionary order by code point.
pub open spec fn text_less(a: Seq<char>, b: Seq<char>) -> bool
    decreases b.len(),
{
    if b.len() == 0 {
        false
    } else if a.len() == 0 {
        true
    } else if a[0] == b[0] {
        text_less(a.skip(1), b.skip(1))
    } else {
        a[0] < b[0]
    }
}

/// The place of `a` against `b` in dictionary order.
pub open spec fn text_order(a: Seq<char>, b: Seq<char>) -> Order {
    if a == b {
        Order::Equal
    } else if text_less(a, b) {
        Order::Less
    } else {
        Order::Greater
    }
}

/// No text comes before itself.
pub proof fn text_less_irreflexive(a: Seq<char>)
    ensures
        !text_less(a, a),
    decreases a.len(),
{
    if a.len() > 0 {
        text_less_irreflexive(a.skip(1));
    }
}

/// Of two different texts one comes first.
pub proof fn text_less_total(a: Seq<char>, b: Seq<char>)
    requires
        a != b,
    ensures
        text_less(a, b) != text_less(b, a),
    decreases a.len(),
{
    if a.len() > 0 && b.len() > 0 && a[0] == b[0] {
        if a.skip(1) == b.skip(1) {
            assert(a =~= seq![a[0]] + a.skip(1));
            assert(b =~= seq![b[0]] + b.skip(1));
        }
        text_less_total(a.skip(1), b.skip(1));
    } else if a.len() == 0 && b.len() == 0 {
        assert(a =~= b);
    }
}

/// What comes before a text comes before all that follow it.
pub proof fn text_less_transitive(a: Seq<char>, b: Seq<char>, c: Seq<char>)
    requires
        text_less(a, b),
        text_less(b, c),
    ensures
        text_less(a, c),
    decreases a.len(),
{
    if a.len() > 0 && a[0] == b[0] && b[0] == c[0] {
        text_less_transitive(a.skip(1), b.skip(1), c.skip(1));
    }
}

/// The place of `a` against `b` in dictionary order.
pub fn order_chars(a: &[char], b: &[char]) -> (order: Order)
    ensures
        order == text_order(a@, b@),
{
    let mut i: usize = 0;
    proof {
        assert(a@.skip(0) =~= a@);
        assert(b@.skip(0) =~= b@);
    }
    while i < a.len() && i < b.len() && a[i] == b[i]
        invariant
            i <= a@.len(),
            i <= b@.len(),
            forall|j: int| 0 <= j < i ==> a@[j] == b@[j],
            text_less(a@, b@) == text_less(a@.skip(i as int), b@.skip(i as int)),
        decreases a@.len() - i,
    {
        proof {
            assert(a@.skip(i as int).skip(1) =~= a@.skip(i as int + 1));
            assert(b@.skip(i as int).skip(1) =~= b@.skip(i as int + 1));
        }
        i = i + 1;
    }
    if i == a.len() && i == b.len() {
        proof {
            assert(a@ =~= b@);
        }
        return Order::Equal;
    }
    if i == a.len() {
        return Order::Less;
    }
    if i == b.len() {
        return Order::Greater;
    }
    if a[i] < b[i] {
        Order::Less
    } else {
        Order::Greater
    }
}

/// The place of `a` against `b` in dictionary order.
pub fn order_texts(a: &str, b: &str) -> (order: Order)
    ensures
        order == text_order(a@, b@),
{
    order_chars(to_chars(a).as_slice(), to_chars(b).as_slice())
}

/// The first difference decides between two texts, and a text comes before every
/// longer one that starts with it.
pub proof fn first_difference_decides(
    common: Seq<char>,
    x: char,
    a: Seq<char>,
    y: char,
    b: Seq<char>,
)
    requires
        x != y,
    ensures
        text_less(common + seq![x] + a, common + seq![y] + b) <==> x < y,
        text_less(common, common + seq![x] + a),
        !text_less(common + seq![x] + a, common),
    decreases common.len(),
{
    let s = common + seq![x] + a;
    let t = common + seq![y] + b;
    if common.len() > 0 {
        let rest = common.skip(1);
        first_difference_decides(rest, x, a, y, b);
        assert(s.skip(1) =~= rest + seq![x] + a);
        assert(t.skip(1) =~= rest + seq![y] + b);
    }
}

} // verus!

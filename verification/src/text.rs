//! Character sequences: their lexicographic order and decimal digits.

use vstd::prelude::*;

verus! {

/// How one text stands to another in lexicographic order.
#[derive(Clone, Copy, Debug, PartialEq, Eq, Structural)]
pub enum Rank {
    Before,
    Same,
    After,
}

/// Strict lexicographic order by code point. This is the order of `str` and
/// `String` in the standard library, which compares UTF-8 bytes: UTF-8 keeps
/// the order of code points.
pub open spec fn precedes(a: Seq<char>, b: Seq<char>) -> bool
    decreases a.len(),
{
    if b.len() == 0 {
        false
    } else if a.len() == 0 {
        true
    } else if a[0] != b[0] {
        a[0] < b[0]
    } else {
        precedes(a.drop_first(), b.drop_first())
    }
}

/// No text precedes itself.
pub proof fn lemma_precedes_irreflexive(a: Seq<char>)
    ensures
        !precedes(a, a),
    decreases a.len(),
{
    if a.len() > 0 {
        lemma_precedes_irreflexive(a.drop_first());
    }
}

/// The order is transitive.
pub proof fn lemma_precedes_transitive(a: Seq<char>, b: Seq<char>, c: Seq<char>)
    requires
        precedes(a, b),
        precedes(b, c),
    ensures
        precedes(a, c),
    decreases a.len(),
{
    if a.len() > 0 && a[0] == b[0] && b[0] == c[0] {
        lemma_precedes_transitive(a.drop_first(), b.drop_first(), c.drop_first());
    }
}

/// Of two texts one precedes the other, or they are the same text.
pub proof fn lemma_precedes_total(a: Seq<char>, b: Seq<char>)
    ensures
        precedes(a, b) || a == b || precedes(b, a),
    decreases a.len(),
{
    if a.len() == 0 && b.len() == 0 {
        assert(a =~= b);
    } else if a.len() == 0 {
        assert(precedes(a, b));
    } else if b.len() == 0 {
        assert(precedes(b, a));
    } else if a[0] == b[0] {
        lemma_precedes_total(a.drop_first(), b.drop_first());
        if a.drop_first() == b.drop_first() {
            assert(a =~= seq![a[0]] + a.drop_first());
            assert(b =~= seq![b[0]] + b.drop_first());
        }
    } else {
        assert(a[0] < b[0] || b[0] < a[0]);
    }
}

/// Two texts never precede each other.
pub proof fn lemma_precedes_asymmetric(a: Seq<char>, b: Seq<char>)
    requires
        precedes(a, b),
    ensures
        !precedes(b, a),
        a != b,
{
    lemma_precedes_irreflexive(a);
    if precedes(b, a) {
        lemma_precedes_transitive(a, b, a);
    }
}

/// What `rank_chars` computes: where `a` stands relative to `b`.
pub open spec fn rank_spec(a: Seq<char>, b: Seq<char>) -> Rank {
    if precedes(a, b) {
        Rank::Before
    } else if a == b {
        Rank::Same
    } else {
        Rank::After
    }
}

/// The characters of a text, in order.
pub fn chars_of(s: &str) -> (out: Vec<char>)
    ensures
        out@ == s@,
{
    let mut out: Vec<char> = Vec::new();
    for c in it: s.chars()
        invariant
            out@ == it.seq().take(it.index() as int),
            it.seq() == s@,
    {
        out.push(c);
    }
    out
}

/// Compares two character vectors lexicographically.
pub fn rank_chars(a: &Vec<char>, b: &Vec<char>) -> (rank: Rank)
    ensures
        rank == rank_spec(a@, b@),
        rank == Rank::After <==> precedes(b@, a@),
{
    let mut i: usize = 0;
    while i < a.len() && i < b.len()
        invariant
            i <= a.len(),
            i <= b.len(),
            a@.take(i as int) == b@.take(i as int),
        decreases a.len() - i,
    {
        let x = a[i];
        let y = b[i];
        if x != y {
            proof {
                lemma_skip_order(a@, b@, i as int);
                lemma_skip_order(b@, a@, i as int);
                assert(a@.skip(i as int)[0] == x);
                assert(b@.skip(i as int)[0] == y);
                lemma_order_facts(a@, b@);
            }
            if x < y {
                return Rank::Before;
            } else {
                return Rank::After;
            }
        }
        proof {
            assert(a@.take(i + 1) =~= a@.take(i as int).push(x));
            assert(b@.take(i + 1) =~= b@.take(i as int).push(y));
        }
        i += 1;
    }
    proof {
        lemma_skip_order(a@, b@, i as int);
        lemma_skip_order(b@, a@, i as int);
        lemma_order_facts(a@, b@);
        if a.len() == b.len() {
            assert(a@ =~= a@.take(i as int));
            assert(b@ =~= b@.take(i as int));
        }
    }
    if a.len() < b.len() {
        Rank::Before
    } else if a.len() == b.len() {
        Rank::Same
    } else {
        Rank::After
    }
}

/// Exactly one of the three relations holds between two texts.
pub proof fn lemma_order_facts(a: Seq<char>, b: Seq<char>)
    ensures
        precedes(a, b) || a == b || precedes(b, a),
        !(precedes(a, b) && precedes(b, a)),
        !(precedes(a, b) && a == b),
        !(precedes(b, a) && a == b),
{
    lemma_precedes_total(a, b);
    lemma_precedes_irreflexive(a);
    if precedes(a, b) {
        lemma_precedes_asymmetric(a, b);
    }
}

/// Dropping a common prefix does not change the order of two texts.
pub proof fn lemma_skip_order(a: Seq<char>, b: Seq<char>, n: int)
    requires
        0 <= n <= a.len(),
        n <= b.len(),
        a.take(n) == b.take(n),
    ensures
        precedes(a, b) == precedes(a.skip(n), b.skip(n)),
    decreases n,
{
    if n == 0 {
        assert(a.skip(0) =~= a);
        assert(b.skip(0) =~= b);
    } else {
        assert(a[0] == a.take(n)[0]);
        assert(b[0] == b.take(n)[0]);
        let a1 = a.drop_first();
        let b1 = b.drop_first();
        assert(a1.take(n - 1) =~= a.take(n).drop_first());
        assert(b1.take(n - 1) =~= b.take(n).drop_first());
        lemma_skip_order(a1, b1, n - 1);
        assert(a1.skip(n - 1) =~= a.skip(n));
        assert(b1.skip(n - 1) =~= b.skip(n));
    }
}

/// Compares two texts lexicographically.
pub fn rank_text(a: &str, b: &str) -> (rank: Rank)
    ensures
        rank == rank_spec(a@, b@),
        rank == Rank::After <==> precedes(b@, a@),
{
    let left = chars_of(a);
    let right = chars_of(b);
    rank_chars(&left, &right)
}

} // verus!

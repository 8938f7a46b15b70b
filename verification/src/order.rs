//! Lexicographic order on sequences of integers.

use vstd::prelude::*;

verus! {

/// Whether `a` comes strictly before `b`: at the first place where the two
/// differ `a` holds the smaller integer, or `a` is a proper prefix of `b`.
pub open spec fn lex_before(a: Seq<int>, b: Seq<int>) -> bool
    decreases a.len(),
{
    if b.len() == 0 {
        false
    } else if a.len() == 0 {
        true
    } else if a[0] != b[0] {
        a[0] < b[0]
    } else {
        lex_before(a.skip(1), b.skip(1))
    }
}

/// Nothing comes before itself.
pub proof fn lex_irreflexive(a: Seq<int>)
    ensures
        !lex_before(a, a),
    decreases a.len(),
{
    if a.len() > 0 {
        lex_irreflexive(a.skip(1));
    }
}

/// The order is transitive.
pub proof fn lex_transitive(a: Seq<int>, b: Seq<int>, c: Seq<int>)
    requires
        lex_before(a, b),
        lex_before(b, c),
    ensures
        lex_before(a, c),
    decreases a.len(),
{
    if a.len() > 0 && b.len() > 0 && c.len() > 0 && a[0] == b[0] && b[0] == c[0] {
        lex_transitive(a.skip(1), b.skip(1), c.skip(1));
    }
}

/// Of two different sequences one comes before the other.
pub proof fn lex_total(a: Seq<int>, b: Seq<int>)
    ensures
        a == b || lex_before(a, b) || lex_before(b, a),
    decreases a.len(),
{
    if a.len() > 0 && b.len() > 0 {
        if a[0] == b[0] {
            lex_total(a.skip(1), b.skip(1));
            if a.skip(1) == b.skip(1) {
                assert(a =~= seq![a[0]] + a.skip(1));
                assert(b =~= seq![b[0]] + b.skip(1));
            }
        }
    } else if a.len() == 0 && b.len() == 0 {
        assert(a =~= b);
    }
}

/// A shared prefix leaves the order of what follows it as it is.
pub proof fn lex_shared_prefix(p: Seq<int>, a: Seq<int>, b: Seq<int>)
    ensures
        lex_before(p + a, p + b) == lex_before(a, b),
    decreases p.len(),
{
    if p.len() == 0 {
        assert(p + a =~= a);
        assert(p + b =~= b);
    } else {
        assert((p + a).skip(1) =~= p.skip(1) + a);
        assert((p + b).skip(1) =~= p.skip(1) + b);
        lex_shared_prefix(p.skip(1), a, b);
    }
}

/// The first difference decides.
pub proof fn lex_first_difference(a: Seq<int>, b: Seq<int>, k: int)
    requires
        0 <= k < a.len(),
        k < b.len(),
        a.take(k) == b.take(k),
        a[k] != b[k],
    ensures
        lex_before(a, b) == (a[k] < b[k]),
{
    assert(a =~= a.take(k) + a.skip(k));
    assert(b =~= b.take(k) + b.skip(k));
    lex_shared_prefix(a.take(k), a.skip(k), b.skip(k));
}

/// A proper prefix comes first.
pub proof fn lex_proper_prefix(a: Seq<int>, b: Seq<int>)
    requires
        a.len() < b.len(),
        a == b.take(a.len() as int),
    ensures
        lex_before(a, b),
        !lex_before(b, a),
{
    let rest = b.skip(a.len() as int);
    assert(a =~= a + Seq::<int>::empty());
    assert(b =~= a + rest);
    lex_shared_prefix(a, Seq::<int>::empty(), rest);
    lex_shared_prefix(a, rest, Seq::<int>::empty());
}

/// The code points of a text.
pub open spec fn code_points(text: Seq<char>) -> Seq<int> {
    text.map_values(|c: char| c as int)
}

/// Whether the text `a` sorts before the text `b`.
pub fn text_before(a: &str, b: &str) -> (r: bool)
    ensures
        r == lex_before(code_points(a@), code_points(b@)),
{
    let left = crate::text::chars_of(a);
    let right = crate::text::chars_of(b);
    let ghost x = code_points(a@);
    let ghost y = code_points(b@);
    let mut i: usize = 0;
    while i < left.len() && i < right.len()
        invariant
            left@ == a@,
            right@ == b@,
            x == code_points(a@),
            y == code_points(b@),
            i <= left.len(),
            i <= right.len(),
            x.take(i as int) == y.take(i as int),
        decreases left.len() - i,
    {
        if left[i] != right[i] {
            proof {
                assert(x[i as int] != y[i as int]);
                lex_first_difference(x, y, i as int);
            }
            return left[i] < right[i];
        }
        proof {
            assert(x.take(i + 1) =~= x.take(i as int).push(x[i as int]));
            assert(y.take(i + 1) =~= y.take(i as int).push(y[i as int]));
        }
        i = i + 1;
    }
    proof {
        assert(x.take(x.len() as int) =~= x);
        assert(y.take(y.len() as int) =~= y);
        if x.len() < y.len() {
            lex_proper_prefix(x, y);
        } else if y.len() < x.len() {
            lex_proper_prefix(y, x);
        } else {
            lex_irreflexive(x);
        }
    }
    left.len() < right.len()
}

/// Texts with the same code points are the same.
pub proof fn code_points_injective(a: Seq<char>, b: Seq<char>)
    ensures
        code_points(a) == code_points(b) ==> a == b,
{
    if code_points(a) == code_points(b) {
        assert(code_points(a).len() == a.len());
        assert(code_points(b).len() == b.len());
        assert forall|i: int| 0 <= i < a.len() implies a[i] == b[i] by {
            assert(code_points(a)[i] == a[i] as int);
            assert(code_points(b)[i] == b[i] as int);
        }
        assert(a =~= b);
    }
}

} // verus!

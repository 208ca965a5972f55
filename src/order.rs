//! The order in which the multi-valued fields of an event are kept:
//! strictly ascending, so that a list is the one canonical listing of its set.
use vstd::prelude::*;

verus! {

/// Lexicographic order of texts by code point, a proper prefix first (the
/// order of `str` and `String`).
pub open spec fn text_less(a: Seq<char>, b: Seq<char>) -> bool
    decreases a.len(),
{
    if a.len() == 0 {
        b.len() > 0
    } else if b.len() == 0 {
        false
    } else if a[0] != b[0] {
        (a[0] as u32) < (b[0] as u32)
    } else {
        text_less(a.drop_first(), b.drop_first())
    }
}

/// Order of cohorts: by category, then by name.
pub open spec fn cohort_less(a: (Seq<char>, Seq<char>), b: (Seq<char>, Seq<char>)) -> bool {
    text_less(a.0, b.0) || (a.0 == b.0 && text_less(a.1, b.1))
}

/// Every item comes before every later one under `less`.
pub open spec fn ascending_by<T>(s: Seq<T>, less: spec_fn(T, T) -> bool) -> bool {
    forall|i: int, j: int| 0 <= i < j < s.len() ==> #[trigger] less(s[i], s[j])
}

/// Texts listed in strictly ascending order.
pub open spec fn texts_ascending(s: Seq<Seq<char>>) -> bool {
    forall|i: int, j: int| 0 <= i < j < s.len() ==> #[trigger] text_less(s[i], s[j])
}

/// Cohorts listed in strictly ascending order.
pub open spec fn cohorts_ascending(s: Seq<(Seq<char>, Seq<char>)>) -> bool {
    forall|i: int, j: int| 0 <= i < j < s.len() ==> #[trigger] cohort_less(s[i], s[j])
}

/// No text comes before itself, and of two texts at most one comes first.
pub proof fn lemma_text_less_strict(a: Seq<char>, b: Seq<char>)
    ensures
        !text_less(a, a),
        !(text_less(a, b) && text_less(b, a)),
    decreases a.len(),
{
    if a.len() > 0 && b.len() > 0 && a[0] == b[0] {
        lemma_text_less_strict(a.drop_first(), b.drop_first());
    }
    if a.len() > 0 {
        lemma_text_less_strict(a.drop_first(), a.drop_first());
    }
}

/// Two strictly ascending listings of the same set are the same listing,
/// for any order that is irreflexive and asymmetric.
pub proof fn lemma_ascending_unique<T>(a: Seq<T>, b: Seq<T>, less: spec_fn(T, T) -> bool)
    requires
        forall|x: T, y: T| #[trigger] less(x, y) ==> x != y && !less(y, x),
        ascending_by(a, less),
        ascending_by(b, less),
        a.to_set() == b.to_set(),
    ensures
        a == b,
    decreases a.len(),
{
    if a.len() == 0 {
        if b.len() > 0 {
            assert(b.to_set().contains(b[0]));
        }
    } else if b.len() == 0 {
        assert(a.to_set().contains(a[0]));
    } else {
        assert(a.to_set().contains(a[0]));
        assert(b.to_set().contains(b[0]));
        let k = choose|k: int| 0 <= k < b.len() && b[k] == a[0];
        let m = choose|m: int| 0 <= m < a.len() && a[m] == b[0];
        if a[0] != b[0] {
            assert(k > 0 && m > 0);
            assert(less(b[0], b[k]));
            assert(less(a[0], a[m]));
        }
        let a2 = a.drop_first();
        let b2 = b.drop_first();
        assert forall|x: T| a2.to_set().contains(x) == b2.to_set().contains(x) by {
            if a2.contains(x) {
                let i = choose|i: int| 0 <= i < a2.len() && a2[i] == x;
                assert(less(a[0], a[i + 1]));
                assert(b.to_set().contains(x));
                let j = choose|j: int| 0 <= j < b.len() && b[j] == x;
                if j == 0 {
                    assert(false);
                }
                assert(b2[j - 1] == x);
            }
            if b2.contains(x) {
                let i = choose|i: int| 0 <= i < b2.len() && b2[i] == x;
                assert(less(b[0], b[i + 1]));
                assert(a.to_set().contains(x));
                let j = choose|j: int| 0 <= j < a.len() && a[j] == x;
                if j == 0 {
                    assert(false);
                }
                assert(a2[j - 1] == x);
            }
        }
        assert(a2.to_set() =~= b2.to_set());
        assert forall|i: int, j: int| 0 <= i < j < a2.len() implies #[trigger] less(a2[i], a2[j]) by {
            assert(less(a[i + 1], a[j + 1]));
        }
        assert forall|i: int, j: int| 0 <= i < j < b2.len() implies #[trigger] less(b2[i], b2[j]) by {
            assert(less(b[i + 1], b[j + 1]));
        }
        lemma_ascending_unique(a2, b2, less);
        assert(a =~= b) by {
            assert forall|i: int| 0 <= i < a.len() implies a[i] == b[i] by {
                if i > 0 {
                    assert(a[i] == a2[i - 1]);
                }
            }
        }
    }
}

/// Two strictly ascending listings of the same set of texts are equal.
pub proof fn lemma_texts_ascending_unique(a: Seq<Seq<char>>, b: Seq<Seq<char>>)
    requires
        texts_ascending(a),
        texts_ascending(b),
        a.to_set() == b.to_set(),
    ensures
        a == b,
{
    let less = |x: Seq<char>, y: Seq<char>| text_less(x, y);
    assert forall|x: Seq<char>, y: Seq<char>| #[trigger] less(x, y) implies x != y && !less(y, x) by {
        lemma_text_less_strict(x, y);
    }
    assert forall|i: int, j: int| 0 <= i < j < a.len() implies #[trigger] less(a[i], a[j]) by {
        assert(text_less(a[i], a[j]));
    }
    assert forall|i: int, j: int| 0 <= i < j < b.len() implies #[trigger] less(b[i], b[j]) by {
        assert(text_less(b[i], b[j]));
    }
    lemma_ascending_unique(a, b, less);
}

/// Two strictly ascending listings of the same set of cohorts are equal.
pub proof fn lemma_cohorts_ascending_unique(
    a: Seq<(Seq<char>, Seq<char>)>,
    b: Seq<(Seq<char>, Seq<char>)>,
)
    requires
        cohorts_ascending(a),
        cohorts_ascending(b),
        a.to_set() == b.to_set(),
    ensures
        a == b,
{
    let less = |x: (Seq<char>, Seq<char>), y: (Seq<char>, Seq<char>)| cohort_less(x, y);
    assert forall|x: (Seq<char>, Seq<char>), y: (Seq<char>, Seq<char>)| #[trigger] less(x, y) implies x
        != y && !less(y, x) by {
        lemma_text_less_strict(x.0, y.0);
        lemma_text_less_strict(x.1, y.1);
    }
    assert forall|i: int, j: int| 0 <= i < j < a.len() implies #[trigger] less(a[i], a[j]) by {
        assert(cohort_less(a[i], a[j]));
    }
    assert forall|i: int, j: int| 0 <= i < j < b.len() implies #[trigger] less(b[i], b[j]) by {
        assert(cohort_less(b[i], b[j]));
    }
    lemma_ascending_unique(a, b, less);
}

} // verus!

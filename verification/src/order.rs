//! The order of `String`s (byte-wise UTF-8, which is code-point-wise lexicographic) and sorted
//! insertion into vectors of character sequences.
use vstd::prelude::*;

verus! {

/// `a < b` in the lexicographic order of code points, which is the order `Ord for str`
/// gives (UTF-8 preserves code-point order).
pub open spec fn char_seq_lt(a: Seq<char>, b: Seq<char>) -> bool
    decreases a.len(),
{
    if a.len() == 0 {
        b.len() > 0
    } else if b.len() == 0 {
        false
    } else if a[0] != b[0] {
        (a[0] as int) < (b[0] as int)
    } else {
        char_seq_lt(a.drop_first(), b.drop_first())
    }
}

/// Exactly one of `a < b`, `a == b`, `b < a` holds.
pub proof fn lemma_char_seq_trichotomy(a: Seq<char>, b: Seq<char>)
    ensures
        char_seq_lt(a, b) || a == b || char_seq_lt(b, a),
        !(char_seq_lt(a, b) && a == b),
        !(char_seq_lt(a, b) && char_seq_lt(b, a)),
    decreases a.len(),
{
    if a.len() > 0 && b.len() > 0 && a[0] == b[0] {
        lemma_char_seq_trichotomy(a.drop_first(), b.drop_first());
        if a.drop_first() == b.drop_first() {
            assert(a =~= seq![a[0]] + a.drop_first());
            assert(b =~= seq![b[0]] + b.drop_first());
        }
    } else if a.len() == 0 && b.len() == 0 {
        assert(a =~= b);
    }
}

/// `<` is transitive.
pub proof fn lemma_char_seq_lt_transitive(a: Seq<char>, b: Seq<char>, c: Seq<char>)
    requires
        char_seq_lt(a, b),
        char_seq_lt(b, c),
    ensures
        char_seq_lt(a, c),
    decreases a.len(),
{
    if a.len() > 0 && b.len() > 0 && c.len() > 0 && a[0] == b[0] && b[0] == c[0] {
        lemma_char_seq_lt_transitive(a.drop_first(), b.drop_first(), c.drop_first());
    }
}

/// Every element is smaller than every later one (sorted, without duplicates).
pub open spec fn strictly_sorted(s: Seq<Seq<char>>) -> bool {
    forall|i: int, j: int| 0 <= i < j < s.len() ==> char_seq_lt(#[trigger] s[i], #[trigger] s[j])
}

/// A strictly sorted sequence holds no element twice.
pub proof fn lemma_strictly_sorted_no_duplicates(s: Seq<Seq<char>>)
    requires
        strictly_sorted(s),
    ensures
        s.no_duplicates(),
{
    assert forall|i: int, j: int| 0 <= i < s.len() && 0 <= j < s.len() && i != j implies s[i]
        != s[j] by {
        if i < j {
            lemma_char_seq_trichotomy(s[i], s[j]);
        } else {
            lemma_char_seq_trichotomy(s[j], s[i]);
        }
    }
}

/// No element is smaller than an earlier one (sorted ascending, duplicates allowed).
pub open spec fn sorted(s: Seq<Seq<char>>) -> bool {
    forall|i: int, j: int| 0 <= i < j < s.len() ==> !char_seq_lt(#[trigger] s[j], #[trigger] s[i])
}

/// The character sequences held by a vector of character vectors.
pub open spec fn views(v: Seq<Vec<char>>) -> Seq<Seq<char>> {
    v.map_values(|w: Vec<char>| w@)
}

/// Compares two character vectors: `a < b`.
pub fn chars_lt(a: &Vec<char>, b: &Vec<char>) -> (res: bool)
    ensures
        res == char_seq_lt(a@, b@),
{
    let mut i: usize = 0;
    assert(a@.skip(0) =~= a@);
    assert(b@.skip(0) =~= b@);
    while i < a.len() && i < b.len() && a[i] == b[i]
        invariant
            i <= a.len(),
            i <= b.len(),
            char_seq_lt(a@, b@) == char_seq_lt(a@.skip(i as int), b@.skip(i as int)),
        decreases a.len() - i,
    {
        assert(a@.skip(i as int).drop_first() =~= a@.skip(i + 1));
        assert(b@.skip(i as int).drop_first() =~= b@.skip(i + 1));
        i = i + 1;
    }
    if i == a.len() {
        i < b.len()
    } else if i == b.len() {
        false
    } else {
        a[i] < b[i]
    }
}

/// Compares two character vectors for equality.
pub fn chars_eq(a: &Vec<char>, b: &Vec<char>) -> (res: bool)
    ensures
        res == (a@ == b@),
{
    if a.len() != b.len() {
        return false;
    }
    let mut i: usize = 0;
    while i < a.len()
        invariant
            a.len() == b.len(),
            i <= a.len(),
            forall|k: int| 0 <= k < i ==> a@[k] == b@[k],
        decreases a.len() - i,
    {
        if a[i] != b[i] {
            return false;
        }
        i = i + 1;
    }
    assert(a@ =~= b@);
    true
}

proof fn lemma_views_insert(v: Seq<Vec<char>>, k: int, x: Vec<char>)
    requires
        0 <= k <= v.len(),
    ensures
        views(v.insert(k, x)) == views(v).insert(k, x@),
{
    assert(views(v.insert(k, x)) =~= views(v).insert(k, x@));
}

/// Inserts `x` into the strictly sorted `v`, unless it is already there.
pub fn insert_sorted_unique(v: &mut Vec<Vec<char>>, x: Vec<char>)
    requires
        strictly_sorted(views(old(v)@)),
    ensures
        strictly_sorted(views(final(v)@)),
        views(final(v)@).to_set() == views(old(v)@).to_set().insert(x@),
{
    let ghost old_views = views(v@);
    let mut k: usize = 0;
    while k < v.len() && chars_lt(&v[k], &x)
        invariant
            k <= v.len(),
            views(v@) == old_views,
            forall|i: int| 0 <= i < k ==> char_seq_lt(#[trigger] old_views[i], x@),
        decreases v.len() - k,
    {
        k = k + 1;
    }
    if k < v.len() && chars_eq(&v[k], &x) {
        assert(old_views[k as int] == x@);
        assert(old_views.to_set().insert(x@) =~= old_views.to_set());
        return;
    }
    proof {
        if k < v.len() {
            lemma_char_seq_trichotomy(old_views[k as int], x@);
            assert forall|j: int| k <= j < old_views.len() implies char_seq_lt(
                x@,
                #[trigger] old_views[j],
            ) by {
                if j > k {
                    lemma_char_seq_lt_transitive(x@, old_views[k as int], old_views[j]);
                }
            }
        }
    }
    let ghost before = v@;
    v.insert(k, x);
    proof {
        lemma_views_insert(before, k as int, x);
        let nv = views(v@);
        assert(nv =~= old_views.insert(k as int, x@));
        assert forall|i: int, j: int| 0 <= i < j < nv.len() implies char_seq_lt(
            #[trigger] nv[i],
            #[trigger] nv[j],
        ) by {
            if j < k {
            } else if j == k {
            } else if i < k {
                lemma_char_seq_lt_transitive(nv[i], x@, nv[j]);
            } else if i == k {
            } else {
                assert(nv[i] == old_views[i - 1] && nv[j] == old_views[j - 1]);
            }
        }
        assert forall|s: Seq<char>| #[trigger] nv.to_set().contains(s) <==> old_views.to_set().insert(x@).contains(s) by {
            if nv.contains(s) {
                let i = choose|i: int| 0 <= i < nv.len() && nv[i] == s;
                if i < k {
                    assert(old_views[i] == s);
                } else if i > k {
                    assert(old_views[i - 1] == s);
                }
            }
            if old_views.contains(s) {
                let i = choose|i: int| 0 <= i < old_views.len() && old_views[i] == s;
                if i < k {
                    assert(nv[i] == s);
                } else {
                    assert(nv[i + 1] == s);
                }
            }
            if s == x@ {
                assert(nv[k as int] == s);
            }
        }
        assert(nv.to_set() =~= old_views.to_set().insert(x@));
    }
}

/// Inserts `x` into the sorted `v`, after every element not greater than it.
pub fn insert_sorted(v: &mut Vec<Vec<char>>, x: Vec<char>)
    requires
        sorted(views(old(v)@)),
    ensures
        sorted(views(final(v)@)),
        views(final(v)@).to_multiset() == views(old(v)@).to_multiset().insert(x@),
{
    broadcast use vstd::seq_lib::to_multiset_insert;

    let ghost old_views = views(v@);
    let mut k: usize = 0;
    while k < v.len() && !chars_lt(&x, &v[k])
        invariant
            k <= v.len(),
            views(v@) == old_views,
            forall|i: int| 0 <= i < k ==> !char_seq_lt(x@, #[trigger] old_views[i]),
        decreases v.len() - k,
    {
        k = k + 1;
    }
    proof {
        assert forall|j: int| k <= j < old_views.len() implies char_seq_lt(
            x@,
            #[trigger] old_views[j],
        ) by {
            if j > k {
                lemma_char_seq_trichotomy(old_views[k as int], old_views[j]);
                if old_views[k as int] != old_views[j] {
                    lemma_char_seq_lt_transitive(x@, old_views[k as int], old_views[j]);
                }
            }
        }
    }
    let ghost before = v@;
    v.insert(k, x);
    proof {
        lemma_views_insert(before, k as int, x);
        let nv = views(v@);
        assert(nv =~= old_views.insert(k as int, x@));
        assert forall|i: int, j: int| 0 <= i < j < nv.len() implies !char_seq_lt(
            #[trigger] nv[j],
            #[trigger] nv[i],
        ) by {
            if j < k {
            } else if j == k {
                lemma_char_seq_trichotomy(nv[i], x@);
            } else if i < k {
                lemma_char_seq_trichotomy(nv[i], x@);
                lemma_char_seq_trichotomy(nv[j], x@);
                lemma_char_seq_trichotomy(nv[j], nv[i]);
                if char_seq_lt(nv[j], nv[i]) {
                    lemma_char_seq_lt_transitive(x@, nv[j], nv[i]);
                }
            } else if i == k {
                lemma_char_seq_trichotomy(nv[j], x@);
            } else {
                assert(nv[i] == old_views[i - 1] && nv[j] == old_views[j - 1]);
            }
        }
    }
}

} // verus!

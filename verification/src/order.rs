//! Ordering of version names.
//!
//! Installed versions are listed newest-looking first: the names are sorted in
//! ascending lexicographic order of their characters and then reversed. This
//! module defines that order on the character sequences of the names, proves it
//! a strict total order, and implements the descending sort.
use vstd::prelude::*;

verus! {

broadcast use vstd::seq_lib::group_to_multiset_ensures;

/// Strict lexicographic order on character sequences, characters compared by
/// their scalar values; a proper prefix comes before the longer sequence.
pub open spec fn lex_lt(a: Seq<char>, b: Seq<char>) -> bool
    decreases a.len(),
{
    if a.len() == 0 {
        b.len() > 0
    } else if b.len() == 0 {
        false
    } else if a[0] != b[0] {
        (a[0] as int) < (b[0] as int)
    } else {
        lex_lt(a.drop_first(), b.drop_first())
    }
}

/// The sequence is in descending order: no name is smaller than one after it.
pub open spec fn sorted_descending(s: Seq<Seq<char>>) -> bool {
    forall|i: int, j: int| 0 <= i < j < s.len() ==> !lex_lt(#[trigger] s[i], #[trigger] s[j])
}

/// The character sequences of a sequence of strings.
pub open spec fn string_views(s: Seq<String>) -> Seq<Seq<char>> {
    s.map_values(|x: String| x@)
}

/// No sequence is smaller than itself.
pub proof fn lemma_lex_lt_irreflexive(a: Seq<char>)
    ensures
        !lex_lt(a, a),
    decreases a.len(),
{
    if a.len() > 0 {
        lemma_lex_lt_irreflexive(a.drop_first());
    }
}

/// Of two sequences at most one is smaller than the other.
pub proof fn lemma_lex_lt_asymmetric(a: Seq<char>, b: Seq<char>)
    requires
        lex_lt(a, b),
    ensures
        !lex_lt(b, a),
    decreases a.len(),
{
    if a.len() > 0 && b.len() > 0 && a[0] == b[0] {
        lemma_lex_lt_asymmetric(a.drop_first(), b.drop_first());
    }
}

/// The order is transitive.
pub proof fn lemma_lex_lt_transitive(a: Seq<char>, b: Seq<char>, c: Seq<char>)
    requires
        lex_lt(a, b),
        lex_lt(b, c),
    ensures
        lex_lt(a, c),
    decreases a.len(),
{
    if a.len() > 0 && a[0] == b[0] && b[0] == c[0] {
        lemma_lex_lt_transitive(a.drop_first(), b.drop_first(), c.drop_first());
    }
}

/// Two different sequences are comparable.
pub proof fn lemma_lex_lt_total(a: Seq<char>, b: Seq<char>)
    requires
        a != b,
    ensures
        lex_lt(a, b) || lex_lt(b, a),
    decreases a.len(),
{
    if a.len() == 0 && b.len() == 0 {
        assert(a =~= b);
    }
    if a.len() > 0 && b.len() > 0 && a[0] == b[0] {
        if a.drop_first() == b.drop_first() {
            assert(a.len() == a.drop_first().len() + 1);
            assert(b.len() == b.drop_first().len() + 1);
            assert forall|i: int| 0 <= i < a.len() implies a[i] == b[i] by {
                if i > 0 {
                    assert(a[i] == a.drop_first()[i - 1]);
                    assert(b[i] == b.drop_first()[i - 1]);
                }
            }
            assert(a =~= b);
        }
        lemma_lex_lt_total(a.drop_first(), b.drop_first());
    }
}

/// The first position where two sequences differ decides their order: the one
/// whose character there has the smaller scalar value is the smaller.
pub proof fn law_lex_lt_first_difference(a: Seq<char>, b: Seq<char>, k: int)
    requires
        0 <= k < a.len(),
        k < b.len(),
        a.take(k) == b.take(k),
        a[k] != b[k],
    ensures
        lex_lt(a, b) <==> (a[k] as int) < (b[k] as int),
        lex_lt(b, a) <==> (b[k] as int) < (a[k] as int),
    decreases k,
{
    if k > 0 {
        assert(a[0] == a.take(k)[0]);
        assert(b[0] == b.take(k)[0]);
        let ra = a.drop_first();
        let rb = b.drop_first();
        assert(ra.take(k - 1) =~= a.take(k).drop_first());
        assert(rb.take(k - 1) =~= b.take(k).drop_first());
        assert(ra[k - 1] == a[k] && rb[k - 1] == b[k]);
        law_lex_lt_first_difference(ra, rb, k - 1);
    }
}

/// A proper prefix comes before the longer sequence, and never after it.
pub proof fn law_lex_lt_proper_prefix(a: Seq<char>, b: Seq<char>)
    requires
        a.len() < b.len(),
        b.take(a.len() as int) == a,
    ensures
        lex_lt(a, b),
        !lex_lt(b, a),
    decreases a.len(),
{
    if a.len() > 0 {
        assert(a[0] == b.take(a.len() as int)[0]);
        let ra = a.drop_first();
        let rb = b.drop_first();
        assert(rb.take(ra.len() as int) =~= ra);
        law_lex_lt_proper_prefix(ra, rb);
    }
}

/// The descending arrangement of a collection of names is unique: two
/// arrangements in descending order of the same names, each as often, are the
/// same sequence. The installed versions are therefore listed in one order,
/// whatever order the directory gave them in.
pub proof fn law_descending_arrangement_unique(a: Seq<Seq<char>>, b: Seq<Seq<char>>)
    requires
        a.to_multiset() == b.to_multiset(),
        sorted_descending(a),
        sorted_descending(b),
    ensures
        a == b,
    decreases a.len(),
{
    assert(a.len() == a.to_multiset().len());
    assert(b.len() == b.to_multiset().len());
    if a.len() == 0 {
        assert(a =~= b);
    } else {
        let x = a[0];
        let y = b[0];
        assert(a.contains(x));
        assert(a.to_multiset().count(x) > 0);
        assert(b.contains(x));
        let k = choose|k: int| 0 <= k < b.len() && b[k] == x;
        if k > 0 {
            assert(!lex_lt(b[0], b[k]));
        } else {
            lemma_lex_lt_irreflexive(y);
        }
        assert(b.contains(y));
        assert(b.to_multiset().count(y) > 0);
        assert(a.contains(y));
        let m = choose|m: int| 0 <= m < a.len() && a[m] == y;
        if m > 0 {
            assert(!lex_lt(a[0], a[m]));
        } else {
            lemma_lex_lt_irreflexive(x);
        }
        if x != y {
            lemma_lex_lt_total(x, y);
        }
        assert(x == y);
        assert(a.remove(0) =~= a.drop_first());
        assert(b.remove(0) =~= b.drop_first());
        assert(a.remove(0).to_multiset() == a.to_multiset().remove(x));
        assert(b.remove(0).to_multiset() == b.to_multiset().remove(y));
        let ra = a.drop_first();
        let rb = b.drop_first();
        assert forall|i: int, j: int| 0 <= i < j < ra.len() implies !lex_lt(
            #[trigger] ra[i],
            #[trigger] ra[j],
        ) by {
            assert(ra[i] == a[i + 1] && ra[j] == a[j + 1]);
        }
        assert forall|i: int, j: int| 0 <= i < j < rb.len() implies !lex_lt(
            #[trigger] rb[i],
            #[trigger] rb[j],
        ) by {
            assert(rb[i] == b[i + 1] && rb[j] == b[j + 1]);
        }
        law_descending_arrangement_unique(ra, rb);
        assert forall|i: int| 0 <= i < a.len() implies a[i] == b[i] by {
            if i > 0 {
                assert(a[i] == ra[i - 1] && b[i] == rb[i - 1]);
            }
        }
        assert(a =~= b);
    }
}

/// Strips one common leading character from both suffixes.
proof fn lemma_lex_lt_step(a: Seq<char>, b: Seq<char>, i: int)
    requires
        0 <= i < a.len(),
        i < b.len(),
        a[i] == b[i],
    ensures
        lex_lt(a.skip(i), b.skip(i)) == lex_lt(a.skip(i + 1), b.skip(i + 1)),
{
    assert(a.skip(i).drop_first() =~= a.skip(i + 1));
    assert(b.skip(i).drop_first() =~= b.skip(i + 1));
}

/// Whether `a` comes strictly before `b` in lexicographic order.
pub fn str_less(a: &str, b: &str) -> (r: bool)
    ensures
        r == lex_lt(a@, b@),
{
    let la = a.unicode_len();
    let lb = b.unicode_len();
    let mut i: usize = 0;
    assert(a@.skip(0) =~= a@);
    assert(b@.skip(0) =~= b@);
    while i < la && i < lb
        invariant
            la == a@.len(),
            lb == b@.len(),
            i <= la,
            i <= lb,
            lex_lt(a@, b@) == lex_lt(a@.skip(i as int), b@.skip(i as int)),
        decreases la - i,
    {
        let ca = a.get_char(i);
        let cb = b.get_char(i);
        if ca != cb {
            assert(a@.skip(i as int)[0] == ca);
            assert(b@.skip(i as int)[0] == cb);
            return (ca as u32) < (cb as u32);
        }
        proof {
            lemma_lex_lt_step(a@, b@, i as int);
        }
        i = i + 1;
    }
    la < lb
}

/// Inserting into a sorted sequence, before the first element smaller than the
/// new one, keeps it sorted.
proof fn lemma_insert_keeps_sorted(s: Seq<Seq<char>>, p: int, x: Seq<char>)
    requires
        sorted_descending(s),
        0 <= p <= s.len(),
        forall|k: int| 0 <= k < p ==> !lex_lt(#[trigger] s[k], x),
        p < s.len() ==> lex_lt(s[p], x),
    ensures
        sorted_descending(s.insert(p, x)),
{
    let t = s.insert(p, x);
    s.insert_ensures(p, x);
    assert forall|i: int, j: int| 0 <= i < j < t.len() implies !lex_lt(#[trigger] t[i], #[trigger] t[j]) by {
        if j < p {
            assert(t[i] == s[i] && t[j] == s[j]);
        } else if j == p {
            assert(t[i] == s[i]);
        } else if i > p {
            assert(t[i] == s[i - 1] && t[j] == s[j - 1]);
        } else if i == p {
            // t[i] == x, t[j] == s[j - 1] with j - 1 >= p
            let y = s[j - 1];
            assert(t[j] == y);
            if j - 1 == p {
                lemma_lex_lt_asymmetric(y, x);
            } else {
                assert(!lex_lt(s[p], y));
                if y == s[p] {
                    lemma_lex_lt_asymmetric(y, x);
                } else {
                    lemma_lex_lt_total(y, s[p]);
                    lemma_lex_lt_transitive(y, s[p], x);
                    lemma_lex_lt_asymmetric(y, x);
                }
            }
        } else {
            // i < p < j
            assert(t[i] == s[i] && t[j] == s[j - 1]);
        }
    }
}

/// Sorts names in descending lexicographic order: the result holds the same
/// names, each as often as in the input, and no name precedes a larger one.
pub fn sort_descending(names: Vec<String>) -> (sorted: Vec<String>)
    ensures
        string_views(sorted@).to_multiset() == string_views(names@).to_multiset(),
        sorted_descending(string_views(sorted@)),
{
    let mut out: Vec<String> = Vec::new();
    let n = names.len();
    let mut i: usize = 0;
    assert(string_views(out@) =~= Seq::<Seq<char>>::empty());
    assert(string_views(names@).take(0) =~= Seq::<Seq<char>>::empty());
    while i < n
        invariant
            n == names@.len(),
            i <= n,
            string_views(out@).to_multiset() == string_views(names@).take(i as int).to_multiset(),
            sorted_descending(string_views(out@)),
        decreases n - i,
    {
        let x = names[i].clone();
        let ghost xs = x@;
        let ghost before = string_views(out@);
        let len = out.len();
        let mut p: usize = 0;
        while p < len && !str_less(out[p].as_str(), x.as_str())
            invariant
                len == out@.len(),
                p <= len,
                before == string_views(out@),
                xs == x@,
                forall|k: int| 0 <= k < p ==> !lex_lt(#[trigger] before[k], xs),
            decreases len - p,
        {
            p = p + 1;
        }
        proof {
            lemma_insert_keeps_sorted(before, p as int, xs);
        }
        out.insert(p, x);
        proof {
            assert(string_views(out@) =~= before.insert(p as int, xs));
            assert(string_views(names@).take(i + 1) =~= string_views(names@).take(i as int).push(xs));
            assert(before.insert(p as int, xs).to_multiset() == before.to_multiset().insert(xs));
        }
        i = i + 1;
    }
    assert(string_views(names@).take(n as int) =~= string_views(names@));
    out
}

} // verus!

//! The lexicographic order of strings by code point (the order of Rust's `String`, since
//! UTF-8 keeps code-point order), and sorting with duplicates removed.
use vstd::prelude::*;

verus! {

/// Whether `a` comes strictly before `b` in lexicographic code-point order.
pub open spec fn lex_lt(a: Seq<char>, b: Seq<char>) -> bool
    decreases a.len(),
{
    if a.len() == 0 {
        b.len() > 0
    } else if b.len() == 0 {
        false
    } else if a[0] != b[0] {
        a[0] < b[0]
    } else {
        lex_lt(a.drop_first(), b.drop_first())
    }
}

/// The order is irreflexive.
pub proof fn lemma_lex_irreflexive(a: Seq<char>)
    ensures
        !lex_lt(a, a),
    decreases a.len(),
{
    if a.len() > 0 {
        lemma_lex_irreflexive(a.drop_first());
    }
}

/// The order is transitive.
pub proof fn lemma_lex_transitive(a: Seq<char>, b: Seq<char>, c: Seq<char>)
    requires
        lex_lt(a, b),
        lex_lt(b, c),
    ensures
        lex_lt(a, c),
    decreases a.len(),
{
    if a.len() > 0 && b.len() > 0 && c.len() > 0 {
        if a[0] == b[0] && b[0] == c[0] {
            lemma_lex_transitive(a.drop_first(), b.drop_first(), c.drop_first());
        }
    }
}

/// Any two different strings are ordered one way or the other.
pub proof fn lemma_lex_total(a: Seq<char>, b: Seq<char>)
    ensures
        a == b || lex_lt(a, b) || lex_lt(b, a),
    decreases a.len(),
{
    if a.len() > 0 && b.len() > 0 && a[0] == b[0] {
        lemma_lex_total(a.drop_first(), b.drop_first());
        if a.drop_first() == b.drop_first() {
            assert(a =~= seq![a[0]] + a.drop_first());
            assert(b =~= seq![b[0]] + b.drop_first());
        }
    } else if a.len() == 0 && b.len() == 0 {
        assert(a =~= b);
    }
}

/// Whether `a` comes strictly before `b` (executable).
pub fn lex_less(a: &Vec<char>, b: &Vec<char>) -> (r: bool)
    ensures
        r == lex_lt(a@, b@),
{
    let mut i: usize = 0;
    assert(a@.skip(0) =~= a@);
    assert(b@.skip(0) =~= b@);
    while i < a.len() && i < b.len() && a[i] == b[i]
        invariant
            i <= a@.len(),
            i <= b@.len(),
            lex_lt(a@, b@) == lex_lt(a@.skip(i as int), b@.skip(i as int)),
        decreases a.len() - i,
    {
        assert(a@.skip(i as int).drop_first() =~= a@.skip(i + 1));
        assert(b@.skip(i as int).drop_first() =~= b@.skip(i + 1));
        i = i + 1;
    }
    if i == a.len() {
        i < b.len()
    } else if i == b.len() {
        false
    } else {
        a[i] < b[i]
    }
}

/// Pushing onto a sequence inserts into its set of elements.
pub proof fn lemma_push_to_set(s: Seq<Seq<char>>, x: Seq<char>)
    ensures
        s.push(x).to_set() == s.to_set().insert(x),
{
    assert forall|y: Seq<char>| s.push(x).to_set().contains(y) <==> s.to_set().insert(x).contains(y) by {
        if s.push(x).contains(y) {
            let k = choose|k: int| 0 <= k < s.push(x).len() && s.push(x)[k] == y;
            if k < s.len() {
                assert(s[k] == y);
                assert(s.contains(y));
            }
        }
        if s.contains(y) {
            let k = choose|k: int| 0 <= k < s.len() && s[k] == y;
            assert(s.push(x)[k] == y);
        }
        if y == x {
            assert(s.push(x)[s.len() as int] == y);
        }
    }
    assert(s.push(x).to_set() =~= s.to_set().insert(x));
}

/// Whether `s` is strictly increasing.
pub open spec fn strictly_sorted(s: Seq<Seq<char>>) -> bool {
    forall|i: int, j: int| 0 <= i < j < s.len() ==> lex_lt(#[trigger] s[i], #[trigger] s[j])
}

/// The views of a list of strings.
pub open spec fn strs(v: Seq<String>) -> Seq<Seq<char>> {
    v.map_values(|s: String| s@)
}

/// Sorts strings and removes duplicates (`sort` then `dedup`): the result is strictly
/// increasing and holds exactly the strings of `v`.
pub fn sort_dedup(v: Vec<String>) -> (r: Vec<String>)
    ensures
        strictly_sorted(strs(r@)),
        strs(r@).to_set() == strs(v@).to_set(),
{
    let mut out: Vec<String> = Vec::new();
    let mut chars: Vec<Vec<char>> = Vec::new();
    for i in 0..v.len()
        invariant
            out@.len() == chars@.len(),
            forall|k: int| 0 <= k < out@.len() ==> (#[trigger] chars@[k])@ == out@[k]@,
            strictly_sorted(strs(out@)),
            strs(out@).to_set() == strs(v@.take(i as int)).to_set(),
    {
        let x = crate::text::chars_of(v[i].as_str());
        let ghost so = strs(out@);
        assert(strs(v@.take(i + 1)) =~= strs(v@.take(i as int)).push(v@[i as int]@));
        proof {
            lemma_push_to_set(strs(v@.take(i as int)), v@[i as int]@);
        }
        // Find the first position whose string is not before x.
        let mut p: usize = 0;
        while p < out.len() && lex_less(&chars[p], &x)
            invariant
                p <= out@.len(),
                out@.len() == chars@.len(),
                forall|k: int| 0 <= k < out@.len() ==> (#[trigger] chars@[k])@ == out@[k]@,
                so == strs(out@),
                forall|k: int| 0 <= k < p ==> lex_lt(#[trigger] so[k], x@),
            decreases out.len() - p,
        {
            p = p + 1;
        }
        let dup = p < out.len() && crate::text::chars_equal(&chars[p], &x);
        if dup {
            proof {
                assert(so[p as int] == x@);
                assert(so.contains(x@));
                assert(so.to_set().insert(x@) =~= so.to_set());
            }
        } else {
            proof {
                if p < out@.len() {
                    lemma_lex_total(so[p as int], x@);
                    assert(lex_lt(x@, so[p as int]));
                }
            }
            let ghost old_out = out@;
            out.insert(p, v[i].clone());
            chars.insert(p, x);
            proof {
                let ns = strs(out@);
                assert(ns =~= so.insert(p as int, x@));
                assert forall|a: int, b: int| 0 <= a < b < ns.len() implies lex_lt(#[trigger] ns[a], #[trigger] ns[b]) by {
                    if a < p && b == p {
                    } else if a < p && b > p {
                        assert(ns[b] == so[b - 1]);
                        if b - 1 == p as int {
                        } else {
                            lemma_lex_transitive(so[a], so[p as int], so[b - 1]);
                        }
                    } else if a == p && b > p {
                        assert(ns[b] == so[b - 1]);
                        if b - 1 > p {
                            lemma_lex_transitive(x@, so[p as int], so[b - 1]);
                        }
                    } else if a > p {
                        assert(ns[a] == so[a - 1]);
                        assert(ns[b] == so[b - 1]);
                    }
                }
                assert(ns.to_set() =~= so.to_set().insert(x@)) by {
                    assert forall|y: Seq<char>| ns.to_set().contains(y) <==> so.to_set().insert(x@).contains(y) by {
                        if ns.contains(y) {
                            let k = choose|k: int| 0 <= k < ns.len() && ns[k] == y;
                            if k < p {
                                assert(so[k] == y);
                            } else if k > p {
                                assert(so[k - 1] == y);
                            }
                        }
                        if so.contains(y) {
                            let k = choose|k: int| 0 <= k < so.len() && so[k] == y;
                            if k < p {
                                assert(ns[k] == y);
                            } else {
                                assert(ns[k + 1] == y);
                            }
                        }
                        if y == x@ {
                            assert(ns[p as int] == y);
                        }
                    }
                }
            }
        }
    }
    assert(v@.take(v@.len() as int) =~= v@);
    out
}

} // verus!

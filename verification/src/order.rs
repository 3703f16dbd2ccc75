//! Lexicographic order on texts and a stable sort of list positions by
//! text keys (history entries newest first, lobby peers by name).
use vstd::prelude::*;

verus! {

/// `a` comes before `b` in lexicographic character order (the order of
/// `str::cmp`, since UTF-8 preserves the order of code points).
pub open spec fn lex_less(a: Seq<char>, b: Seq<char>) -> bool
    decreases a.len(),
{
    if a.len() == 0 {
        b.len() > 0
    } else if b.len() == 0 {
        false
    } else if a[0] != b[0] {
        a[0] < b[0]
    } else {
        lex_less(a.drop_first(), b.drop_first())
    }
}

/// Nothing comes before itself.
pub proof fn lemma_lex_irreflexive(a: Seq<char>)
    ensures
        !lex_less(a, a),
    decreases a.len(),
{
    if a.len() > 0 {
        lemma_lex_irreflexive(a.drop_first());
    }
}

/// The order is transitive.
pub proof fn lemma_lex_transitive(a: Seq<char>, b: Seq<char>, c: Seq<char>)
    requires
        lex_less(a, b),
        lex_less(b, c),
    ensures
        lex_less(a, c),
    decreases a.len(),
{
    if a.len() > 0 && b.len() > 0 && c.len() > 0 && a[0] == b[0] && b[0] == c[0] {
        lemma_lex_transitive(a.drop_first(), b.drop_first(), c.drop_first());
    }
}

/// Of two different texts, one comes before the other.
pub proof fn lemma_lex_total(a: Seq<char>, b: Seq<char>)
    requires
        a != b,
    ensures
        lex_less(a, b) || lex_less(b, a),
    decreases a.len(),
{
    if a.len() == 0 || b.len() == 0 {
        if a.len() == 0 && b.len() == 0 {
            assert(a =~= b);
        }
    } else if a[0] == b[0] {
        if a.drop_first() =~= b.drop_first() {
            assert(a =~= seq![a[0]] + a.drop_first());
            assert(b =~= seq![b[0]] + b.drop_first());
            assert(a =~= b);
        } else {
            lemma_lex_total(a.drop_first(), b.drop_first());
        }
    }
}

/// No two texts come before each other.
pub proof fn lemma_lex_asymmetric(a: Seq<char>, b: Seq<char>)
    ensures
        !(lex_less(a, b) && lex_less(b, a)),
{
    if lex_less(a, b) && lex_less(b, a) {
        lemma_lex_transitive(a, b, a);
        lemma_lex_irreflexive(a);
    }
}

/// `a` goes before `b`: ascending, or descending when `desc`.
pub open spec fn goes_before(a: Seq<char>, b: Seq<char>, desc: bool) -> bool {
    if desc {
        lex_less(b, a)
    } else {
        lex_less(a, b)
    }
}

/// `idx` lists positions of `keys` in order, and positions with equal keys
/// in their original order.
pub open spec fn sorted_stably(keys: Seq<Seq<char>>, idx: Seq<usize>, desc: bool) -> bool {
    forall|i: int, j: int|
        0 <= i < j < idx.len() ==> !goes_before(keys[idx[j] as int], keys[idx[i] as int], desc)
            && (keys[idx[i] as int] == keys[idx[j] as int] ==> idx[i] < idx[j])
}

/// `idx` lists every position below `n` exactly once.
pub open spec fn is_permutation(idx: Seq<usize>, n: nat) -> bool {
    &&& idx.len() == n
    &&& idx.no_duplicates()
    &&& forall|i: int| 0 <= i < idx.len() ==> idx[i] < n
}

/// Whether `a` goes before `b`.
pub fn text_goes_before(a: &Vec<char>, b: &Vec<char>, desc: bool) -> (r: bool)
    ensures
        r == goes_before(a@, b@, desc),
{
    let (x, y) = if desc {
        (b, a)
    } else {
        (a, b)
    };
    let mut i: usize = 0;
    assert(x@.skip(0) =~= x@ && y@.skip(0) =~= y@);
    while i < x.len() && i < y.len() && x[i] == y[i]
        invariant
            i <= x@.len(),
            i <= y@.len(),
            lex_less(x@, y@) == lex_less(x@.skip(i as int), y@.skip(i as int)),
        decreases x@.len() - i,
    {
        assert(y@.skip(i as int).drop_first() =~= y@.skip(i + 1));
        assert(x@.skip(i as int).drop_first() =~= x@.skip(i + 1));
        i = i + 1;
    }
    if i < x.len() && i < y.len() {
        assert(y@.skip(i as int)[0] == y@[i as int]);
        assert(x@.skip(i as int)[0] == x@[i as int]);
        x[i] < y[i]
    } else {
        i < y.len()
    }
}

/// The positions of `keys` in stable sorted order (insertion sort).
pub fn sort_positions(keys: &Vec<Vec<char>>, desc: bool) -> (r: Vec<usize>)
    ensures
        is_permutation(r@, keys@.len() as nat),
        sorted_stably(keys@.map_values(|k: Vec<char>| k@), r@, desc),
{
    let ghost kv = keys@.map_values(|k: Vec<char>| k@);
    let mut out: Vec<usize> = Vec::new();
    let mut t: usize = 0;
    while t < keys.len()
        invariant
            t <= keys@.len(),
            kv == keys@.map_values(|k: Vec<char>| k@),
            is_permutation(out@, t as nat),
            sorted_stably(kv, out@, desc),
        decreases keys@.len() - t,
    {
        let kt = &keys[t];
        let mut p: usize = 0;
        while p < out.len() && !text_goes_before(kt, &keys[out[p]], desc)
            invariant
                p <= out@.len(),
                t < keys@.len(),
                kv == keys@.map_values(|k: Vec<char>| k@),
                is_permutation(out@, t as nat),
                kt@ == kv[t as int],
                forall|q: int| 0 <= q < p ==> !goes_before(kv[t as int], kv[out@[q] as int], desc),
            decreases out@.len() - p,
        {
            p = p + 1;
        }
        let ghost before = out@;
        proof {
            if p < before.len() {
                assert(goes_before(kv[t as int], kv[before[p as int] as int], desc));
            }
        }
        out.insert(p, t);
        proof {
            assert(out@ =~= before.subrange(0, p as int).push(t) + before.subrange(p as int, before.len() as int));
            lemma_insert_sorted(kv, before, t, p as int, desc);
            lemma_insert_permutation(before, t, p as int);
        }
        t = t + 1;
    }
    out
}

proof fn lemma_goes_before_facts(a: Seq<char>, b: Seq<char>, c: Seq<char>, desc: bool)
    ensures
        goes_before(a, b, desc) && goes_before(b, c, desc) ==> goes_before(a, c, desc),
        !(goes_before(a, b, desc) && goes_before(b, a, desc)),
        !goes_before(a, a, desc),
        a != b ==> goes_before(a, b, desc) || goes_before(b, a, desc),
{
    if desc {
        if lex_less(b, a) && lex_less(c, b) {
            lemma_lex_transitive(c, b, a);
        }
    } else {
        if lex_less(a, b) && lex_less(b, c) {
            lemma_lex_transitive(a, b, c);
        }
    }
    lemma_lex_asymmetric(a, b);
    lemma_lex_irreflexive(a);
    if a != b {
        lemma_lex_total(a, b);
    }
}

proof fn lemma_insert_sorted(kv: Seq<Seq<char>>, before: Seq<usize>, t: usize, p: int, desc: bool)
    requires
        0 <= p <= before.len(),
        t < kv.len(),
        sorted_stably(kv, before, desc),
        forall|i: int| 0 <= i < before.len() ==> before[i] < t,
        forall|i: int| 0 <= i < before.len() ==> before[i] < kv.len(),
        forall|q: int| 0 <= q < p ==> !goes_before(kv[t as int], kv[before[q] as int], desc),
        p < before.len() ==> goes_before(kv[t as int], kv[before[p] as int], desc),
    ensures
        sorted_stably(
            kv,
            before.subrange(0, p).push(t) + before.subrange(p, before.len() as int),
            desc,
        ),
{
    let after = before.subrange(0, p).push(t) + before.subrange(p, before.len() as int);
    let kt = kv[t as int];
    assert forall|i: int, j: int| 0 <= i < j < after.len() implies !goes_before(
        kv[after[j] as int],
        kv[after[i] as int],
        desc,
    ) && (kv[after[i] as int] == kv[after[j] as int] ==> after[i] < after[j]) by {
        if j < p {
            assert(after[i] == before[i] && after[j] == before[j]);
            assert(!goes_before(kv[before[j] as int], kv[before[i] as int], desc));
        } else if j == p {
            assert(after[j] == t && after[i] == before[i]);
            assert(!goes_before(kt, kv[before[i] as int], desc));
        } else if i < p {
            assert(after[i] == before[i] && after[j] == before[j - 1]);
            assert(!goes_before(kv[before[j - 1] as int], kv[before[i] as int], desc));
        } else if i == p {
            assert(after[i] == t && after[j] == before[j - 1]);
            let kp = kv[before[p] as int];
            let kj = kv[before[j - 1] as int];
            assert(goes_before(kt, kp, desc));
            if j - 1 > p {
                assert(!goes_before(kj, kp, desc));
            }
            lemma_goes_before_facts(kj, kt, kp, desc);
            lemma_goes_before_facts(kt, kp, kp, desc);
            lemma_goes_before_facts(kp, kt, kt, desc);
        } else {
            assert(after[i] == before[i - 1] && after[j] == before[j - 1]);
            assert(!goes_before(kv[before[j - 1] as int], kv[before[i - 1] as int], desc));
        }
    }
}

proof fn lemma_insert_permutation(before: Seq<usize>, t: usize, p: int)
    requires
        0 <= p <= before.len(),
        is_permutation(before, t as nat),
    ensures
        is_permutation(
            before.subrange(0, p).push(t) + before.subrange(p, before.len() as int),
            (t + 1) as nat,
        ),
{
    let after = before.subrange(0, p).push(t) + before.subrange(p, before.len() as int);
    assert forall|i: int, j: int| 0 <= i < after.len() && 0 <= j < after.len() && i != j implies after[i]
        != after[j] by {
        let bi = if i < p {
            i
        } else {
            i - 1
        };
        let bj = if j < p {
            j
        } else {
            j - 1
        };
        if i != p && j != p {
            assert(after[i] == before[bi] && after[j] == before[bj]);
            assert(bi != bj);
        } else if i == p {
            assert(after[j] == before[bj]);
        } else {
            assert(after[i] == before[bi]);
        }
    }
    assert forall|i: int| 0 <= i < after.len() implies after[i] < t + 1 by {
        if i < p {
            assert(after[i] == before[i]);
        } else if i > p {
            assert(after[i] == before[i - 1]);
        }
    }
}

} // verus!

//! Long-term agent memory: a bounded store of messages with time-to-live
//! eviction and bag-of-words similarity search.
use vstd::prelude::*;
use vstd::multiset::Multiset;
use std::time::{Duration, Instant};
use crate::text::{
    unicode_is_alphanumeric, unicode_lowercase, to_chars, to_lowercase, is_alphanumeric,
    string_from_chars, push_str, utf8_len, utf8_char_len,
};
use crate::types::{Message, role_name, role_name_spec};

verus! {

broadcast use {
    vstd::seq_lib::group_seq_properties,
    vstd::multiset::group_multiset_axioms,
    vstd::multiset::group_multiset_properties,
};

/// std's monotonic instant, carried opaque.
#[verifier::external_type_specification]
#[verifier::external_body]
pub struct ExInstant(Instant);

/// `Instant` is `Copy`; its `Clone::clone` returns the same instant.
pub assume_specification[ <Instant as Clone>::clone ](t: &Instant) -> (r: Instant)
    ensures
        r == *t,
;

// ---------------------------------------------------------------------------
// Tokenization
// ---------------------------------------------------------------------------

/// The pieces of `s` separated by non-alphanumeric characters, as
/// `str::split(|c| !c.is_alphanumeric())` yields them (empty pieces included).
pub open spec fn pieces(s: Seq<char>) -> Seq<Seq<char>>
    decreases s.len(),
{
    if s.len() == 0 {
        seq![Seq::<char>::empty()]
    } else {
        let p = pieces(s.drop_last());
        let c = s.last();
        if unicode_is_alphanumeric(c) {
            p.update(p.len() - 1, p.last().push(c))
        } else {
            p.push(Seq::<char>::empty())
        }
    }
}

/// A piece is kept as a token when its UTF-8 encoding is longer than one byte.
pub open spec fn is_token(t: Seq<char>) -> bool {
    utf8_len(t) > 1
}

/// The tokens of an already lowercased text.
pub open spec fn tokens_of(lowered: Seq<char>) -> Seq<Seq<char>> {
    pieces(lowered).filter(|t: Seq<char>| is_token(t))
}

/// The tokens of a text: lowercase it, split on non-alphanumeric characters,
/// and keep the pieces longer than one byte.
pub open spec fn tokenize_spec(text: Seq<char>) -> Seq<Seq<char>> {
    tokens_of(unicode_lowercase(text))
}

/// The views of a vector of strings.
pub open spec fn views(v: Seq<String>) -> Seq<Seq<char>> {
    v.map_values(|s: String| s@)
}

proof fn lemma_pieces_len(s: Seq<char>)
    ensures
        pieces(s).len() >= 1,
    decreases s.len(),
{
    if s.len() > 0 {
        lemma_pieces_len(s.drop_last());
    }
}

proof fn lemma_utf8_len_ge(s: Seq<char>)
    ensures
        utf8_len(s) >= s.len(),
    decreases s.len(),
{
    if s.len() > 0 {
        lemma_utf8_len_ge(s.drop_last());
    }
}

proof fn lemma_is_token(t: Seq<char>)
    ensures
        is_token(t) <==> (t.len() >= 2 || (t.len() == 1 && t[0] >= '\u{80}')),
{
    lemma_utf8_len_ge(t);
    if t.len() == 1 {
        assert(t.drop_last().len() == 0);
        assert(utf8_len(t.drop_last()) == 0);
        assert(t.last() == t[0]);
    }
}

fn keeps_piece(cur: &Vec<char>) -> (b: bool)
    ensures
        b == is_token(cur@),
{
    proof {
        lemma_is_token(cur@);
    }
    cur.len() >= 2 || (cur.len() == 1 && cur[0] >= '\u{80}')
}

/// Splits an already lowercased text into tokens.
pub fn tokens_of_lowered(lowered: &str) -> (r: Vec<String>)
    ensures
        views(r@) == tokens_of(lowered@),
{
    let lc = to_chars(lowered);
    let mut out: Vec<String> = Vec::new();
    let mut cur: Vec<char> = Vec::new();
    let ghost mut done: Seq<Seq<char>> = Seq::empty();
    let mut i: usize = 0;
    assert(lc@.take(0) =~= Seq::<char>::empty());
    assert(pieces(lc@.take(0)) =~= done.push(cur@));
    while i < lc.len()
        invariant
            i <= lc.len(),
            lc@ == lowered@,
            pieces(lc@.take(i as int)) == done.push(cur@),
            views(out@) == done.filter(|t: Seq<char>| is_token(t)),
        decreases lc.len() - i,
    {
        let c = lc[i];
        let ghost prev = lc@.take(i as int);
        assert(lc@.take(i + 1).drop_last() == prev);
        assert(lc@.take(i + 1).last() == c);
        if is_alphanumeric(c) {
            cur.push(c);
            assert(pieces(lc@.take(i + 1)) =~= done.push(cur@));
        } else {
            if keeps_piece(&cur) {
                let s = string_from_chars(&cur);
                out.push(s);
            }
            proof {
                let f = |t: Seq<char>| is_token(t);
                assert(done.push(cur@).drop_last() == done);
                reveal_with_fuel(Seq::filter, 1);
                assert(views(out@) =~= done.push(cur@).filter(f));
                done = done.push(cur@);
            }
            cur = Vec::new();
            assert(pieces(lc@.take(i + 1)) =~= done.push(cur@));
        }
        i = i + 1;
    }
    if keeps_piece(&cur) {
        let s = string_from_chars(&cur);
        out.push(s);
    }
    proof {
        let f = |t: Seq<char>| is_token(t);
        assert(lc@.take(lc@.len() as int) == lc@);
        assert(done.push(cur@).drop_last() == done);
        reveal_with_fuel(Seq::filter, 1);
        assert(views(out@) =~= done.push(cur@).filter(f));
    }
    out
}

/// Simple tokenization: lowercase, then split on non-alphanumeric characters.
pub fn tokenize(text: &str) -> (r: Vec<String>)
    ensures
        views(r@) == tokenize_spec(text@),
{
    let lowered = to_lowercase(text);
    tokens_of_lowered(lowered.as_str())
}

// ---------------------------------------------------------------------------
// Jaccard similarity
// ---------------------------------------------------------------------------

/// Number of tokens the two bags have in common (multiset intersection size).
pub open spec fn shared_count(a: Seq<Seq<char>>, b: Seq<Seq<char>>) -> nat {
    a.to_multiset().intersection_with(b.to_multiset()).len()
}

/// Size of the multiset union of the two bags.
pub open spec fn union_count(a: Seq<Seq<char>>, b: Seq<Seq<char>>) -> int {
    a.len() + b.len() - shared_count(a, b)
}

/// A Jaccard similarity `shared / total`, read as 0 when `total` is 0.
#[derive(Clone, Copy, Debug)]
pub struct Similarity {
    pub shared: usize,
    pub total: usize,
}

impl Similarity {
    /// The denominator used for comparisons: `total`, or 1 for an empty union.
    pub open spec fn den(self) -> int {
        if self.total == 0 {
            1
        } else {
            self.total as int
        }
    }

    /// The similarity is strictly above `other`.
    pub open spec fn gt(self, other: Similarity) -> bool {
        self.shared * other.den() > other.shared * self.den()
    }

    /// The similarity equals `other` as a rational number.
    pub open spec fn same(self, other: Similarity) -> bool {
        self.shared * other.den() == other.shared * self.den()
    }

    /// The similarity is positive.
    pub open spec fn positive(self) -> bool {
        self.shared > 0 && self.total > 0
    }

    /// Whether `self` is strictly greater than `other`.
    pub fn greater_than(&self, other: &Similarity) -> (b: bool)
        ensures
            b == self.gt(*other),
    {
        let d1: u128 = if self.total == 0 { 1 } else { self.total as u128 };
        let d2: u128 = if other.total == 0 { 1 } else { other.total as u128 };
        let s1 = self.shared as u128;
        let s2 = other.shared as u128;
        assert(s1 * d2 <= u64::MAX * u64::MAX) by (nonlinear_arith)
            requires s1 <= u64::MAX, d2 <= u64::MAX;
        assert(s2 * d1 <= u64::MAX * u64::MAX) by (nonlinear_arith)
            requires s2 <= u64::MAX, d1 <= u64::MAX;
        s1 * d2 > s2 * d1
    }
}

proof fn lemma_intersection_insert(a: Multiset<Seq<char>>, b: Multiset<Seq<char>>, t: Seq<char>)
    ensures
        a.count(t) < b.count(t) ==> a.insert(t).intersection_with(b) =~= a.intersection_with(
            b,
        ).insert(t),
        a.count(t) >= b.count(t) ==> a.insert(t).intersection_with(b) =~= a.intersection_with(b),
{
    assert forall|x: Seq<char>|
        #[trigger] a.insert(t).intersection_with(b).count(x) == (if x == t && a.count(t) < b.count(
            t,
        ) {
            a.intersection_with(b).count(x) + 1int
        } else {
            a.intersection_with(b).count(x) as int
        }) by {}
}

/// Jaccard similarity between two token bags.
pub fn jaccard_similarity(a: &Vec<String>, b: &Vec<String>) -> (r: Similarity)
    requires
        a.len() + b.len() <= usize::MAX,
    ensures
        r.shared == shared_count(views(a@), views(b@)),
        r.total == union_count(views(a@), views(b@)),
{
    let ghost va = views(a@);
    let ghost vb = views(b@);
    let ghost mb = vb.to_multiset();
    let mut rest: Vec<String> = b.clone();
    let mut shared: usize = 0;
    let mut i: usize = 0;
    assert(va.take(0) =~= Seq::<Seq<char>>::empty());
    assert(va.take(0).to_multiset().intersection_with(mb) =~= Multiset::empty());
    assert(views(rest@) == vb) by {
        assert(views(rest@) =~= vb);
    }
    while i < a.len()
        invariant
            i <= a.len(),
            va == views(a@),
            vb == views(b@),
            mb == vb.to_multiset(),
            views(rest@).to_multiset() == mb.sub(va.take(i as int).to_multiset().intersection_with(mb)),
            shared == va.take(i as int).to_multiset().intersection_with(mb).len(),
            shared <= i,
        decreases a.len() - i,
    {
        let ghost ma = va.take(i as int).to_multiset();
        let ghost t = va[i as int];
        assert(va.take(i + 1) == va.take(i as int).push(t));
        assert(va.take(i + 1).to_multiset() =~= ma.insert(t));
        proof {
            lemma_intersection_insert(ma, mb, t);
        }
        let mut j: usize = 0;
        let mut found = false;
        while !found && j < rest.len()
            invariant
                j <= rest.len(),
                i < a.len(),
                va == views(a@),
                found ==> j < rest.len() && rest@[j as int]@ == a@[i as int]@,
                !found ==> forall|k: int| 0 <= k < j ==> rest@[k]@ != a@[i as int]@,
            decreases rest.len() - j + (if found { 0int } else { 1int }),
        {
            if rest[j] == a[i] {
                found = true;
            } else {
                j = j + 1;
            }
        }
        if found {
            let ghost vr = views(rest@);
            assert(vr[j as int] == t);
            let _removed = rest.remove(j);
            assert(views(rest@) =~= vr.remove(j as int));
            assert(vr.to_multiset().count(t) > 0);
            assert(ma.count(t) < mb.count(t));
            assert(views(rest@).to_multiset() =~= mb.sub(ma.insert(t).intersection_with(mb)));
            shared = shared + 1;
        } else {
            let ghost vr = views(rest@);
            assert(!vr.contains(t)) by {
                if vr.contains(t) {
                    let k = choose|k: int| 0 <= k < vr.len() && vr[k] == t;
                    assert(rest@[k]@ == a@[i as int]@);
                }
            }
            assert(vr.to_multiset().count(t) == 0);
            assert(ma.count(t) >= mb.count(t));
            assert(views(rest@).to_multiset() =~= mb.sub(ma.insert(t).intersection_with(mb)));
        }
        i = i + 1;
    }
    assert(va.take(a.len() as int) == va);
    proof {
        assert(va.to_multiset().intersection_with(mb).len() <= va.len()) by {
            assert(va.to_multiset().intersection_with(mb).subset_of(va.to_multiset()));
            lemma_subset_len(va.to_multiset().intersection_with(mb), va.to_multiset());
        }
    }
    let total = (a.len() - shared) + b.len();
    Similarity { shared, total }
}

proof fn lemma_subset_len(x: Multiset<Seq<char>>, y: Multiset<Seq<char>>)
    requires
        x.subset_of(y),
    ensures
        x.len() <= y.len(),
{
    assert(y.sub(x).add(x) =~= y);
}


/// Jaccard similarity is symmetric, never above 1, and 1 for a non-empty
/// bag compared with itself.
pub proof fn lemma_jaccard_laws(a: Seq<Seq<char>>, b: Seq<Seq<char>>)
    ensures
        shared_count(a, b) == shared_count(b, a),
        union_count(a, b) == union_count(b, a),
        shared_count(a, b) <= union_count(a, b),
        shared_count(a, a) == a.len(),
        union_count(a, a) == a.len(),
{
    let ma = a.to_multiset();
    let mb = b.to_multiset();
    assert(ma.intersection_with(mb) =~= mb.intersection_with(ma));
    assert(ma.intersection_with(mb).subset_of(ma));
    assert(ma.intersection_with(mb).subset_of(mb));
    lemma_subset_len(ma.intersection_with(mb), ma);
    lemma_subset_len(ma.intersection_with(mb), mb);
    assert(ma.intersection_with(ma) =~= ma);
    assert(a.to_multiset().len() == a.len()) by {
        a.to_multiset_ensures();
    }
    assert(b.to_multiset().len() == b.len()) by {
        b.to_multiset_ensures();
    }
}

// ---------------------------------------------------------------------------
// Ranking by similarity
// ---------------------------------------------------------------------------

/// The similarity of a query to a token bag, as `(shared, total)`.
pub open spec fn score_of(q: Seq<Seq<char>>, t: Seq<Seq<char>>) -> (int, int) {
    (shared_count(q, t) as int, union_count(q, t))
}

/// The denominator of a score: its total, or 1 for an empty union.
pub open spec fn den(x: (int, int)) -> int {
    if x.1 == 0 {
        1
    } else {
        x.1
    }
}

/// Score `x` is strictly above score `y`.
pub open spec fn frac_gt(x: (int, int), y: (int, int)) -> bool {
    x.0 * den(y) > y.0 * den(x)
}

/// Scores `x` and `y` are equal as rationals.
pub open spec fn frac_eq(x: (int, int), y: (int, int)) -> bool {
    x.0 * den(y) == y.0 * den(x)
}

/// Entry `i` comes before entry `j` in a stable sort by descending score.
pub open spec fn ranks_before(s: Seq<(int, int)>, i: int, j: int) -> bool {
    frac_gt(s[i], s[j]) || (frac_eq(s[i], s[j]) && i < j)
}

/// `perm` lists the indices of `s` in stable descending order of score.
pub open spec fn is_ranking(s: Seq<(int, int)>, perm: Seq<int>) -> bool {
    &&& perm.len() == s.len()
    &&& forall|p: int| 0 <= p < perm.len() ==> 0 <= #[trigger] perm[p] < s.len()
    &&& forall|p: int, q: int| 0 <= p < q < perm.len() ==> ranks_before(s, perm[p], perm[q])
}

/// The scores of the stored entries against a query.
pub open spec fn scores(entries: Seq<MemoryEntry>, q: Seq<Seq<char>>) -> Seq<(int, int)> {
    entries.map_values(|e: MemoryEntry| score_of(q, views(e.tokens@)))
}

/// `out` is what recall gives for query tokens `q` and `top_k` under the
/// ranking `perm`: the contents of the first `top_k` ranked entries whose
/// similarity is positive.
pub open spec fn recalled_by(
    entries: Seq<MemoryEntry>,
    q: Seq<Seq<char>>,
    top_k: int,
    perm: Seq<int>,
    out: Seq<Seq<char>>,
) -> bool {
    &&& is_ranking(scores(entries, q), perm)
    &&& out == pick(
        entries,
        scores(entries, q),
        perm.take(if top_k < perm.len() { top_k } else { perm.len() as int }),
    )
}

/// Every entry's token count fits in `usize` together with the query's.
pub open spec fn sums_fit(entries: Seq<MemoryEntry>, q: Seq<Seq<char>>) -> bool {
    forall|i: int| 0 <= i < entries.len() ==> q.len() + (#[trigger] entries[i]).tokens@.len() <= usize::MAX
}

proof fn lemma_frac_trans(x: (int, int), y: (int, int), z: (int, int))
    requires
        x.0 >= 0,
        y.0 >= 0,
        z.0 >= 0,
        x.1 >= 0,
        y.1 >= 0,
        z.1 >= 0,
        frac_gt(x, y),
        !frac_gt(z, y),
    ensures
        frac_gt(x, z),
{
    let dx = den(x);
    let dy = den(y);
    let dz = den(z);
    assert(x.0 * dz > z.0 * dx) by (nonlinear_arith)
        requires
            dx > 0,
            dy > 0,
            dz > 0,
            x.0 * dy > y.0 * dx,
            z.0 * dy <= y.0 * dz,
    {
        assert(x.0 * dy * dz > y.0 * dx * dz);
        assert(z.0 * dy * dx <= y.0 * dz * dx);
        assert(x.0 * dz * dy > z.0 * dx * dy);
    }
}

proof fn lemma_frac_total(x: (int, int), y: (int, int))
    ensures
        frac_gt(x, y) || frac_gt(y, x) || frac_eq(x, y),
        frac_eq(x, y) ==> !frac_gt(x, y) && !frac_gt(y, x),
{
}

/// The scores of a vector of similarities.
pub open spec fn sim_scores(sims: Seq<Similarity>) -> Seq<(int, int)> {
    sims.map_values(|x: Similarity| (x.shared as int, x.total as int))
}

/// The indices of `sims` in stable descending order of similarity (insertion sort).
#[verifier::rlimit(40)]
fn rank_indices(sims: &Vec<Similarity>) -> (perm: Vec<usize>)
    ensures
        is_ranking(sim_scores(sims@), perm@.map_values(|x: usize| x as int)),
{
    let ghost s = sim_scores(sims@);
    let n = sims.len();
    let mut perm: Vec<usize> = Vec::new();
    let mut i: usize = 0;
    while i < n
        invariant
            i <= n,
            n == s.len(),
            s == sim_scores(sims@),
            sims.len() == n,
            perm.len() == i,
            forall|p: int| 0 <= p < i ==> (#[trigger] perm@[p]) < i,
            forall|p: int, r: int| 0 <= p < r < i ==> ranks_before(s, perm@[p] as int, perm@[r] as int),
        decreases n - i,
    {
        let mut pos: usize = 0;
        while pos < perm.len() && !sims[i].greater_than(&sims[perm[pos]])
            invariant
                pos <= perm.len(),
                i < n,
                perm.len() == i,
                sims.len() == n,
                n == s.len(),
                s == sim_scores(sims@),
                forall|p: int| 0 <= p < i ==> (#[trigger] perm@[p]) < i,
                forall|p: int| 0 <= p < pos ==> !frac_gt(s[i as int], s[#[trigger] perm@[p] as int]),
            decreases perm.len() - pos,
        {
            pos = pos + 1;
        }
        let ghost old_perm = perm@;
        proof {
            assert forall|r: int| pos <= r < i implies frac_gt(s[i as int], s[#[trigger] old_perm[r] as int]) by {
                let a = s[i as int];
                let b = s[old_perm[pos as int] as int];
                let c = s[old_perm[r] as int];
                assert(a.0 >= 0 && a.1 >= 0 && b.0 >= 0 && b.1 >= 0 && c.0 >= 0 && c.1 >= 0);
                if r > pos {
                    assert(ranks_before(s, old_perm[pos as int] as int, old_perm[r] as int));
                    lemma_frac_total(b, c);
                    lemma_frac_trans(a, b, c);
                }
            }
            assert forall|p: int| 0 <= p < pos implies ranks_before(s, #[trigger] old_perm[p] as int, i as int) by {
                lemma_frac_total(s[i as int], s[old_perm[p] as int]);
            }
        }
        perm.insert(pos, i);
        proof {
            assert forall|p: int, r: int| 0 <= p < r < i + 1 implies ranks_before(s, perm@[p] as int, perm@[r] as int) by {
                if r < pos {
                } else if r == pos {
                } else if p < pos {
                    assert(perm@[r] == old_perm[r - 1]);
                } else if p == pos {
                    assert(perm@[r] == old_perm[r - 1]);
                    lemma_frac_total(s[i as int], s[old_perm[r - 1] as int]);
                } else {
                    assert(perm@[r] == old_perm[r - 1]);
                    assert(perm@[p] == old_perm[p - 1]);
                }
            }
        }
        i = i + 1;
    }
    perm
}

/// The contents of the entries listed in `idx` whose score is positive.
pub open spec fn pick(entries: Seq<MemoryEntry>, s: Seq<(int, int)>, idx: Seq<int>) -> Seq<Seq<char>> {
    idx.filter(|i: int| s[i].0 > 0).map_values(|i: int| entries[i].content@)
}

proof fn lemma_pick_push(entries: Seq<MemoryEntry>, s: Seq<(int, int)>, idx: Seq<int>, i: int)
    ensures
        pick(entries, s, idx.push(i)) == if s[i].0 > 0 {
            pick(entries, s, idx).push(entries[i].content@)
        } else {
            pick(entries, s, idx)
        },
{
    let f = |i: int| s[i].0 > 0;
    reveal_with_fuel(Seq::filter, 1);
    assert(idx.push(i).drop_last() == idx);
    if f(i) {
        assert(idx.push(i).filter(f) == idx.filter(f).push(i));
        assert(pick(entries, s, idx.push(i)) =~= pick(entries, s, idx).push(entries[i].content@));
    } else {
        assert(idx.push(i).filter(f) == idx.filter(f));
    }
}

/// Collects the contents of the first `limit` ranked entries with a positive score.
fn collect_recalled(
    entries: &Vec<MemoryEntry>,
    sims: &Vec<Similarity>,
    perm: &Vec<usize>,
    limit: usize,
) -> (out: Vec<String>)
    requires
        limit <= perm.len(),
        sims.len() == entries.len(),
        forall|p: int| 0 <= p < perm.len() ==> (#[trigger] perm@[p]) < entries.len(),
    ensures
        views(out@) == pick(
            entries@,
            sim_scores(sims@),
            perm@.map_values(|x: usize| x as int).take(limit as int),
        ),
        out.len() <= limit,
{
    let ghost s = sim_scores(sims@);
    let ghost pi = perm@.map_values(|x: usize| x as int);
    let mut out: Vec<String> = Vec::new();
    let mut p: usize = 0;
    proof {
        reveal_with_fuel(Seq::filter, 1);
        assert(pi.take(0) =~= Seq::<int>::empty());
        assert(views(out@) =~= pick(entries@, s, pi.take(0)));
    }
    while p < limit
        invariant
            p <= limit <= perm.len(),
            sims.len() == entries.len(),
            s == sim_scores(sims@),
            pi == perm@.map_values(|x: usize| x as int),
            forall|p: int| 0 <= p < perm.len() ==> (#[trigger] perm@[p]) < entries.len(),
            views(out@) == pick(entries@, s, pi.take(p as int)),
            out.len() <= p,
        decreases limit - p,
    {
        let idx = perm[p];
        let ghost ob = out@;
        proof {
            assert(pi.take(p + 1) == pi.take(p as int).push(idx as int));
            lemma_pick_push(entries@, s, pi.take(p as int), idx as int);
        }
        if sims[idx].shared > 0 {
            out.push(entries[idx].content.clone());
            assert(views(out@) =~= views(ob).push(entries@[idx as int].content@));
        }
        p = p + 1;
    }
    out
}

/// A single memory entry.
#[derive(Debug, Clone)]
pub struct MemoryEntry {
    pub content: String,
    pub role: String,
    pub timestamp: Instant,
    /// When it was stored: nanoseconds since the store was created, the
    /// plain value its age is measured from.
    pub stored_at: u128,
    /// Simple bag-of-words embedding for similarity search.
    pub tokens: Vec<String>,
}

/// Calls `Instant::now`. The clock gives no promise about the value.
#[verifier::external_body]
fn instant_now() -> Instant {
    Instant::now()
}

/// Calls `Instant::elapsed`. The clock gives no promise about the value.
#[verifier::external_body]
fn elapsed_since(t: &Instant) -> Duration {
    t.elapsed()
}

/// Calls `Duration::as_nanos`. `Duration` is opaque here, so the value is
/// not stated.
#[verifier::external_body]
fn duration_nanos(d: &Duration) -> u128 {
    d.as_nanos()
}

/// The entries of `s` whose flag in `keep` is set, in order.
pub open spec fn retained<T>(s: Seq<T>, keep: Seq<bool>) -> Seq<T>
    decreases s.len(),
{
    if s.len() == 0 {
        Seq::empty()
    } else {
        let r = retained(s.drop_last(), keep.drop_last());
        if keep.last() {
            r.push(s.last())
        } else {
            r
        }
    }
}

/// The newest `max` entries of `s` (all of them when there are at most `max`).
pub open spec fn newest<T>(s: Seq<T>, max: nat) -> Seq<T> {
    if s.len() > max {
        s.skip(s.len() - max)
    } else {
        s
    }
}

/// Which entries are still fresh at clock reading `now`: those whose age,
/// `now` less the time they were stored, is below the time-to-live.
pub open spec fn fresh_at(s: Seq<MemoryEntry>, now: nat, ttl: nat) -> Seq<bool> {
    Seq::new(s.len(), |i: int| now - s[i].stored_at < ttl)
}

/// The entries were stored in order: oldest first.
pub open spec fn stored_in_order(s: Seq<MemoryEntry>) -> bool {
    forall|i: int, j: int| 0 <= i <= j < s.len() ==> s[i].stored_at <= s[j].stored_at
}

/// Every entry was stored no later than clock reading `now`.
pub open spec fn stored_by(s: Seq<MemoryEntry>, now: nat) -> bool {
    forall|i: int| 0 <= i < s.len() ==> s[i].stored_at <= now
}

/// A clock reading taken as no earlier than the last one.
pub open spec fn at_or_after(reading: u128, last: nat) -> nat {
    if reading < last {
        last
    } else {
        reading as nat
    }
}

/// `after` is what remembering `content` under `role` makes of `before`,
/// with the clock reading `now`: the new entry `e` (with the content's
/// tokens, stored no earlier than any entry before it and no later than
/// `now`) is appended, the entries whose age at `now` has reached the
/// time-to-live are dropped, and the newest `max` of the rest are kept.
pub open spec fn remembered(
    before: Seq<MemoryEntry>,
    after: Seq<MemoryEntry>,
    max: nat,
    ttl: nat,
    content: Seq<char>,
    role: Seq<char>,
    e: MemoryEntry,
    now: nat,
) -> bool {
    &&& e.content@ == content
    &&& e.role@ == role
    &&& views(e.tokens@) == tokenize_spec(content)
    &&& (forall|i: int| 0 <= i < before.len() ==> before[i].stored_at <= e.stored_at)
    &&& e.stored_at <= now
    &&& after == newest(retained(before.push(e), fresh_at(before.push(e), now, ttl)), max)
}

/// `after` is what `before` becomes when the messages are remembered one by
/// one, in order, each with its role's `{:?}` name: a chain of `remembered`
/// steps, one per message, each with its own entry and clock reading.
pub open spec fn imported(
    before: Seq<MemoryEntry>,
    after: Seq<MemoryEntry>,
    max: nat,
    ttl: nat,
    messages: Seq<Message>,
) -> bool
    decreases messages.len(),
{
    if messages.len() == 0 {
        after == before
    } else {
        exists|mid: Seq<MemoryEntry>, e: MemoryEntry, now: nat|
            imported(before, mid, max, ttl, messages.drop_last()) && #[trigger] remembered(
                mid,
                after,
                max,
                ttl,
                messages.last().content@,
                role_name_spec(messages.last().role),
                e,
                now,
            )
    }
}

/// Expiry drops the oldest entries: when the entries were stored in order,
/// none later than `now`, the ones still fresh at `now` are all those after
/// some point, and the expired ones all those before it. With none expired,
/// all are kept.
pub proof fn lemma_expiry_drops_oldest(s: Seq<MemoryEntry>, now: nat, ttl: nat)
    requires
        stored_in_order(s),
        stored_by(s, now),
    ensures
        exists|k: int|
            0 <= k <= s.len() && retained(s, fresh_at(s, now, ttl)) == s.skip(k) && (forall|i: int|
                0 <= i < k ==> now - (#[trigger] s[i]).stored_at >= ttl) && (forall|i: int|
                k <= i < s.len() ==> now - (#[trigger] s[i]).stored_at < ttl),
        (forall|i: int| 0 <= i < s.len() ==> now - (#[trigger] s[i]).stored_at < ttl) ==> retained(
            s,
            fresh_at(s, now, ttl),
        ) == s,
    decreases s.len(),
{
    let f = fresh_at(s, now, ttl);
    if s.len() == 0 {
        assert(retained(s, f) =~= s.skip(0));
    } else {
        let p = s.drop_last();
        assert(stored_in_order(p));
        assert(stored_by(p, now));
        lemma_expiry_drops_oldest(p, now, ttl);
        assert(f.drop_last() =~= fresh_at(p, now, ttl));
        let k = choose|k: int|
            0 <= k <= p.len() && retained(p, fresh_at(p, now, ttl)) == p.skip(k) && (forall|i: int|
                0 <= i < k ==> now - (#[trigger] p[i]).stored_at >= ttl) && (forall|i: int|
                k <= i < p.len() ==> now - (#[trigger] p[i]).stored_at < ttl);
        let last = s.len() - 1;
        if f.last() {
            assert(retained(s, f) =~= s.skip(k));
            assert forall|i: int| k <= i < s.len() implies now - (#[trigger] s[i]).stored_at < ttl by {
                if i < last {
                    assert(p[i] == s[i]);
                }
            }
            assert forall|i: int| 0 <= i < k implies now - (#[trigger] s[i]).stored_at >= ttl by {
                assert(p[i] == s[i]);
            }
            assert(exists|k2: int|
                0 <= k2 <= s.len() && retained(s, f) == s.skip(k2) && (forall|i: int|
                    0 <= i < k2 ==> now - (#[trigger] s[i]).stored_at >= ttl) && (forall|i: int|
                    k2 <= i < s.len() ==> now - (#[trigger] s[i]).stored_at < ttl));
        } else {
            assert forall|i: int| 0 <= i < s.len() implies now - (#[trigger] s[i]).stored_at >= ttl by {
                assert(s[i].stored_at <= s[last].stored_at);
            }
            if k < p.len() {
                assert(p[k] == s[k]);
                assert(now - s[k].stored_at >= ttl);
            }
            assert(retained(s, f) =~= s.skip(s.len() as int));
            assert(exists|k2: int|
                0 <= k2 <= s.len() && retained(s, f) == s.skip(k2) && (forall|i: int|
                    0 <= i < k2 ==> now - (#[trigger] s[i]).stored_at >= ttl) && (forall|i: int|
                    k2 <= i < s.len() ==> now - (#[trigger] s[i]).stored_at < ttl));
        }
        if forall|i: int| 0 <= i < s.len() ==> now - (#[trigger] s[i]).stored_at < ttl {
            let k2 = choose|k2: int|
                0 <= k2 <= s.len() && retained(s, f) == s.skip(k2) && (forall|i: int|
                    0 <= i < k2 ==> now - (#[trigger] s[i]).stored_at >= ttl) && (forall|i: int|
                    k2 <= i < s.len() ==> now - (#[trigger] s[i]).stored_at < ttl);
            if k2 > 0 {
                assert(now - s[0].stored_at >= ttl);
            }
            assert(s.skip(0) =~= s);
        }
    }
}

/// Importing a one-message conversation is remembering that message once,
/// with its role's `{:?}` name.
pub proof fn lemma_import_one(before: Seq<MemoryEntry>, after: Seq<MemoryEntry>, max: nat, ttl: nat, m: Message)
    ensures
        imported(before, after, max, ttl, seq![m]) <==> exists|e: MemoryEntry, now: nat|
            #[trigger] remembered(before, after, max, ttl, m.content@, role_name_spec(m.role), e, now),
{
    let ms = seq![m];
    assert(ms.drop_last() =~= Seq::<Message>::empty());
    assert(ms.last() == m);
    if imported(before, after, max, ttl, ms) {
        let (mid, e, now) = choose|mid: Seq<MemoryEntry>, e: MemoryEntry, now: nat|
            imported(before, mid, max, ttl, ms.drop_last()) && #[trigger] remembered(
                mid,
                after,
                max,
                ttl,
                ms.last().content@,
                role_name_spec(ms.last().role),
                e,
                now,
            );
        assert(mid == before);
        assert(remembered(before, after, max, ttl, m.content@, role_name_spec(m.role), e, now));
    }
    if exists|e: MemoryEntry, now: nat|
        #[trigger] remembered(before, after, max, ttl, m.content@, role_name_spec(m.role), e, now) {
        let (e, now) = choose|e: MemoryEntry, now: nat|
            #[trigger] remembered(before, after, max, ttl, m.content@, role_name_spec(m.role), e, now);
        assert(imported(before, before, max, ttl, ms.drop_last()));
        assert(remembered(before, after, max, ttl, ms.last().content@, role_name_spec(ms.last().role), e, now));
    }
}

/// Importing one conversation and then another is importing the two
/// joined, in order: an import is one `remember` per message, in turn.
pub proof fn lemma_import_concat(
    a: Seq<MemoryEntry>,
    b: Seq<MemoryEntry>,
    c: Seq<MemoryEntry>,
    max: nat,
    ttl: nat,
    first: Seq<Message>,
    second: Seq<Message>,
)
    requires
        imported(a, b, max, ttl, first),
        imported(b, c, max, ttl, second),
    ensures
        imported(a, c, max, ttl, first + second),
    decreases second.len(),
{
    if second.len() == 0 {
        assert(first + second =~= first);
    } else {
        let (mid, e, now) = choose|mid: Seq<MemoryEntry>, e: MemoryEntry, now: nat|
            imported(b, mid, max, ttl, second.drop_last()) && #[trigger] remembered(
                mid,
                c,
                max,
                ttl,
                second.last().content@,
                role_name_spec(second.last().role),
                e,
                now,
            );
        lemma_import_concat(a, b, mid, max, ttl, first, second.drop_last());
        let all = first + second;
        assert(all.drop_last() =~= first + second.drop_last());
        assert(all.last() == second.last());
        assert(imported(a, mid, max, ttl, all.drop_last()));
        assert(remembered(mid, c, max, ttl, all.last().content@, role_name_spec(all.last().role), e, now));
    }
}

/// The line that `context` prints for an entry: `[role]: content`.
pub open spec fn context_line(e: MemoryEntry) -> Seq<char> {
    "["@ + e.role@ + "]: "@ + e.content@
}

/// `lines` joined with `sep` between consecutive lines.
pub open spec fn join(lines: Seq<Seq<char>>, sep: Seq<char>) -> Seq<char>
    decreases lines.len(),
{
    if lines.len() == 0 {
        Seq::empty()
    } else if lines.len() == 1 {
        lines[0]
    } else {
        join(lines.drop_last(), sep) + sep + lines.last()
    }
}

proof fn lemma_retained_len<T>(s: Seq<T>, keep: Seq<bool>)
    ensures
        retained(s, keep).len() <= s.len(),
        forall|x: T| retained(s, keep).contains(x) ==> s.contains(x),
    decreases s.len(),
{
    if s.len() > 0 {
        lemma_retained_len(s.drop_last(), keep.drop_last());
        let r = retained(s.drop_last(), keep.drop_last());
        assert forall|x: T| retained(s, keep).contains(x) implies s.contains(x) by {
            if r.contains(x) {
                let k = choose|k: int| 0 <= k < r.len() && r[k] == x;
                assert(s.drop_last().contains(x));
                let m = choose|m: int| 0 <= m < s.drop_last().len() && s.drop_last()[m] == x;
                assert(s[m] == x);
            } else {
                assert(s[s.len() - 1] == x);
            }
        }
    }
}

/// Long-term memory store with time-to-live and similarity search.
pub struct AgentMemory {
    entries: Vec<MemoryEntry>,
    ttl_nanos: u128,
    max_entries: usize,
    /// When the store was created; entries' times are measured from it.
    epoch: Instant,
    /// The last clock reading, in nanoseconds since `epoch`.
    clock: u128,
}

/// Keeps the entries of `all` flagged in `fresh`, then the newest `max` of them.
fn evict_entries(all: Vec<MemoryEntry>, fresh: &Vec<bool>, max: usize) -> (r: Vec<MemoryEntry>)
    requires
        fresh.len() == all.len(),
    ensures
        r@ == newest(retained(all@, fresh@), max as nat),
        r.len() <= max,
{
    let ghost orig = all@;
    let n = all.len();
    let mut all = all;
    let mut kept: Vec<MemoryEntry> = Vec::new();
    let mut i: usize = 0;
    assert(orig.take(0) =~= Seq::<MemoryEntry>::empty());
    while i < n
        invariant
            i <= n,
            n == orig.len(),
            fresh.len() == n,
            all@ == orig.skip(i as int),
            kept@ == retained(orig.take(i as int), fresh@.take(i as int)),
        decreases n - i,
    {
        assert(orig.take(i + 1).drop_last() == orig.take(i as int));
        assert(orig.take(i + 1).last() == orig[i as int]);
        assert(fresh@.take(i + 1).drop_last() == fresh@.take(i as int));
        assert(fresh@.take(i + 1).last() == fresh@[i as int]);
        let e = all.remove(0);
        assert(all@ =~= orig.skip(i + 1));
        if fresh[i] {
            kept.push(e);
        }
        i = i + 1;
    }
    assert(orig.take(n as int) == orig);
    assert(fresh@.take(n as int) == fresh@);
    let ghost k0 = kept@;
    let skip: usize = if kept.len() > max {
        kept.len() - max
    } else {
        0
    };
    let mut j: usize = 0;
    while j < skip
        invariant
            j <= skip <= k0.len(),
            kept@ == k0.skip(j as int),
        decreases skip - j,
    {
        let _dropped = kept.remove(0);
        assert(kept@ =~= k0.skip(j + 1));
        j = j + 1;
    }
    assert(kept@ =~= newest(k0, max as nat));
    kept
}

/// Which entries are still fresh at clock reading `now`.
fn fresh_flags(all: &Vec<MemoryEntry>, now: u128, ttl: u128) -> (r: Vec<bool>)
    requires
        stored_by(all@, now as nat),
    ensures
        r@ == fresh_at(all@, now as nat, ttl as nat),
{
    let mut fresh: Vec<bool> = Vec::new();
    let mut i: usize = 0;
    while i < all.len()
        invariant
            i <= all.len(),
            stored_by(all@, now as nat),
            fresh@ == fresh_at(all@, now as nat, ttl as nat).take(i as int),
        decreases all.len() - i,
    {
        let age = now - all[i].stored_at;
        fresh.push(age < ttl);
        i = i + 1;
        assert(fresh@ =~= fresh_at(all@, now as nat, ttl as nat).take(i as int));
    }
    assert(fresh@ =~= fresh_at(all@, now as nat, ttl as nat));
    fresh
}

/// What survives expiry and the capacity is still stored in order, none
/// after `now`.
proof fn lemma_kept_in_order(s: Seq<MemoryEntry>, keep: Seq<bool>, now: nat, max: nat)
    requires
        stored_in_order(s),
        stored_by(s, now),
    ensures
        stored_in_order(newest(retained(s, keep), max)),
        stored_by(newest(retained(s, keep), max), now),
{
    lemma_retained_in_order(s, keep, now);
    let r = retained(s, keep);
    let n = newest(r, max);
    let d: int = if r.len() > max { r.len() - max } else { 0 };
    assert forall|i: int, j: int| 0 <= i <= j < n.len() implies n[i].stored_at <= n[j].stored_at by {
        assert(n[i] == r[d + i]);
        assert(n[j] == r[d + j]);
    }
    assert forall|i: int| 0 <= i < n.len() implies n[i].stored_at <= now by {
        assert(n[i] == r[d + i]);
    }
}

/// Keeping some entries of an ordered sequence keeps them in order, none
/// after `now`.
proof fn lemma_retained_in_order(s: Seq<MemoryEntry>, keep: Seq<bool>, now: nat)
    requires
        stored_in_order(s),
        stored_by(s, now),
    ensures
        stored_in_order(retained(s, keep)),
        stored_by(retained(s, keep), now),
        forall|i: int| 0 <= i < retained(s, keep).len() ==> s.len() > 0 && (#[trigger] retained(s, keep)[i]).stored_at <= s.last().stored_at,
    decreases s.len(),
{
    if s.len() > 0 {
        let p = s.drop_last();
        assert(stored_in_order(p));
        assert(stored_by(p, now));
        lemma_retained_in_order(p, keep.drop_last(), now);
        let r = retained(p, keep.drop_last());
        assert forall|i: int| 0 <= i < r.len() implies (#[trigger] r[i]).stored_at <= s.last().stored_at by {
            assert(p.last().stored_at <= s.last().stored_at);
        }
    }
}

impl AgentMemory {
    /// The store never holds more entries than its capacity; they were
    /// stored in order, none after the last clock reading.
    #[verifier::type_invariant]
    spec fn well_formed(self) -> bool {
        &&& self.entries.len() <= self.max_entries
        &&& stored_in_order(self.entries@)
        &&& stored_by(self.entries@, self.clock as nat)
    }

    /// The stored entries, oldest first.
    pub closed spec fn entries(&self) -> Seq<MemoryEntry> {
        self.entries@
    }

    /// The capacity of the store.
    pub closed spec fn max_entries(&self) -> nat {
        self.max_entries as nat
    }

    /// The time-to-live, in nanoseconds.
    pub closed spec fn ttl(&self) -> nat {
        self.ttl_nanos as nat
    }

    /// The last clock reading, in nanoseconds since the store was created.
    pub closed spec fn clock(&self) -> nat {
        self.clock as nat
    }

    /// An empty store with the given time-to-live and capacity.
    pub fn new(ttl: Duration, max_entries: usize) -> (m: Self)
        ensures
            m.entries() == Seq::<MemoryEntry>::empty(),
            m.max_entries() == max_entries,
            m.clock() == 0,
    {
        AgentMemory {
            entries: Vec::new(),
            ttl_nanos: duration_nanos(&ttl),
            max_entries,
            epoch: instant_now(),
            clock: 0,
        }
    }

    /// The time-to-live, in nanoseconds.
    pub fn ttl_nanos(&self) -> (t: u128)
        ensures
            t == self.ttl(),
    {
        self.ttl_nanos
    }

    /// The last clock reading, in nanoseconds since the store was created.
    pub fn clock_nanos(&self) -> (t: u128)
        ensures
            t == self.clock(),
    {
        self.clock
    }

    /// Stores a message with the given clock readings (nanoseconds since the
    /// store was created): `at` when the entry is made, `now` when expiry is
    /// checked. The clock never runs backwards, so a reading below the last
    /// one counts as the last one. The entry is appended, every entry whose
    /// age at `now` has reached the time-to-live is dropped, and the oldest
    /// entries beyond the capacity go.
    pub fn remember_at(&mut self, content: &str, role: &str, timestamp: Instant, at: u128, now: u128)
        ensures
            final(self).max_entries() == old(self).max_entries(),
            final(self).ttl() == old(self).ttl(),
            final(self).clock() == (if now < at_or_after(at, old(self).clock()) {
                at_or_after(at, old(self).clock())
            } else {
                now as nat
            }),
            exists|e: MemoryEntry|
                e.stored_at == at_or_after(at, old(self).clock()) && e.timestamp == timestamp && #[trigger] remembered(
                    old(self).entries(),
                    final(self).entries(),
                    old(self).max_entries(),
                    old(self).ttl(),
                    content@,
                    role@,
                    e,
                    final(self).clock(),
                ),
            final(self).entries().len() <= final(self).max_entries(),
            stored_in_order(final(self).entries()),
    {
        proof {
            use_type_invariant(&*self);
        }
        let stamp = if at < self.clock {
            self.clock
        } else {
            at
        };
        let reading = if now < stamp {
            stamp
        } else {
            now
        };
        let tokens = tokenize(content);
        let entry = MemoryEntry {
            content: content.to_owned(),
            role: role.to_owned(),
            timestamp,
            stored_at: stamp,
            tokens,
        };
        let ghost e = entry;
        let mut all: Vec<MemoryEntry> = Vec::new();
        std::mem::swap(&mut all, &mut self.entries);
        let ghost before = all@;
        all.push(entry);
        let ghost s = all@;
        assert(stored_in_order(s));
        assert(stored_by(s, reading as nat));
        let fresh = fresh_flags(&all, reading, self.ttl_nanos);
        let kept = evict_entries(all, &fresh, self.max_entries);
        proof {
            lemma_kept_in_order(s, fresh@, reading as nat, self.max_entries as nat);
        }
        self.clock = reading;
        self.entries = kept;
        proof {
            assert(e.stored_at == at_or_after(at, old(self).clock()));
            assert(self.clock() == reading);
            assert(before == old(self).entries());
            assert(remembered(before, self.entries@, self.max_entries as nat, self.ttl_nanos as nat, content@, role@, e, reading as nat));
            assert(remembered(old(self).entries(), self.entries(), old(self).max_entries(), old(self).ttl(), content@, role@, e, self.clock()));
        }
    }

    /// Store a message in memory, evicting expired entries and the oldest
    /// entries beyond the capacity. The clock is read when the entry is made
    /// and again when expiry is checked; what comes back is not known in
    /// advance, so the outcome is stated for the readings taken: the oldest
    /// entries are the ones that expire, and the new entry is kept unless
    /// its own age has reached the time-to-live.
    pub fn remember(&mut self, content: &str, role: &str)
        ensures
            final(self).max_entries() == old(self).max_entries(),
            final(self).ttl() == old(self).ttl(),
            old(self).clock() <= final(self).clock(),
            exists|e: MemoryEntry|
                old(self).clock() <= e.stored_at && #[trigger] remembered(
                    old(self).entries(),
                    final(self).entries(),
                    old(self).max_entries(),
                    old(self).ttl(),
                    content@,
                    role@,
                    e,
                    final(self).clock(),
                ) && exists|k: int|
                    0 <= k <= old(self).entries().len() + 1 && final(self).entries() == newest(
                        old(self).entries().push(e).skip(k),
                        old(self).max_entries(),
                    ),
            final(self).entries().len() <= final(self).max_entries(),
            stored_in_order(final(self).entries()),
    {
        proof {
            use_type_invariant(&*self);
        }
        let ghost before = self.entries();
        let timestamp = instant_now();
        let at = duration_nanos(&elapsed_since(&self.epoch));
        let now = duration_nanos(&elapsed_since(&self.epoch));
        self.remember_at(content, role, timestamp, at, now);
        proof {
            let e = choose|e: MemoryEntry|
                e.stored_at == at_or_after(at, old(self).clock()) && e.timestamp == timestamp && #[trigger] remembered(
                    before,
                    self.entries(),
                    old(self).max_entries(),
                    old(self).ttl(),
                    content@,
                    role@,
                    e,
                    self.clock(),
                );
            let s = before.push(e);
            assert(stored_in_order(s));
            assert(stored_by(s, self.clock()));
            lemma_expiry_drops_oldest(s, self.clock(), old(self).ttl());
            let k = choose|k: int|
                0 <= k <= s.len() && retained(s, fresh_at(s, self.clock(), old(self).ttl())) == s.skip(k)
                    && (forall|i: int| 0 <= i < k ==> self.clock() - (#[trigger] s[i]).stored_at >= old(self).ttl())
                    && (forall|i: int| k <= i < s.len() ==> self.clock() - (#[trigger] s[i]).stored_at < old(self).ttl());
            assert(self.entries() == newest(s.skip(k), old(self).max_entries()));
        }
    }

    /// Search memory for the entries most similar to the query: the contents
    /// of the first `top_k` entries in stable descending order of Jaccard
    /// similarity, keeping those with a positive similarity.
    ///
    /// When some entry's token count does not fit in `usize` together with the
    /// query's (where the similarity's union size would overflow), nothing is
    /// recalled.
    pub fn recall(&self, query: &str, top_k: usize) -> (r: Vec<String>)
        ensures
            sums_fit(self.entries(), tokenize_spec(query@)) ==> exists|perm: Seq<int>|
                #[trigger] recalled_by(self.entries(), tokenize_spec(query@), top_k as int, perm, views(r@)),
            !sums_fit(self.entries(), tokenize_spec(query@)) ==> r@.len() == 0,
            r@.len() <= top_k,
    {
        let query_tokens = tokenize(query);
        let ghost q = views(query_tokens@);
        let ghost s = scores(self.entries@, q);
        let n = self.entries.len();
        let mut sims: Vec<Similarity> = Vec::new();
        let mut i: usize = 0;
        while i < n
            invariant
                i <= n,
                n == self.entries@.len(),
                q == views(query_tokens@),
                q == tokenize_spec(query@),
                s == scores(self.entries@, q),
                sims.len() == i,
                forall|k: int| 0 <= k < i ==> (#[trigger] sims@[k]).shared == s[k].0 && sims@[k].total == s[k].1,
                forall|k: int| 0 <= k < i ==> query_tokens.len() + (#[trigger] self.entries@[k]).tokens@.len() <= usize::MAX,
            decreases n - i,
        {
            if query_tokens.len() > usize::MAX - self.entries[i].tokens.len() {
                let r: Vec<String> = Vec::new();
                assert(!sums_fit(self.entries(), q)) by {
                    assert(!(q.len() + self.entries@[i as int].tokens@.len() <= usize::MAX));
                }
                return r;
            }
            let sim = jaccard_similarity(&query_tokens, &self.entries[i].tokens);
            sims.push(sim);
            i = i + 1;
        }
        assert(sums_fit(self.entries(), q));
        assert forall|k: int| 0 <= k < n implies (#[trigger] s[k]).0 >= 0 && s[k].1 >= 0 by {
            assert(sims@[k].shared == s[k].0);
        }
        assert(sim_scores(sims@) =~= s);
        let perm = rank_indices(&sims);
        let ghost perm_int: Seq<int> = perm@.map_values(|x: usize| x as int);
        assert(is_ranking(s, perm_int));
        let limit: usize = if top_k < n { top_k } else { n };
        assert forall|p: int| 0 <= p < perm.len() implies (#[trigger] perm@[p]) < self.entries.len() by {
            assert(perm_int[p] == perm@[p] as int);
        }
        let out = collect_recalled(&self.entries, &sims, &perm, limit);
        proof {
            let qq = tokenize_spec(query@);
            assert(q == qq);
            assert(sim_scores(sims@) == s);
            assert(is_ranking(scores(self.entries(), qq), perm_int));
            assert(views(out@) == pick(
                self.entries(),
                scores(self.entries(), qq),
                perm_int.take(if top_k < perm_int.len() { top_k as int } else { perm_int.len() as int }),
            ));
            assert(recalled_by(self.entries(), qq, top_k as int, perm_int, views(out@)));
        }
        out
    }

    /// Recent memories as a context string: the newest `max_items` entries,
    /// newest first, one `[role]: content` line each.
    pub fn context(&self, max_items: usize) -> (r: String)
        ensures
            r@ == join(
                self.entries().reverse().take(
                    if max_items < self.entries().len() { max_items as int } else { self.entries().len() as int },
                ).map_values(|e: MemoryEntry| context_line(e)),
                "\n"@,
            ),
    {
        let n = self.entries.len();
        let limit: usize = if max_items < n { max_items } else { n };
        let ghost lines = self.entries@.reverse().take(limit as int).map_values(|e: MemoryEntry| context_line(e));
        let mut r = String::new();
        let mut i: usize = 0;
        while i < limit
            invariant
                i <= limit <= n,
                n == self.entries@.len(),
                lines == self.entries@.reverse().take(limit as int).map_values(|e: MemoryEntry| context_line(e)),
                r@ == join(lines.take(i as int), "\n"@),
            decreases limit - i,
        {
            let e = &self.entries[n - 1 - i];
            assert(lines[i as int] == context_line(*e));
            if i > 0 {
                push_str(&mut r, "\n");
            }
            push_str(&mut r, "[");
            push_str(&mut r, e.role.as_str());
            push_str(&mut r, "]: ");
            push_str(&mut r, e.content.as_str());
            assert(lines.take(i + 1).drop_last() == lines.take(i as int));
            assert(r@ =~= join(lines.take(i + 1), "\n"@));
            i = i + 1;
        }
        assert(lines.take(limit as int) == lines);
        r
    }

    /// Import a conversation into memory, one `remember` per message with the
    /// role's `{:?}` name.
    pub fn import_conversation(&mut self, messages: &[Message])
        ensures
            final(self).max_entries() == old(self).max_entries(),
            final(self).ttl() == old(self).ttl(),
            old(self).clock() <= final(self).clock(),
            imported(old(self).entries(), final(self).entries(), old(self).max_entries(), old(self).ttl(), messages@),
            final(self).entries().len() <= final(self).max_entries(),
            stored_in_order(final(self).entries()),
            forall|k: int|
                0 <= k < final(self).entries().len() ==> old(self).entries().contains(
                    #[trigger] final(self).entries()[k],
                ) || exists|m: int|
                    0 <= m < messages@.len() && final(self).entries()[k].content@ == messages@[m].content@
                        && final(self).entries()[k].role@ == role_name_spec(messages@[m].role),
    {
        proof {
            use_type_invariant(&*self);
        }
        let ghost start = self.entries@;
        let mut i: usize = 0;
        assert(messages@.take(0) =~= Seq::<Message>::empty());
        while i < messages.len()
            invariant
                i <= messages.len(),
                self.max_entries() == old(self).max_entries(),
                self.ttl() == old(self).ttl(),
                old(self).clock() <= self.clock(),
                start == old(self).entries(),
                self.entries().len() <= self.max_entries(),
                stored_in_order(self.entries()),
                imported(start, self.entries(), self.max_entries(), self.ttl(), messages@.take(i as int)),
                forall|k: int|
                    0 <= k < self.entries().len() ==> start.contains(#[trigger] self.entries()[k])
                        || exists|m: int|
                        0 <= m < i && self.entries()[k].content@ == messages@[m].content@
                            && self.entries()[k].role@ == role_name_spec(messages@[m].role),
            decreases messages.len() - i,
        {
            let role = role_name(messages[i].role);
            let ghost prev = self.entries();
            self.remember(messages[i].content.as_str(), role.as_str());
            proof {
                let e = choose|e: MemoryEntry|
                    old(self).clock() <= e.stored_at && #[trigger] remembered(
                        prev,
                        self.entries(),
                        self.max_entries(),
                        self.ttl(),
                        messages@[i as int].content@,
                        role@,
                        e,
                        self.clock(),
                    ) && exists|k: int|
                        0 <= k <= prev.len() + 1 && self.entries() == newest(prev.push(e).skip(k), self.max_entries());
                let now = self.clock();
                let s = prev.push(e);
                lemma_retained_len(s, fresh_at(s, now, self.ttl()));
                let ms = messages@.take(i + 1);
                assert(ms.drop_last() =~= messages@.take(i as int));
                assert(ms.last() == messages@[i as int]);
                assert(role@ == role_name_spec(ms.last().role));
                assert(remembered(prev, self.entries(), self.max_entries(), self.ttl(), ms.last().content@, role_name_spec(ms.last().role), e, now));
                assert(imported(start, self.entries(), self.max_entries(), self.ttl(), ms));
                assert forall|k: int| 0 <= k < self.entries().len() implies start.contains(
                    #[trigger] self.entries()[k],
                ) || exists|m: int|
                    0 <= m < i + 1 && self.entries()[k].content@ == messages@[m].content@
                        && self.entries()[k].role@ == role_name_spec(messages@[m].role) by {
                    let x = self.entries()[k];
                    let rr = retained(s, fresh_at(s, now, self.ttl()));
                    assert(rr.contains(x));
                    assert(s.contains(x));
                    let j = choose|j: int| 0 <= j < prev.len() + 1 && s[j] == x;
                    if j < prev.len() {
                        assert(prev[j] == x);
                    }
                }
            }
            i = i + 1;
        }
        assert(messages@.take(messages.len() as int) =~= messages@);
    }

    /// The number of stored entries.
    pub fn size(&self) -> (n: usize)
        ensures
            n == self.entries().len(),
    {
        self.entries.len()
    }
}

} // verus!

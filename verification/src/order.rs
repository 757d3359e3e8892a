//! Stable ordering by a key of three parts: a rank, a flag, and a text.

use vstd::prelude::*;

verus! {

/// `a` comes no later than `b` in code point order, character by character;
/// a prefix comes before the longer text. This is how `str` and `String`
/// compare.
pub open spec fn text_le(a: Seq<char>, b: Seq<char>) -> bool
    decreases a.len(),
{
    if a.len() == 0 {
        true
    } else if b.len() == 0 {
        false
    } else if a[0] != b[0] {
        a[0] < b[0]
    } else {
        text_le(a.drop_first(), b.drop_first())
    }
}

pub proof fn lemma_text_le_total(a: Seq<char>, b: Seq<char>)
    ensures
        text_le(a, b) || text_le(b, a),
    decreases a.len(),
{
    if a.len() > 0 && b.len() > 0 && a[0] == b[0] {
        lemma_text_le_total(a.drop_first(), b.drop_first());
    }
}

pub proof fn lemma_text_le_transitive(a: Seq<char>, b: Seq<char>, c: Seq<char>)
    requires
        text_le(a, b),
        text_le(b, c),
    ensures
        text_le(a, c),
    decreases a.len(),
{
    if a.len() > 0 && b.len() > 0 && c.len() > 0 && a[0] == b[0] && b[0] == c[0] {
        lemma_text_le_transitive(a.drop_first(), b.drop_first(), c.drop_first());
    }
}

/// Compares two texts as `text_le` does.
pub fn text_le_exec(a: &Vec<char>, b: &Vec<char>) -> (r: bool)
    ensures
        r == text_le(a@, b@),
{
    let mut i: usize = 0;
    assert(a@.skip(0) =~= a@);
    assert(b@.skip(0) =~= b@);
    while i < a.len() && i < b.len() && a[i] == b[i]
        invariant
            i <= a@.len(),
            i <= b@.len(),
            text_le(a@, b@) == text_le(a@.skip(i as int), b@.skip(i as int)),
        decreases a@.len() - i,
    {
        let ghost sa = a@.skip(i as int);
        let ghost sb = b@.skip(i as int);
        assert(sa.drop_first() =~= a@.skip(i + 1));
        assert(sb.drop_first() =~= b@.skip(i + 1));
        i = i + 1;
    }
    let ghost sa = a@.skip(i as int);
    let ghost sb = b@.skip(i as int);
    if i == a.len() {
        assert(sa.len() == 0);
        true
    } else if i == b.len() {
        assert(sb.len() == 0);
        false
    } else {
        assert(sa[0] == a@[i as int]);
        assert(sb[0] == b@[i as int]);
        a[i] < b[i]
    }
}

/// A sort key: first the rank, then the flag (`false` first), then the text.
pub struct SortKey {
    pub rank: u8,
    pub flag: bool,
    pub text: Vec<char>,
}

pub struct KeyView {
    pub rank: u8,
    pub flag: bool,
    pub text: Seq<char>,
}

impl View for SortKey {
    type V = KeyView;

    open spec fn view(&self) -> KeyView {
        KeyView { rank: self.rank, flag: self.flag, text: self.text@ }
    }
}

/// `a` comes no later than `b`: the order of the tuple `(rank, flag, text)`.
pub open spec fn key_le(a: KeyView, b: KeyView) -> bool {
    ||| a.rank < b.rank
    ||| a.rank == b.rank && !a.flag && b.flag
    ||| a.rank == b.rank && a.flag == b.flag && text_le(a.text, b.text)
}

pub proof fn lemma_key_le_total(a: KeyView, b: KeyView)
    ensures
        key_le(a, b) || key_le(b, a),
{
    lemma_text_le_total(a.text, b.text);
}

pub proof fn lemma_key_le_transitive(a: KeyView, b: KeyView, c: KeyView)
    requires
        key_le(a, b),
        key_le(b, c),
    ensures
        key_le(a, c),
{
    if a.rank == b.rank && b.rank == c.rank && a.flag == b.flag && b.flag == c.flag {
        lemma_text_le_transitive(a.text, b.text, c.text);
    }
}

pub fn key_le_exec(a: &SortKey, b: &SortKey) -> (r: bool)
    ensures
        r == key_le(a@, b@),
{
    if a.rank != b.rank {
        a.rank < b.rank
    } else if a.flag != b.flag {
        !a.flag
    } else {
        text_le_exec(&a.text, &b.text)
    }
}

pub open spec fn key_views(ks: Seq<SortKey>) -> Seq<KeyView> {
    ks.map_values(|k: SortKey| k@)
}

/// `p` lists each index below `n` exactly once.
pub open spec fn is_permutation(p: Seq<int>, n: nat) -> bool {
    &&& p.len() == n
    &&& forall|i: int| 0 <= i < p.len() ==> 0 <= #[trigger] p[i] < n
    &&& forall|i: int, j: int| 0 <= i < j < p.len() ==> #[trigger] p[i] != #[trigger] p[j]
}

/// `r` is `s` reordered by `p` so that the keys `k` of its items ascend, and
/// items with equal keys keep their order in `s`.
pub open spec fn stable_sort_by(r: Seq<int>, k: Seq<KeyView>, n: nat) -> bool {
    &&& is_permutation(r, n)
    &&& forall|i: int, j: int|
        #![trigger r[i], r[j]]
        0 <= i < j < r.len() ==> key_le(k[r[i]], k[r[j]])
    &&& forall|i: int, j: int|
        #![trigger r[i], r[j]]
        0 <= i < j < r.len() && key_le(k[r[j]], k[r[i]]) ==> r[i] < r[j]
}

/// `out` holds the items of `items`, sorted stably by their keys `k`.
pub open spec fn is_stable_sort<T>(out: Seq<T>, items: Seq<T>, k: Seq<KeyView>) -> bool {
    exists|p: Seq<int>|
        #[trigger] stable_sort_by(p, k, items.len()) && out.len() == items.len() && forall|i: int|
            0 <= i < out.len() ==> out[i] == items[#[trigger] p[i]]
}

/// Sorts `items` stably by `keys`, the key of `items[i]` being `keys[i]`.
pub fn sort_by_keys<T>(items: Vec<T>, keys: Vec<SortKey>) -> (out: Vec<T>)
    requires
        items@.len() == keys@.len(),
    ensures
        is_stable_sort(out@, items@, key_views(keys@)),
{
    let ghost s = items@;
    let ghost k = key_views(keys@);
    let ghost n = items@.len();
    let mut items = items;
    let mut keys = keys;
    let mut out: Vec<T> = Vec::new();
    let mut out_keys: Vec<SortKey> = Vec::new();
    let ghost mut p: Seq<int> = Seq::empty();
    while items.len() > 0
        invariant
            items@.len() == keys@.len(),
            items@.len() <= n,
            n == s.len(),
            k.len() == n,
            items@ == s.take(items@.len() as int),
            forall|i: int| 0 <= i < keys@.len() ==> #[trigger] keys@[i]@ == k[i],
            out@.len() == p.len(),
            out_keys@.len() == p.len(),
            p.len() + items@.len() == n,
            forall|i: int| 0 <= i < p.len() ==> items@.len() <= #[trigger] p[i] < n,
            forall|i: int, j: int| 0 <= i < j < p.len() ==> #[trigger] p[i] != #[trigger] p[j],
            forall|i: int| 0 <= i < p.len() ==> out@[i] == s[#[trigger] p[i]],
            forall|i: int| 0 <= i < p.len() ==> #[trigger] out_keys@[i]@ == k[p[i]],
            forall|i: int, j: int|
                #![trigger p[i], p[j]]
                0 <= i < j < p.len() ==> key_le(k[p[i]], k[p[j]]),
            forall|i: int, j: int|
                #![trigger p[i], p[j]]
                0 <= i < j < p.len() && key_le(k[p[j]], k[p[i]]) ==> p[i] < p[j],
        decreases items@.len(),
    {
        let ghost idx: int = items@.len() - 1;
        let item = items.pop().unwrap();
        let key = keys.pop().unwrap();
        assert(key@ == k[idx]);
        assert(item == s[idx]);
        assert(items@ =~= s.take(idx));
        // Find the first position whose key is not below the new key.
        let mut pos: usize = 0;
        while pos < out_keys.len() && !key_le_exec(&key, &out_keys[pos])
            invariant
                pos <= out_keys@.len(),
                out_keys@.len() == p.len(),
                key@ == k[idx],
                forall|i: int| 0 <= i < p.len() ==> #[trigger] out_keys@[i]@ == k[p[i]],
                forall|i: int| 0 <= i < pos ==> !key_le(k[idx], #[trigger] k[p[i]]),
            decreases out_keys@.len() - pos,
        {
            pos = pos + 1;
        }
        proof {
            // Everything from `pos` on is at or above the new key.
            if pos < p.len() {
                assert forall|j: int| pos <= j < p.len() implies key_le(
                    k[idx],
                    #[trigger] k[p[j]],
                ) by {
                    if j > pos {
                        assert(key_le(k[p[pos as int]], k[p[j]]));
                        lemma_key_le_transitive(k[idx], k[p[pos as int]], k[p[j]]);
                    }
                }
            }
            assert forall|i: int| 0 <= i < pos implies key_le(#[trigger] k[p[i]], k[idx]) by {
                lemma_key_le_total(k[p[i]], k[idx]);
            }
        }
        out.insert(pos, item);
        out_keys.insert(pos, key);
        proof {
            let old_p = p;
            p = p.insert(pos as int, idx);
            assert forall|i: int| 0 <= i < p.len() implies #[trigger] out_keys@[i]@ == k[p[i]] by {
                if i < pos {
                    assert(p[i] == old_p[i]);
                } else if i > pos {
                    assert(p[i] == old_p[i - 1]);
                }
            }
            assert forall|i: int| 0 <= i < p.len() implies out@[i] == s[#[trigger] p[i]] by {
                if i < pos {
                    assert(p[i] == old_p[i]);
                } else if i > pos {
                    assert(p[i] == old_p[i - 1]);
                }
            }
            assert forall|i: int| 0 <= i < p.len() implies items@.len() <= #[trigger] p[i] < n by {
                if i < pos {
                    assert(p[i] == old_p[i]);
                } else if i > pos {
                    assert(p[i] == old_p[i - 1]);
                }
            }
            assert forall|i: int, j: int| 0 <= i < j < p.len() implies #[trigger] p[i]
                != #[trigger] p[j] by {
                if i < pos {
                    assert(p[i] == old_p[i]);
                } else if i > pos {
                    assert(p[i] == old_p[i - 1]);
                }
                if j < pos {
                    assert(p[j] == old_p[j]);
                } else if j > pos {
                    assert(p[j] == old_p[j - 1]);
                }
            }
            assert forall|i: int, j: int|
                #![trigger p[i], p[j]]
                0 <= i < j < p.len() implies key_le(k[p[i]], k[p[j]]) by {
                if i < pos {
                    assert(p[i] == old_p[i]);
                } else if i > pos {
                    assert(p[i] == old_p[i - 1]);
                }
                if j < pos {
                    assert(p[j] == old_p[j]);
                } else if j > pos {
                    assert(p[j] == old_p[j - 1]);
                }
                if i < pos && j > pos {
                    lemma_key_le_transitive(k[p[i]], k[idx], k[p[j]]);
                }
            }
            assert forall|i: int, j: int|
                #![trigger p[i], p[j]]
                0 <= i < j < p.len() && key_le(k[p[j]], k[p[i]]) implies p[i] < p[j] by {
                if i < pos {
                    assert(p[i] == old_p[i]);
                } else if i > pos {
                    assert(p[i] == old_p[i - 1]);
                }
                if j < pos {
                    assert(p[j] == old_p[j]);
                } else if j > pos {
                    assert(p[j] == old_p[j - 1]);
                }
            }
        }
    }
    assert(stable_sort_by(p, k, n));
    out
}

} // verus!

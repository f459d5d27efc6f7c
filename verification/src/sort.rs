//! Ordering of the merged result set: by size (largest first), by
//! textual path (lexicographic), or by stored age (most recently
//! modified first). The sort is an insertion sort, proved to produce a
//! sorted permutation of its input.

use vstd::prelude::*;
use vstd::relations::sorted_by;
use vstd::seq_lib::group_to_multiset_ensures;

use crate::config::SortBy;
use crate::entry::NodeModule;
use crate::text::{lemma_lex_le_total, lemma_lex_le_trans, lex_le, lex_le_chars, to_chars};

verus! {

/// The ordering a sort key induces on two entries.
pub open spec fn module_le(key: SortBy, a: NodeModule, b: NodeModule) -> bool {
    match key {
        SortBy::Size => a.size >= b.size,
        SortBy::Path => lex_le(a.path@, b.path@),
        SortBy::LastMod => a.modified <= b.modified,
    }
}

/// Each key's ordering is total.
pub proof fn lemma_module_le_total(key: SortBy, a: NodeModule, b: NodeModule)
    ensures
        module_le(key, a, b) || module_le(key, b, a),
{
    if key is Path {
        lemma_lex_le_total(a.path@, b.path@);
    }
}

/// Each key's ordering is transitive.
pub proof fn lemma_module_le_trans(key: SortBy, a: NodeModule, b: NodeModule, c: NodeModule)
    requires
        module_le(key, a, b),
        module_le(key, b, c),
    ensures
        module_le(key, a, c),
{
    if key is Path {
        lemma_lex_le_trans(a.path@, b.path@, c.path@);
    }
}

/// Executable comparison under a sort key.
fn module_le_exec(key: SortBy, a: &NodeModule, b: &NodeModule) -> (r: bool)
    ensures
        r == module_le(key, *a, *b),
{
    match key {
        SortBy::Size => a.size >= b.size,
        SortBy::Path => {
            let ac: Vec<char> = to_chars(a.path.as_str());
            let bc: Vec<char> = to_chars(b.path.as_str());
            lex_le_chars(&ac, &bc)
        },
        SortBy::LastMod => a.modified <= b.modified,
    }
}

/// Inserting an element anywhere in a sequence adds it to the
/// sequence's multiset.
proof fn lemma_insert_to_multiset<A>(s: Seq<A>, j: int, x: A)
    requires
        0 <= j <= s.len(),
    ensures
        s.insert(j, x).to_multiset() =~= s.to_multiset().insert(x),
{
    broadcast use group_to_multiset_ensures;

    let t = s.insert(j, x);
    assert(t.remove(j) =~= s);
    assert(t[j] == x);
    assert(s.to_multiset() == t.to_multiset().remove(x));
    assert(t.contains(x));
    assert(t.to_multiset().count(x) > 0);
    assert(t.to_multiset() =~= s.to_multiset().insert(x)) by {
        assert(forall|y: A|
            t.to_multiset().count(y) == s.to_multiset().insert(x).count(y));
    }
}

/// Sorts the discovered entries by the requested key; with no key the
/// arrival order is kept. The result is a permutation of the input,
/// sorted by the key's ordering.
pub fn sort_modules(modules: Vec<NodeModule>, sort: &Option<SortBy>) -> (r: Vec<NodeModule>)
    ensures
        match sort {
            Option::None => r@ == modules@,
            Option::Some(key) => {
                &&& sorted_by(r@, |a: NodeModule, b: NodeModule| module_le(*key, a, b))
                &&& r@.to_multiset() == modules@.to_multiset()
            },
        },
{
    broadcast use group_to_multiset_ensures;

    let key: SortBy = match sort {
        Option::None => {
            return modules;
        },
        Option::Some(k) => *k,
    };
    let ghost le = |a: NodeModule, b: NodeModule| module_le(key, a, b);
    let mut v: Vec<NodeModule> = modules;
    let ghost orig = v@;
    let n: usize = v.len();
    if n == 0 {
        assert(v@.to_multiset() =~= orig.to_multiset());
        return v;
    }
    let mut idx: usize = 1;
    while idx < n
        invariant
            1 <= idx <= n,
            n == v@.len(),
            v@.to_multiset() == orig.to_multiset(),
            sorted_by(v@.subrange(0, idx as int), le),
            le == (|a: NodeModule, b: NodeModule| module_le(key, a, b)),
        decreases n - idx,
    {
        let ghost before = v@;
        let x: NodeModule = v.remove(idx);
        let ghost mid = v@;
        proof {
            broadcast use group_to_multiset_ensures;

            assert(before.remove(idx as int).to_multiset() == before.to_multiset().remove(
                before[idx as int],
            ));
            assert(mid.to_multiset() == before.to_multiset().remove(x));
            assert(before.contains(x));
            assert(before.to_multiset().count(x) > 0);
            assert(mid.subrange(0, idx as int) =~= before.subrange(0, idx as int));
            assert forall|p: int, q: int| 0 <= p < q < idx implies le(
                #[trigger] mid[p],
                #[trigger] mid[q],
            ) by {
                let pre = before.subrange(0, idx as int);
                assert(le(pre[p], pre[q]));
            }
        }
        let mut j: usize = 0;
        while j < idx && module_le_exec(key, &v[j], &x)
            invariant
                j <= idx,
                idx < n,
                n == v@.len() + 1,
                v@ == mid,
                forall|k: int| 0 <= k < j ==> le(v@[k], x),
                le == (|a: NodeModule, b: NodeModule| module_le(key, a, b)),
            decreases idx - j,
        {
            j = j + 1;
        }
        proof {
            if j < idx {
                assert(!module_le(key, mid[j as int], x));
                lemma_module_le_total(key, mid[j as int], x);
                assert(le(x, mid[j as int]));
            }
            assert forall|k: int| j <= k < idx implies le(x, mid[k]) by {
                if k > j {
                    assert(le(mid[j as int], mid[k]));
                    lemma_module_le_trans(key, x, mid[j as int], mid[k]);
                }
            }
        }
        v.insert(j, x);
        proof {
            broadcast use group_to_multiset_ensures;

            assert(v@ == mid.insert(j as int, x));
            lemma_insert_to_multiset(mid, j as int, x);
            assert(v@.to_multiset() =~= before.to_multiset().remove(x).insert(x));
            assert(before.to_multiset().remove(x).insert(x) =~= before.to_multiset());
            assert(v@.to_multiset() =~= orig.to_multiset());
            let newpre = v@.subrange(0, idx + 1);
            assert forall|p: int, q: int| 0 <= p < q < idx + 1 implies le(
                #[trigger] newpre[p],
                #[trigger] newpre[q],
            ) by {
                assert(forall|k: int|
                    0 <= k < idx + 1 ==> newpre[k] == (if k < j {
                        mid[k]
                    } else if k == j {
                        x
                    } else {
                        mid[k - 1]
                    }));
                if p < j && q == j {
                    assert(le(mid[p], x));
                } else if p == j {
                    assert(le(x, mid[q - 1]));
                } else if p < j && q > j {
                    assert(le(mid[p], mid[q - 1]));
                } else if p > j && q > j {
                    assert(le(mid[p - 1], mid[q - 1]));
                }
            }
            assert(sorted_by(newpre, le));
        }
        idx = idx + 1;
    }
    proof {
        assert(v@.subrange(0, n as int) =~= v@);
    }
    v
}

} // verus!

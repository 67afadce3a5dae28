//! Sets of names kept as strictly ascending lists.

use vstd::prelude::*;
use crate::version::{compare_tags, lemma_tag_total, lemma_tag_trans, tag_lt};

verus! {

/// Strictly ascending, so without repeats.
pub open spec fn strictly_sorted(s: Seq<String>) -> bool {
    forall|k: int, l: int| 0 <= k < l < s.len() ==> tag_lt((#[trigger] s[k])@, (#[trigger] s[l])@)
}

pub open spec fn holds_name(s: Seq<String>, x: Seq<char>) -> bool {
    exists|k: int| 0 <= k < s.len() && (#[trigger] s[k])@ == x
}

/// Adds `x` to a strictly ascending list, unless it is there already.
pub fn insert_name(names: &mut Vec<String>, x: String)
    requires
        strictly_sorted(old(names)@),
    ensures
        strictly_sorted(final(names)@),
        forall|y: Seq<char>| holds_name(final(names)@, y) <==> (holds_name(old(names)@, y) || y == x@),
{
    let n = names.len();
    let mut j: usize = 0;
    while j < n && name_below(names[j].as_str(), x.as_str())
        invariant
            n == names@.len(),
            j <= n,
            forall|k: int| 0 <= k < j ==> tag_lt((#[trigger] names@[k])@, x@),
        decreases n - j,
    {
        j = j + 1;
    }
    if j < n && same_name(names[j].as_str(), x.as_str()) {
        assert(holds_name(names@, x@));
        return;
    }
    let ghost before = names@;
    proof {
        if j < n {
            lemma_tag_total(before[j as int]@, x@);
            assert(tag_lt(x@, before[j as int]@));
            assert forall|l: int| j <= l < n implies tag_lt(x@, (#[trigger] before[l])@) by {
                if l > j {
                    lemma_tag_trans(x@, before[j as int]@, before[l]@);
                }
            }
        }
    }
    names.insert(j, x);
    proof {
        let after = names@;
        assert forall|k: int, l: int| 0 <= k < l < after.len() implies tag_lt(
            (#[trigger] after[k])@,
            (#[trigger] after[l])@,
        ) by {
            if k < j && l == j {
            } else if k < j && l > j {
                assert(after[l] == before[l - 1]);
                lemma_tag_trans(after[k]@, x@, after[l]@);
            } else if k == j {
                assert(after[l] == before[l - 1]);
            } else if k > j {
                assert(after[l] == before[l - 1]);
                assert(after[k] == before[k - 1]);
            } else {
            }
        }
        assert forall|y: Seq<char>| holds_name(after, y) <==> (holds_name(before, y) || y == x@) by {
            if holds_name(after, y) {
                let k = choose|k: int| 0 <= k < after.len() && (#[trigger] after[k])@ == y;
                if k < j {
                    assert(before[k]@ == y);
                } else if k > j {
                    assert(before[k - 1]@ == y);
                }
            }
            if holds_name(before, y) {
                let k = choose|k: int| 0 <= k < before.len() && (#[trigger] before[k])@ == y;
                if k < j {
                    assert(after[k]@ == y);
                } else {
                    assert(after[k + 1]@ == y);
                }
            }
            if y == x@ {
                assert(after[j as int]@ == y);
            }
        }
    }
}

fn name_below(a: &str, b: &str) -> (r: bool)
    ensures
        r == tag_lt(a@, b@),
{
    match compare_tags(a, b) {
        std::cmp::Ordering::Less => true,
        _ => false,
    }
}

fn same_name(a: &str, b: &str) -> (r: bool)
    ensures
        r == (a@ == b@),
{
    crate::text::same_text(a, b)
}


/// `r` lists each index below `n` once.
pub open spec fn is_permutation(r: Seq<usize>, n: nat) -> bool {
    &&& r.len() == n
    &&& forall|k: int| 0 <= k < r.len() ==> (#[trigger] r[k]) < n
    &&& forall|k: int, l: int| 0 <= k < l < r.len() ==> (#[trigger] r[k]) != (#[trigger] r[l])
}

/// `r` orders indices by their keys, ascending, equal keys in index order.
pub open spec fn sorted_by_keys(r: Seq<usize>, keys: Seq<String>) -> bool {
    forall|k: int, l: int|
        0 <= k < l < r.len() ==> {
            let a = keys[(#[trigger] r[k]) as int]@;
            let b = keys[(#[trigger] r[l]) as int]@;
            tag_lt(a, b) || (a == b && r[k] < r[l])
        }
}

/// The indices of `keys`, ordered by key; a stable sort.
pub fn sort_indices(keys: &Vec<String>) -> (r: Vec<usize>)
    ensures
        is_permutation(r@, keys@.len()),
        sorted_by_keys(r@, keys@),
{
    let mut out: Vec<usize> = Vec::new();
    let n = keys.len();
    let mut i: usize = 0;
    while i < n
        invariant
            n == keys@.len(),
            i <= n,
            out@.len() == i,
            forall|k: int| 0 <= k < out@.len() ==> (#[trigger] out@[k]) < i,
            forall|k: int, l: int| 0 <= k < l < out@.len() ==> (#[trigger] out@[k]) != (#[trigger] out@[l]),
            sorted_by_keys(out@, keys@),
        decreases n - i,
    {
        let mut j: usize = out.len();
        while j > 0 && name_below(keys[i].as_str(), keys[out[j - 1]].as_str())
            invariant
                n == keys@.len(),
                i < n,
                j <= out@.len(),
                forall|k: int| 0 <= k < out@.len() ==> (#[trigger] out@[k]) < i,
                forall|k: int| j <= k < out@.len() ==> tag_lt(keys[i as int]@, keys[(#[trigger] out@[k]) as int]@),
            decreases j,
        {
            j = j - 1;
        }
        let ghost before = out@;
        proof {
            if j > 0 {
                lemma_tag_total(keys[i as int]@, keys[before[j - 1] as int]@);
            }
        }
        out.insert(j, i);
        proof {
            let after = out@;
            assert forall|k: int| 0 <= k < after.len() implies (#[trigger] after[k]) < i + 1 by {
                if k < j {
                    assert(after[k] == before[k]);
                } else if k > j {
                    assert(after[k] == before[k - 1]);
                }
            }
            assert forall|k: int, l: int| 0 <= k < l < after.len() implies (#[trigger] after[k]) != (#[trigger] after[l]) by {
                if k < j {
                    assert(after[k] == before[k]);
                } else if k > j {
                    assert(after[k] == before[k - 1]);
                }
                if l < j {
                    assert(after[l] == before[l]);
                } else if l > j {
                    assert(after[l] == before[l - 1]);
                }
            }
            assert forall|k: int, l: int| 0 <= k < l < after.len() implies {
                let a = keys@[(#[trigger] after[k]) as int]@;
                let b = keys@[(#[trigger] after[l]) as int]@;
                tag_lt(a, b) || (a == b && after[k] < after[l])
            } by {
                let x = keys@[i as int]@;
                if k < j && l < j {
                    assert(after[k] == before[k] && after[l] == before[l]);
                } else if k > j && l > j {
                    assert(after[k] == before[k - 1] && after[l] == before[l - 1]);
                } else if k < j && l == j {
                    assert(after[k] == before[k]);
                    let y = keys@[before[j - 1] as int]@;
                    if k < j - 1 {
                        let z = keys@[before[k] as int]@;
                        if tag_lt(z, y) {
                            if tag_lt(y, x) {
                                lemma_tag_trans(z, y, x);
                            }
                        }
                    }
                } else if k < j && l > j {
                    assert(after[k] == before[k]);
                    assert(after[l] == before[l - 1]);
                } else if k == j && l > j {
                    assert(after[l] == before[l - 1]);
                }
            }
        }
        i = i + 1;
    }
    out
}

} // verus!

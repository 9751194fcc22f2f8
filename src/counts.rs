//! Name-to-count tables kept in strictly ascending order of names, with
//! each name once.

use vstd::prelude::*;
use vstd::string::StrSliceExecFns;

verus! {

/// `a` and `b` agree before position `i`, where `a` either ends while `b`
/// goes on or has the smaller character.
pub open spec fn diverge_at(a: Seq<char>, b: Seq<char>, i: int) -> bool {
    &&& 0 <= i <= a.len()
    &&& i <= b.len()
    &&& forall|k: int| 0 <= k < i ==> a[k] == b[k]
    &&& (i == a.len() && i < b.len()) || (i < a.len() && i < b.len() && a[i] < b[i])
}

/// `a` comes before `b` in the order of code points, which is the order of
/// `String`'s `Ord`.
pub open spec fn key_lt(a: Seq<char>, b: Seq<char>) -> bool {
    exists|i: int| diverge_at(a, b, i)
}

/// Compares two names: negative, zero or positive as `a` comes before,
/// equals or comes after `b`.
pub fn compare_names(a: &String, b: &String) -> (r: i8)
    ensures
        (r == 0) == (a@ == b@),
        (r < 0) == key_lt(a@, b@),
        (r > 0) == key_lt(b@, a@),
{
    let sa = a.as_str();
    let sb = b.as_str();
    let la = sa.unicode_len();
    let lb = sb.unicode_len();
    let mut i: usize = 0;
    while i < la && i < lb && sa.get_char(i) == sb.get_char(i)
        invariant
            la == a@.len(),
            lb == b@.len(),
            sa@ == a@,
            sb@ == b@,
            0 <= i <= la,
            i <= lb,
            forall|k: int| 0 <= k < i ==> a@[k] == b@[k],
        decreases la - i,
    {
        i = i + 1;
    }
    proof {
        // Any divergence point lies at or before `i`, where the two first differ.
        assert forall|j: int| diverge_at(a@, b@, j) implies j == i by {
            if j < i {
                assert(a@[j] == b@[j]);
            } else if j > i {
                assert(a@[i as int] == b@[i as int]);
            }
        }
        assert forall|j: int| diverge_at(b@, a@, j) implies j == i by {
            if j < i {
                assert(a@[j] == b@[j]);
            } else if j > i {
                assert(a@[i as int] == b@[i as int]);
            }
        }
    }
    if i == la && i == lb {
        assert(a@ =~= b@);
        assert(!diverge_at(a@, b@, i as int));
        assert(!diverge_at(b@, a@, i as int));
        0
    } else if i == la {
        assert(diverge_at(a@, b@, i as int));
        assert(!diverge_at(b@, a@, i as int));
        assert(a@.len() != b@.len());
        -1
    } else if i == lb {
        assert(diverge_at(b@, a@, i as int));
        assert(!diverge_at(a@, b@, i as int));
        assert(a@.len() != b@.len());
        1
    } else if sa.get_char(i) < sb.get_char(i) {
        assert(diverge_at(a@, b@, i as int));
        assert(!diverge_at(b@, a@, i as int));
        assert(a@[i as int] != b@[i as int]);
        -1
    } else {
        assert(diverge_at(b@, a@, i as int));
        assert(!diverge_at(a@, b@, i as int));
        assert(a@[i as int] != b@[i as int]);
        1
    }
}

/// Each name occurs once, and names ascend strictly from each pair to the
/// next.
pub open spec fn counts_wf(s: Seq<(String, u64)>) -> bool {
    &&& forall|i: int, j: int| 0 <= i < j < s.len() ==> s[i].0@ != s[j].0@
    &&& forall|i: int| 0 <= i < s.len() - 1 ==> key_lt(#[trigger] s[i].0@, s[i + 1].0@)
}

/// The table as a map from name to count.
pub open spec fn counts_map(s: Seq<(String, u64)>) -> Map<Seq<char>, u64> {
    Map::new(
        |k: Seq<char>| exists|i: int| 0 <= i < s.len() && s[i].0@ == k,
        |k: Seq<char>| s[choose|i: int| 0 <= i < s.len() && s[i].0@ == k].1,
    )
}

proof fn lemma_counts_map_at(s: Seq<(String, u64)>, i: int)
    requires
        counts_wf(s),
        0 <= i < s.len(),
    ensures
        counts_map(s).contains_key(s[i].0@),
        counts_map(s)[s[i].0@] == s[i].1,
{
    let k = s[i].0@;
    assert(0 <= i < s.len() && s[i].0@ == k);
    let j = choose|j: int| 0 <= j < s.len() && s[j].0@ == k;
    if j != i {
        if j < i {
            assert(s[j].0@ != s[i].0@);
        } else {
            assert(s[i].0@ != s[j].0@);
        }
    }
}

proof fn lemma_counts_map_ext(s: Seq<(String, u64)>, m: Map<Seq<char>, u64>)
    requires
        counts_wf(s),
        forall|i: int| 0 <= i < s.len() ==> m.contains_key(#[trigger] s[i].0@) && m[s[i].0@] == s[i].1,
        forall|k: Seq<char>| #[trigger] m.contains_key(k) ==> exists|i: int| 0 <= i < s.len() && s[i].0@ == k,
    ensures
        counts_map(s) == m,
{
    assert forall|k: Seq<char>| #[trigger] counts_map(s).contains_key(k) == m.contains_key(k) by {
        if counts_map(s).contains_key(k) {
            let i = choose|i: int| 0 <= i < s.len() && s[i].0@ == k;
            assert(m.contains_key(s[i].0@));
        }
    }
    assert forall|k: Seq<char>| #[trigger] m.contains_key(k) implies counts_map(s)[k] == m[k] by {
        let i = choose|i: int| 0 <= i < s.len() && s[i].0@ == k;
        lemma_counts_map_at(s, i);
    }
    assert(counts_map(s) =~= m);
}

/// Sets the count of `name`, keeping the table ordered: a name already
/// present gets the new count, a new one is put in its place.
pub fn put_count(table: &mut Vec<(String, u64)>, name: String, n: u64)
    requires
        counts_wf(old(table)@),
    ensures
        counts_wf(final(table)@),
        counts_map(final(table)@) == counts_map(old(table)@).insert(name@, n),
{
    let ghost old_s = table@;
    let ghost m = counts_map(old_s).insert(name@, n);
    proof {
        assert forall|i: int| 0 <= i < old_s.len() implies counts_map(old_s).contains_key(
            #[trigger] old_s[i].0@,
        ) && counts_map(old_s)[old_s[i].0@] == old_s[i].1 by {
            lemma_counts_map_at(old_s, i);
        }
    }
    let mut e: usize = 0;
    while e < table.len()
        invariant
            table@ == old_s,
            0 <= e <= old_s.len(),
            forall|i: int| 0 <= i < e ==> old_s[i].0@ != name@,
        ensures
            0 <= e <= old_s.len(),
            forall|i: int| 0 <= i < e ==> old_s[i].0@ != name@,
            e < old_s.len() ==> old_s[e as int].0@ == name@,
        decreases old_s.len() - e,
    {
        if table[e].0 == name {
            break;
        }
        e = e + 1;
    }
    if e < table.len() {
        table[e].1 = n;
        proof {
            let s = table@;
            assert(s[e as int].0@ == name@);
            assert forall|i: int| 0 <= i < s.len() implies m.contains_key(#[trigger] s[i].0@)
                && m[s[i].0@] == s[i].1 by {
                if i != e {
                    assert(old_s[i].0@ != name@) by {
                        if i < e {
                            assert(old_s[i].0@ != old_s[e as int].0@);
                        } else {
                            assert(old_s[e as int].0@ != old_s[i].0@);
                        }
                    }
                }
            }
            assert forall|k: Seq<char>| #[trigger] m.contains_key(k) implies exists|i: int|
                0 <= i < s.len() && s[i].0@ == k by {
                if k != name@ {
                    let i = choose|i: int| 0 <= i < old_s.len() && old_s[i].0@ == k;
                    assert(s[i].0@ == k);
                } else {
                    assert(s[e as int].0@ == k);
                }
            }
            assert forall|i: int| 0 <= i < s.len() - 1 implies key_lt(
                #[trigger] s[i].0@,
                s[i + 1].0@,
            ) by {
                assert(key_lt(old_s[i].0@, old_s[i + 1].0@));
            }
            lemma_counts_map_ext(s, m);
        }
    } else {
        let mut p: usize = 0;
        while p < table.len()
            invariant
                table@ == old_s,
                0 <= p <= old_s.len(),
                forall|i: int| 0 <= i < old_s.len() ==> old_s[i].0@ != name@,
                forall|i: int| 0 <= i < p ==> key_lt(#[trigger] old_s[i].0@, name@),
            ensures
                0 <= p <= old_s.len(),
                forall|i: int| 0 <= i < p ==> key_lt(#[trigger] old_s[i].0@, name@),
                p < old_s.len() ==> key_lt(name@, old_s[p as int].0@),
            decreases old_s.len() - p,
        {
            if compare_names(&table[p].0, &name) > 0 {
                break;
            }
            p = p + 1;
        }
        let ghost q = p as int;
        assert(q < old_s.len() ==> key_lt(name@, old_s[q].0@));
        table.insert(p, (name, n));
        proof {
            let s = table@;
            assert(s =~= old_s.insert(q, (name, n)));
            assert forall|i: int| 0 <= i < s.len() implies m.contains_key(#[trigger] s[i].0@)
                && m[s[i].0@] == s[i].1 by {
                if i < q {
                    assert(s[i] == old_s[i]);
                } else if i > q {
                    assert(s[i] == old_s[i - 1]);
                }
            }
            assert forall|k: Seq<char>| #[trigger] m.contains_key(k) implies exists|i: int|
                0 <= i < s.len() && s[i].0@ == k by {
                if k != name@ {
                    let i = choose|i: int| 0 <= i < old_s.len() && old_s[i].0@ == k;
                    if i < q {
                        assert(s[i].0@ == k);
                    } else {
                        assert(s[i + 1].0@ == k);
                    }
                } else {
                    assert(s[q].0@ == k);
                }
            }
            assert forall|i: int, j: int| 0 <= i < j < s.len() implies s[i].0@ != s[j].0@ by {
                if i < q && j < q {
                } else if i < q && j == q {
                } else if i < q {
                    assert(s[j] == old_s[j - 1]);
                } else if i == q {
                    assert(s[j] == old_s[j - 1]);
                } else {
                    assert(s[i] == old_s[i - 1]);
                    assert(s[j] == old_s[j - 1]);
                }
            }
            assert forall|i: int| 0 <= i < s.len() - 1 implies key_lt(
                #[trigger] s[i].0@,
                s[i + 1].0@,
            ) by {
                if i < q - 1 {
                    assert(key_lt(old_s[i].0@, old_s[i + 1].0@));
                } else if i == q - 1 {
                    assert(key_lt(old_s[i].0@, name@));
                } else if i == q {
                    assert(s[i + 1] == old_s[q]);
                } else {
                    assert(s[i] == old_s[i - 1]);
                    assert(s[i + 1] == old_s[i]);
                    assert(key_lt(old_s[i - 1].0@, old_s[i].0@));
                }
            }
            lemma_counts_map_ext(s, m);
        }
    }
}

} // verus!

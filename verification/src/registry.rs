//! The command registry shared by the dispatcher and the batch
//! interpreter: an association of command names to handlers whose keys
//! are unique, where registering a name again overwrites the handler
//! registered before, and other entries stay as they were.

use vstd::prelude::*;

verus! {

/// The abstract content of a registry: each entry as the view of its key
/// paired with its handler, in insertion order.
pub open spec fn reg_view<H>(entries: Seq<(String, H)>) -> Seq<(Seq<char>, H)> {
    Seq::new(entries.len(), |i: int| (entries[i].0@, entries[i].1))
}

/// Whether some entry of `es` is keyed by `k`.
pub open spec fn reg_has<H>(es: Seq<(Seq<char>, H)>, k: Seq<char>) -> bool {
    exists|i: int| 0 <= i < es.len() && (#[trigger] es[i]).0 == k
}

/// The position of the entry keyed by `k`; meaningful when `reg_has`
/// holds, and determined by `k` alone when the keys are unique.
pub open spec fn reg_index<H>(es: Seq<(Seq<char>, H)>, k: Seq<char>) -> int {
    choose|i: int| 0 <= i < es.len() && (#[trigger] es[i]).0 == k
}

/// The handler registered under `k`; meaningful when `reg_has` holds.
pub open spec fn reg_handler<H>(es: Seq<(Seq<char>, H)>, k: Seq<char>) -> H {
    es[reg_index(es, k)].1
}

/// Well-formedness of a registry: no two entries share a key.
pub open spec fn reg_wf<H>(es: Seq<(Seq<char>, H)>) -> bool {
    forall|i: int, j: int| 0 <= i < j < es.len() ==> (#[trigger] es[i]).0 != (#[trigger] es[j]).0
}

/// In a well-formed registry an entry's position is determined by its
/// key: `reg_index` of the key of entry `i` is `i` itself.
pub proof fn lemma_reg_index<H>(es: Seq<(Seq<char>, H)>, i: int)
    requires
        reg_wf(es),
        0 <= i < es.len(),
    ensures
        reg_has(es, es[i].0),
        reg_index(es, es[i].0) == i,
        reg_handler(es, es[i].0) == es[i].1,
{
    let k = es[i].0;
    assert(reg_has(es, k));
    let j = reg_index(es, k);
    assert(0 <= j < es.len() && es[j].0 == k);
    if j != i {
        if j < i {
            assert(es[j].0 != es[i].0);
        } else {
            assert(es[i].0 != es[j].0);
        }
    }
}

/// Finds the position of the entry whose key equals `name`, if any.
pub(crate) fn find_key<H>(entries: &Vec<(String, H)>, name: &String) -> (r: Option<usize>)
    ensures
        match r {
            Some(i) => i < entries@.len() && entries@[i as int].0@ == name@,
            None => !reg_has(reg_view(entries@), name@),
        },
{
    let n = entries.len();
    let mut i: usize = 0;
    while i < n
        invariant
            i <= n,
            n == entries@.len(),
            forall|j: int| 0 <= j < i ==> (#[trigger] entries@[j]).0@ != name@,
        decreases n - i,
    {
        if entries[i].0 == *name {
            return Some(i);
        }
        i = i + 1;
    }
    proof {
        let es = reg_view(entries@);
        assert forall|j: int| 0 <= j < es.len() implies (#[trigger] es[j]).0 != name@ by {
            assert(es[j].0 == entries@[j].0@);
        }
    }
    None
}

/// Inserts `handler` under `name`: overwrites the entry already keyed by
/// `name` if there is one, else appends a new entry. Entries under other
/// keys are untouched.
pub(crate) fn insert_entry<H>(entries: &mut Vec<(String, H)>, name: String, handler: H)
    requires
        reg_wf(reg_view(old(entries)@)),
    ensures
        reg_wf(reg_view(final(entries)@)),
        reg_has(reg_view(old(entries)@), name@) ==> reg_view(final(entries)@) == reg_view(
            old(entries)@,
        ).update(reg_index(reg_view(old(entries)@), name@), (name@, handler)),
        !reg_has(reg_view(old(entries)@), name@) ==> reg_view(final(entries)@) == reg_view(
            old(entries)@,
        ).push((name@, handler)),
        reg_has(reg_view(final(entries)@), name@),
        reg_handler(reg_view(final(entries)@), name@) == handler,
        forall|k: Seq<char>|
            #![trigger reg_has(reg_view(final(entries)@), k)]
            #![trigger reg_has(reg_view(old(entries)@), k)]
            k != name@ ==> (reg_has(reg_view(final(entries)@), k) <==> reg_has(
                reg_view(old(entries)@),
                k,
            )),
        forall|k: Seq<char>|
            #![trigger reg_handler(reg_view(final(entries)@), k)]
            #![trigger reg_handler(reg_view(old(entries)@), k)]
            k != name@ && reg_has(reg_view(old(entries)@), k) ==> reg_handler(
                reg_view(final(entries)@),
                k,
            ) == reg_handler(reg_view(old(entries)@), k),
{
    let ghost oldv = reg_view(entries@);
    let ghost nm = name@;
    match find_key(entries, &name) {
        Some(i) => {
            proof {
                assert(oldv[i as int].0 == nm);
                lemma_reg_index(oldv, i as int);
            }
            entries[i] = (name, handler);
            proof {
                let newv = reg_view(entries@);
                assert(newv =~= oldv.update(i as int, (nm, handler)));
                assert forall|a: int, b: int| 0 <= a < b < newv.len() implies (
                #[trigger] newv[a]).0 != (#[trigger] newv[b]).0 by {
                    assert(newv[a].0 == oldv[a].0);
                    assert(newv[b].0 == oldv[b].0);
                }
                lemma_reg_index(newv, i as int);
                assert forall|k: Seq<char>|
                    #![trigger reg_has(newv, k)]
                    #![trigger reg_has(oldv, k)]
                    k != nm implies (reg_has(newv, k) <==> reg_has(oldv, k)) by {
                    if reg_has(newv, k) {
                        let w = choose|w: int| 0 <= w < newv.len() && (#[trigger] newv[w]).0 == k;
                        assert(oldv[w].0 == k);
                        assert(reg_has(oldv, k));
                    }
                    if reg_has(oldv, k) {
                        let w = choose|w: int| 0 <= w < oldv.len() && (#[trigger] oldv[w]).0 == k;
                        assert(newv[w].0 == k);
                        assert(reg_has(newv, k));
                    }
                }
                assert forall|k: Seq<char>| k != nm && reg_has(oldv, k) implies #[trigger] reg_handler(
                    newv,
                    k,
                ) == reg_handler(oldv, k) by {
                    let j = reg_index(oldv, k);
                    assert(0 <= j < oldv.len() && oldv[j].0 == k);
                    assert(j != i);
                    assert(newv[j] == oldv[j]);
                    lemma_reg_index(newv, j);
                }
            }
        },
        None => {
            proof {
                assert forall|j: int| 0 <= j < oldv.len() implies (#[trigger] oldv[j]).0 != nm by {
                    if oldv[j].0 == nm {
                        assert(reg_has(oldv, nm));
                    }
                }
            }
            entries.push((name, handler));
            proof {
                let newv = reg_view(entries@);
                assert(newv =~= oldv.push((nm, handler)));
                assert forall|a: int, b: int| 0 <= a < b < newv.len() implies (
                #[trigger] newv[a]).0 != (#[trigger] newv[b]).0 by {
                    if b < oldv.len() {
                        assert(newv[a] == oldv[a]);
                        assert(newv[b] == oldv[b]);
                    } else {
                        assert(newv[b].0 == nm);
                        assert(newv[a] == oldv[a]);
                    }
                }
                lemma_reg_index(newv, oldv.len() as int);
                assert forall|k: Seq<char>|
                    #![trigger reg_has(newv, k)]
                    #![trigger reg_has(oldv, k)]
                    k != nm implies (reg_has(newv, k) <==> reg_has(oldv, k)) by {
                    if reg_has(newv, k) {
                        let w = choose|w: int| 0 <= w < newv.len() && (#[trigger] newv[w]).0 == k;
                        assert(w < oldv.len());
                        assert(oldv[w].0 == k);
                        assert(reg_has(oldv, k));
                    }
                    if reg_has(oldv, k) {
                        let w = choose|w: int| 0 <= w < oldv.len() && (#[trigger] oldv[w]).0 == k;
                        assert(newv[w].0 == k);
                        assert(reg_has(newv, k));
                    }
                }
                assert forall|k: Seq<char>| k != nm && reg_has(oldv, k) implies #[trigger] reg_handler(
                    newv,
                    k,
                ) == reg_handler(oldv, k) by {
                    let j = reg_index(oldv, k);
                    assert(0 <= j < oldv.len() && oldv[j].0 == k);
                    assert(newv[j] == oldv[j]);
                    lemma_reg_index(newv, j);
                }
            }
        },
    }
}

} // verus!

//! Adding prefects and participants to an event.
use vstd::prelude::*;
use crate::routes::rewards::contains_id;

verus! {

/// The people to add to an event, and the event.
pub struct AddPerson {
    pub person_ids: Vec<i32>,
    pub event_id: i32,
}

/// `added` is what adding `requested` one by one does to a list that already holds
/// `existing`: each requested person not on it yet is added once, in the order asked.
pub open spec fn adds(requested: Seq<i32>, existing: Seq<i32>, added: Seq<i32>) -> bool {
    &&& added.no_duplicates()
    &&& forall|i: int| 0 <= i < added.len() ==> requested.contains(#[trigger] added[i]) && !existing.contains(added[i])
    &&& forall|i: int| 0 <= i < requested.len() && !existing.contains(#[trigger] requested[i]) ==> added.contains(requested[i])
    &&& forall|a: int, b: int| 0 <= a < b < added.len() ==> first_index(requested, #[trigger] added[a]) < first_index(
        requested,
        #[trigger] added[b],
    )
}

/// The position of the first `x` in `s`, or `s.len()`.
pub open spec fn first_index(s: Seq<i32>, x: i32) -> int
    decreases s.len(),
{
    if s.len() == 0 {
        0
    } else if s[0] == x {
        0
    } else {
        first_index(s.drop_first(), x) + 1
    }
}

proof fn lemma_first_index(s: Seq<i32>, x: i32, i: int)
    requires
        0 <= i < s.len(),
        s[i] == x,
    ensures
        0 <= first_index(s, x) <= i,
        s[first_index(s, x)] == x,
        forall|j: int| 0 <= j < first_index(s, x) ==> s[j] != x,
    decreases s.len(),
{
    if s[0] != x {
        lemma_first_index(s.drop_first(), x, i - 1);
        assert(s[first_index(s, x)] == s.drop_first()[first_index(s, x) - 1]);
        assert forall|j: int| 0 <= j < first_index(s, x) implies s[j] != x by {
            if j > 0 {
                assert(s[j] == s.drop_first()[j - 1]);
            }
        }
    }
}

proof fn lemma_first_index_absent(s: Seq<i32>, x: i32)
    requires
        !s.contains(x),
    ensures
        first_index(s, x) == s.len(),
    decreases s.len(),
{
    if s.len() > 0 {
        assert(!s.drop_first().contains(x)) by {
            if s.drop_first().contains(x) {
                let k = choose|k: int| 0 <= k < s.drop_first().len() && s.drop_first()[k] == x;
                assert(s[k + 1] == x);
            }
        }
        lemma_first_index_absent(s.drop_first(), x);
    }
}

/// The people that adding `requested` to a list holding `existing` adds: each person
/// not yet on it, once, in the order asked. A person asked for twice is added once.
pub fn people_to_add(requested: &Vec<i32>, existing: &Vec<i32>) -> (added: Vec<i32>)
    ensures
        adds(requested@, existing@, added@),
{
    let mut added: Vec<i32> = Vec::new();
    let mut i: usize = 0;
    while i < requested.len()
        invariant
            i <= requested@.len(),
            added@.no_duplicates(),
            forall|k: int| 0 <= k < added@.len() ==> requested@.take(i as int).contains(#[trigger] added@[k])
                && !existing@.contains(added@[k]),
            forall|k: int| 0 <= k < i && !existing@.contains(#[trigger] requested@[k]) ==> added@.contains(requested@[k]),
            forall|a: int, b: int| 0 <= a < b < added@.len() ==> first_index(requested@, #[trigger] added@[a]) < first_index(
                requested@,
                #[trigger] added@[b],
            ),
            forall|k: int| 0 <= k < added@.len() ==> first_index(requested@, #[trigger] added@[k]) < i,
        decreases requested@.len() - i,
    {
        let p = requested[i];
        let ghost before = added@;
        assert(requested@.take(i + 1) =~= requested@.take(i as int).push(p));
        if !contains_id(existing, p) && !contains_id(&added, p) {
            proof {
                assert forall|k: int| 0 <= k < before.len() implies first_index(requested@, #[trigger] before[k]) < first_index(requested@, p) by {
                    let w = choose|w: int| 0 <= w < i && requested@.take(i as int)[w] == before[k];
                    lemma_first_index(requested@, before[k], w);
                    lemma_first_index(requested@, p, i as int);
                    if first_index(requested@, p) < i {
                        let f = first_index(requested@, p);
                        assert(requested@[f] == p);
                        assert(existing@.contains(p) || added@.contains(p)) by {
                            assert(!existing@.contains(requested@[f]) ==> added@.contains(requested@[f]));
                        }
                    }
                }
                lemma_first_index(requested@, p, i as int);
            }
            added.push(p);
            proof {
                assert forall|k: int| 0 <= k < added@.len() implies requested@.take(i + 1).contains(#[trigger] added@[k])
                    && !existing@.contains(added@[k]) by {
                    if k == before.len() {
                        assert(requested@.take(i + 1)[i as int] == p);
                    } else {
                        assert(added@[k] == before[k]);
                        let w = choose|w: int| 0 <= w < i && requested@.take(i as int)[w] == before[k];
                        assert(requested@.take(i + 1)[w] == before[k]);
                    }
                }
                assert forall|k: int| 0 <= k < i + 1 && !existing@.contains(#[trigger] requested@[k]) implies added@.contains(requested@[k]) by {
                    if k == i {
                        assert(added@[before.len() as int] == p);
                    } else {
                        let w = choose|w: int| 0 <= w < before.len() && before[w] == requested@[k];
                        assert(added@[w] == before[w]);
                    }
                }
            }
        } else {
            proof {
                assert forall|k: int| 0 <= k < added@.len() implies requested@.take(i + 1).contains(#[trigger] added@[k])
                    && !existing@.contains(added@[k]) by {
                    let w = choose|w: int| 0 <= w < i && requested@.take(i as int)[w] == added@[k];
                    assert(requested@.take(i + 1)[w] == added@[k]);
                }
            }
        }
        i = i + 1;
    }
    proof {
        assert(requested@.take(requested@.len() as int) =~= requested@);
    }
    added
}

/// Adding the same people a second time adds nobody: once added, a person is never
/// added to an event again.
pub proof fn lemma_adding_again_adds_nothing(requested: Seq<i32>, existing: Seq<i32>, added: Seq<i32>)
    requires
        adds(requested, existing, added),
    ensures
        adds(requested, existing + added, Seq::empty()),
{
    assert forall|i: int| 0 <= i < requested.len() && !(existing + added).contains(#[trigger] requested[i]) implies Seq::<i32>::empty().contains(requested[i]) by {
        if !existing.contains(requested[i]) {
            let k = choose|k: int| 0 <= k < added.len() && added[k] == requested[i];
            assert((existing + added)[existing.len() + k] == requested[i]);
        } else {
            let k = choose|k: int| 0 <= k < existing.len() && existing[k] == requested[i];
            assert((existing + added)[k] == requested[i]);
        }
    }
}

} // verus!

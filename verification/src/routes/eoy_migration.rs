//! The end-of-year migration: moving everyone in one form to another.
use vstd::prelude::*;
use crate::text::same_text;

verus! {

/// Each text of `s` once, in the order it first appears.
pub open spec fn first_occurrences(s: Seq<Seq<char>>) -> Seq<Seq<char>>
    decreases s.len(),
{
    if s.len() == 0 {
        Seq::empty()
    } else if first_occurrences(s.drop_last()).contains(s.last()) {
        first_occurrences(s.drop_last())
    } else {
        first_occurrences(s.drop_last()).push(s.last())
    }
}

fn holds_text(v: &Vec<String>, t: &str) -> (r: bool)
    ensures
        r == v@.map_values(|s: String| s@).contains(t@),
{
    let ghost views = v@.map_values(|s: String| s@);
    let mut i: usize = 0;
    while i < v.len()
        invariant
            i <= v@.len(),
            views == v@.map_values(|s: String| s@),
            forall|k: int| 0 <= k < i ==> views[k] != t@,
        decreases v@.len() - i,
    {
        if same_text(v[i].as_str(), t) {
            assert(views[i as int] == t@);
            return true;
        }
        i = i + 1;
    }
    false
}

/// The forms people are in, each once, in the order they first appear: the forms the
/// migration page offers.
pub fn unique_forms(forms: &Vec<String>) -> (unique: Vec<String>)
    ensures
        unique@.map_values(|s: String| s@) == first_occurrences(forms@.map_values(|s: String| s@)),
{
    let ghost all = forms@.map_values(|s: String| s@);
    let mut unique: Vec<String> = Vec::new();
    let mut i: usize = 0;
    while i < forms.len()
        invariant
            i <= forms@.len(),
            all == forms@.map_values(|s: String| s@),
            unique@.map_values(|s: String| s@) == first_occurrences(all.take(i as int)),
        decreases forms@.len() - i,
    {
        assert(all.take(i + 1).drop_last() =~= all.take(i as int));
        assert(all.take(i + 1).last() == forms@[i as int]@);
        let ghost before = unique@;
        if !holds_text(&unique, forms[i].as_str()) {
            unique.push(forms[i].clone());
            assert(unique@.map_values(|s: String| s@) =~= before.map_values(|s: String| s@).push(forms@[i as int]@));
        }
        i = i + 1;
    }
    assert(all.take(forms@.len() as int) =~= all);
    unique
}

/// The form to rename, and its new name.
pub struct FormNameChange {
    pub old_name: String,
    pub new_name: String,
}

/// Each form is offered once, every form is offered, and only forms people are in.
pub proof fn lemma_unique_forms(s: Seq<Seq<char>>)
    ensures
        first_occurrences(s).no_duplicates(),
        forall|t: Seq<char>| first_occurrences(s).contains(t) <==> s.contains(t),
    decreases s.len(),
{
    if s.len() > 0 {
        let rest = s.drop_last();
        lemma_unique_forms(rest);
        assert(s =~= rest.push(s.last()));
        let d = first_occurrences(rest);
        let last = s.last();
        assert forall|t: Seq<char>| first_occurrences(s).contains(t) <==> (d.contains(t) || t == last) by {
            if !d.contains(last) {
                assert(first_occurrences(s) == d.push(last));
                if d.push(last).contains(t) && t != last {
                    let k = choose|k: int| 0 <= k < d.len() + 1 && d.push(last)[k] == t;
                    assert(d[k] == t);
                }
                if d.contains(t) {
                    let k = choose|k: int| 0 <= k < d.len() && d[k] == t;
                    assert(d.push(last)[k] == t);
                }
                assert(d.push(last)[d.len() as int] == last);
            }
        }
        assert forall|t: Seq<char>| s.contains(t) <==> (rest.contains(t) || t == last) by {
            if s.contains(t) {
                let k = choose|k: int| 0 <= k < s.len() && s[k] == t;
                if k < rest.len() {
                    assert(rest[k] == t);
                }
            }
            if rest.contains(t) {
                let k = choose|k: int| 0 <= k < rest.len() && rest[k] == t;
                assert(s[k] == t);
            }
            assert(s[s.len() - 1] == last);
        }
        if !d.contains(s.last()) {
            assert(d.push(s.last()).no_duplicates()) by {
                assert forall|a: int, b: int| 0 <= a < d.len() + 1 && 0 <= b < d.len() + 1 && a != b implies d.push(s.last())[a] != d.push(s.last())[b] by {
                    if a == d.len() {
                        assert(d.contains(d[b]));
                    } else if b == d.len() {
                        assert(d.contains(d[a]));
                    }
                }
            }
        }
    }
}

} // verus!

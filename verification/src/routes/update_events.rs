//! What the event page computes: people grouped by form, who may still be added,
//! whether the signed-in user takes part, and who may take a participant off.
use vstd::prelude::*;
use crate::sorting::{KeyPart, key_order, key_views, is_stable_order, stable_sort_order};
use crate::text::{text_order, lemma_text_order_basics, lemma_text_order_transitive, owned, signed_decimal, signed_decimal_string};
use crate::auth::{PermissionsRole, role_rank};

verus! {

/// A run of people who share a form: positions `start..end` of the display order.
pub struct FormRange {
    pub form: String,
    pub start: usize,
    pub end: usize,
}

/// People grouped by form: `order` is the display order (indices into the input),
/// and `groups` cuts it into one run per form.
pub struct GroupedPeople {
    pub order: Vec<usize>,
    pub groups: Vec<FormRange>,
}

/// The sort key of a person on the event page: form, then surname.
pub open spec fn form_surname_key(form: String, surname: String) -> Seq<KeyPart> {
    seq![KeyPart::Text(form), KeyPart::Text(surname)]
}

/// The keys of all people.
pub open spec fn form_surname_keys(forms: Seq<String>, surnames: Seq<String>) -> Seq<Seq<KeyPart>> {
    Seq::new(forms.len(), |i: int| form_surname_key(forms[i], surnames[i]))
}

/// `grouped` is how the event page groups people: one group per form, groups in
/// ascending order of form, each group's people in ascending order of surname, and
/// people with the same form and surname in the order they came in.
pub open spec fn is_form_grouping(forms: Seq<String>, surnames: Seq<String>, grouped: GroupedPeople) -> bool {
    let order = grouped.order@;
    let groups = grouped.groups@;
    &&& is_stable_order(form_surname_keys(forms, surnames), order)
    &&& (order.len() == 0 <==> groups.len() == 0)
    &&& groups.len() > 0 ==> groups[0].start == 0 && groups.last().end == order.len()
    &&& forall|g: int| 0 <= g < groups.len() ==> #[trigger] groups[g].start < groups[g].end
    &&& forall|g: int| 0 <= g < groups.len() - 1 ==> #[trigger] groups[g].end == groups[g + 1].start
    &&& forall|g: int, k: int|
        #![trigger groups[g], order[k]]
        0 <= g < groups.len() && groups[g].start <= k < groups[g].end ==> forms[order[k] as int]@
            == groups[g].form@
    &&& forall|g: int| 0 <= g < groups.len() - 1 ==> text_order(#[trigger] groups[g].form@, groups[g + 1].form@) < 0
    &&& forall|g: int, k: int|
        #![trigger groups[g], order[k]]
        0 <= g < groups.len() && groups[g].start <= k && k + 1 < groups[g].end ==> {
            let a = order[k] as int;
            let b = order[k + 1] as int;
            &&& text_order(surnames[a]@, surnames[b]@) <= 0
            &&& text_order(surnames[a]@, surnames[b]@) == 0 ==> a < b
        }
}

fn form_surname_sort_keys(forms: &Vec<String>, surnames: &Vec<String>) -> (keys: Vec<Vec<KeyPart>>)
    requires
        forms@.len() == surnames@.len(),
    ensures
        key_views(keys@) == form_surname_keys(forms@, surnames@),
{
    let mut keys: Vec<Vec<KeyPart>> = Vec::new();
    let mut i: usize = 0;
    while i < forms.len()
        invariant
            i <= forms@.len(),
            forms@.len() == surnames@.len(),
            keys@.len() == i,
            forall|k: int| 0 <= k < i ==> #[trigger] keys@[k]@ == form_surname_key(forms@[k], surnames@[k]),
        decreases forms@.len() - i,
    {
        let mut key: Vec<KeyPart> = Vec::new();
        key.push(KeyPart::Text(forms[i].clone()));
        key.push(KeyPart::Text(surnames[i].clone()));
        assert(key@ =~= form_surname_key(forms@[i as int], surnames@[i as int]));
        keys.push(key);
        i = i + 1;
    }
    assert(key_views(keys@) =~= form_surname_keys(forms@, surnames@));
    keys
}

/// The runs of `order` that share a form, with the properties the grouping needs
/// except the one about surnames.
pub open spec fn is_form_runs(forms: Seq<String>, order: Seq<usize>, groups: Seq<FormRange>, k: int) -> bool {
    &&& (k == 0 <==> groups.len() == 0)
    &&& groups.len() > 0 ==> groups[0].start == 0 && groups.last().end == k
    &&& forall|g: int| 0 <= g < groups.len() ==> #[trigger] groups[g].start < groups[g].end
    &&& forall|g: int| 0 <= g < groups.len() ==> #[trigger] groups[g].end <= k
    &&& forall|g: int| 0 <= g < groups.len() - 1 ==> #[trigger] groups[g].end == groups[g + 1].start
    &&& forall|g: int, m: int|
        #![trigger groups[g], order[m]]
        0 <= g < groups.len() && groups[g].start <= m < groups[g].end ==> forms[order[m] as int]@
            == groups[g].form@
    &&& forall|g: int| 0 <= g < groups.len() - 1 ==> text_order(#[trigger] groups[g].form@, groups[g + 1].form@) < 0
}

proof fn lemma_forms_ascend(forms: Seq<String>, surnames: Seq<String>, order: Seq<usize>, a: int, b: int)
    requires
        forms.len() == surnames.len(),
        is_stable_order(form_surname_keys(forms, surnames), order),
        0 <= a < order.len() - 1,
        b == a + 1,
    ensures
        text_order(forms[order[a] as int]@, forms[order[b] as int]@) <= 0,
        forms[order[a] as int]@ == forms[order[b] as int]@ ==> {
            &&& text_order(surnames[order[a] as int]@, surnames[order[b] as int]@) <= 0
            &&& text_order(surnames[order[a] as int]@, surnames[order[b] as int]@) == 0 ==> order[a] < order[b]
        },
{
    let ks = form_surname_keys(forms, surnames);
    let x = order[a] as int;
    let y = order[b] as int;
    assert(key_order(ks[x], ks[y]) <= 0);
    lemma_text_order_basics(forms[x]@, forms[y]@);
    assert(ks[x][0] == KeyPart::Text(forms[x]));
    assert(ks[y][0] == KeyPart::Text(forms[y]));
    if forms[x]@ == forms[y]@ {
        let sx = seq![KeyPart::Text(surnames[x])];
        let sy = seq![KeyPart::Text(surnames[y])];
        assert(ks[x].drop_first() =~= sx);
        assert(ks[y].drop_first() =~= sy);
        assert(key_order(ks[x], ks[y]) == key_order(sx, sy));
        lemma_text_order_basics(surnames[x]@, surnames[y]@);
        assert(sx.drop_first() =~= Seq::<KeyPart>::empty());
        assert(sy.drop_first() =~= Seq::<KeyPart>::empty());
        assert(sx[0] == KeyPart::Text(surnames[x]));
        assert(sy[0] == KeyPart::Text(surnames[y]));
        assert(key_order(sx.drop_first(), sy.drop_first()) == 0);
        assert(key_order(sx, sy) == text_order(surnames[x]@, surnames[y]@));
    }
}

fn form_runs(forms: &Vec<String>, surnames: &Vec<String>, order: &Vec<usize>) -> (groups: Vec<FormRange>)
    requires
        forms@.len() == surnames@.len(),
        is_stable_order(form_surname_keys(forms@, surnames@), order@),
    ensures
        is_form_runs(forms@, order@, groups@, order@.len() as int),
{
    let ghost ks = form_surname_keys(forms@, surnames@);
    let n = order.len();
    let mut groups: Vec<FormRange> = Vec::new();
    let mut k: usize = 0;
    while k < n
        invariant
            n == order@.len(),
            forms@.len() == surnames@.len(),
            ks == form_surname_keys(forms@, surnames@),
            is_stable_order(ks, order@),
            k <= n,
            is_form_runs(forms@, order@, groups@, k as int),
            k < n && groups@.len() > 0 ==> forms@[order@[k as int] as int]@ != groups@.last().form@,
        decreases n - k,
    {
        let idx = order[k];
        let start = k;
        let mut end = k + 1;
        while end < n && crate::text::same_text(forms[order[end]].as_str(), forms[idx].as_str())
            invariant
                n == order@.len(),
                start < end <= n,
                forms@.len() == surnames@.len(),
                ks == form_surname_keys(forms@, surnames@),
                is_stable_order(ks, order@),
                idx == order@[start as int],
                forall|m: int| start <= m < end ==> #[trigger] forms@[order@[m] as int]@ == forms@[idx as int]@,
            decreases n - end,
        {
            end = end + 1;
        }
        proof {
            if groups@.len() > 0 {
                let last = groups@.last();
                let prev = order@[start - 1] as int;
                assert(groups@[groups@.len() - 1].start <= start - 1);
                assert(forms@[prev]@ == last.form@);
                lemma_forms_ascend(forms@, surnames@, order@, start - 1, start as int);
                lemma_text_order_basics(forms@[prev]@, forms@[idx as int]@);
            }
        }
        groups.push(FormRange { form: forms[idx].clone(), start, end });
        k = end;
    }
    groups
}

/// Groups people by form for the event and bonus-point pages: groups ordered by form,
/// people in each group ordered by surname, ties kept in the order given.
pub fn group_by_form(forms: &Vec<String>, surnames: &Vec<String>) -> (grouped: GroupedPeople)
    requires
        forms@.len() == surnames@.len(),
    ensures
        is_form_grouping(forms@, surnames@, grouped),
{
    let keys = form_surname_sort_keys(forms, surnames);
    let order = stable_sort_order(&keys);
    let groups = form_runs(forms, surnames, &order);
    let grouped = GroupedPeople { order, groups };
    proof {
        let gs = grouped.groups@;
        let o = grouped.order@;
        assert forall|g: int, m: int|
            #![trigger gs[g], o[m]]
            0 <= g < gs.len() && gs[g].start <= m && m + 1 < gs[g].end implies {
                let a = o[m] as int;
                let b = o[m + 1] as int;
                &&& text_order(surnames@[a]@, surnames@[b]@) <= 0
                &&& text_order(surnames@[a]@, surnames@[b]@) == 0 ==> a < b
            } by {
            assert(forms@[o[m] as int]@ == gs[g].form@);
            assert(forms@[o[m + 1] as int]@ == gs[g].form@);
            lemma_forms_ascend(forms@, surnames@, o, m, m + 1);
        }
    }
    grouped
}

/// Any two groups have different forms.
pub proof fn lemma_group_forms_distinct(forms: Seq<String>, surnames: Seq<String>, grouped: GroupedPeople, a: int, b: int)
    requires
        is_form_grouping(forms, surnames, grouped),
        0 <= a < b < grouped.groups@.len(),
    ensures
        text_order(grouped.groups@[a].form@, grouped.groups@[b].form@) < 0,
        grouped.groups@[a].form@ != grouped.groups@[b].form@,
    decreases b - a,
{
    let gs = grouped.groups@;
    if b == a + 1 {
    } else {
        lemma_group_forms_distinct(forms, surnames, grouped, a + 1, b);
        lemma_text_order_transitive(gs[a].form@, gs[a + 1].form@, gs[b].form@);
        lemma_text_order_basics(gs[a].form@, gs[b].form@);
        if text_order(gs[a].form@, gs[b].form@) == 0 {
            lemma_text_order_basics(gs[a + 1].form@, gs[b].form@);
            lemma_text_order_basics(gs[a].form@, gs[a + 1].form@);
            lemma_text_order_transitive(gs[b].form@, gs[a].form@, gs[a + 1].form@);
        }
    }
    lemma_text_order_basics(gs[a].form@, gs[b].form@);
}

/// The positions, in order, of the people not already on the list `taken`: who may
/// still be added.
pub open spec fn not_taken(ids: Seq<i32>, taken: Seq<i32>) -> Seq<int> {
    Seq::new(ids.len(), |i: int| i).filter(|i: int| !taken.contains(ids[i]))
}

/// The people (positions in `ids`) who may still be added to an event: those whose
/// id is not on the list `taken`, in the order given.
pub fn people_not_taken(ids: &Vec<i32>, taken: &Vec<i32>) -> (r: Vec<usize>)
    ensures
        r@.map_values(|i: usize| i as int) == not_taken(ids@, taken@),
{
    let ghost all = Seq::new(ids@.len(), |i: int| i);
    let ghost pred = |i: int| !taken@.contains(ids@[i]);
    let mut r: Vec<usize> = Vec::new();
    let mut i: usize = 0;
    while i < ids.len()
        invariant
            i <= ids@.len(),
            all == Seq::new(ids@.len(), |i: int| i),
            pred == |i: int| !taken@.contains(ids@[i]),
            r@.map_values(|x: usize| x as int) == all.take(i as int).filter(pred),
        decreases ids@.len() - i,
    {
        assert(all.take(i + 1).drop_last() =~= all.take(i as int));
        assert(all.take(i + 1).last() == i as int);
        reveal_with_fuel(Seq::filter, 1);
        let ghost before = r@;
        if !crate::routes::rewards::contains_id(taken, ids[i]) {
            r.push(i);
            assert(r@.map_values(|x: usize| x as int) =~= before.map_values(|x: usize| x as int).push(i as int));
        }
        i = i + 1;
    }
    assert(all.take(ids@.len() as int) =~= all);
    r
}

/// Whether the signed-in user takes part in the event, what the page says about it.
pub struct AlreadyIn {
    pub is_in: bool,
    pub past_date: bool,
    pub rel_id: i32,
}

/// The position of the first entry for `user` in a list of `(person, relation)`
/// entries, or -1.
pub open spec fn first_entry_for(entries: Seq<(i32, i32)>, user: i32) -> int
    decreases entries.len(),
{
    if entries.len() == 0 {
        -1
    } else if entries[0].0 == user {
        0
    } else if first_entry_for(entries.drop_first(), user) < 0 {
        -1
    } else {
        first_entry_for(entries.drop_first(), user) + 1
    }
}

proof fn lemma_first_entry_bounds(entries: Seq<(i32, i32)>, user: i32)
    ensures
        -1 <= first_entry_for(entries, user) < entries.len(),
    decreases entries.len(),
{
    if entries.len() > 0 {
        lemma_first_entry_bounds(entries.drop_first(), user);
    }
}

/// Whether the signed-in user (`None`: nobody) takes part in an event whose
/// participants, in the order the page shows them, are `entries` (person and relation
/// ids); `rel_id` is the relation of their first entry, or -1.
pub fn already_in(user_id: Option<i32>, entries: &Vec<(i32, i32)>, past_date: bool) -> (r: AlreadyIn)
    ensures
        r.past_date == past_date,
        match user_id {
            None => !r.is_in && r.rel_id == -1,
            Some(u) => {
                &&& r.is_in == (first_entry_for(entries@, u) >= 0)
                &&& r.is_in ==> r.rel_id == entries@[first_entry_for(entries@, u)].1
                &&& !r.is_in ==> r.rel_id == -1
            },
        },
{
    match user_id {
        None => AlreadyIn { is_in: false, past_date, rel_id: -1 },
        Some(u) => {
            let mut i: usize = 0;
            assert(entries@.skip(0) =~= entries@);
            proof {
                lemma_first_entry_bounds(entries@, u);
            }
            while i < entries.len()
                invariant
                    i <= entries@.len(),
                    user_id == Some(u),
                    -1 <= first_entry_for(entries@, u) < entries@.len(),
                    first_entry_for(entries@, u) == if first_entry_for(entries@.skip(i as int), u) < 0 {
                        -1
                    } else {
                        first_entry_for(entries@.skip(i as int), u) + i
                    },
                decreases entries@.len() - i,
            {
                assert(entries@.skip(i as int)[0] == entries@[i as int]);
                if entries[i].0 == u {
                    return AlreadyIn { is_in: true, past_date, rel_id: entries[i].1 };
                }
                assert(entries@.skip(i as int).drop_first() =~= entries@.skip(i + 1));
                i = i + 1;
            }
            AlreadyIn { is_in: false, past_date, rel_id: -1 }
        },
    }
}

/// Whether a user may take a participant off an event: prefects and above may take
/// anyone off, others only themselves.
pub open spec fn may_remove(role: PermissionsRole, user_id: i32, participant_id: i32) -> bool {
    !(role_rank(role) < role_rank(PermissionsRole::Prefect) && user_id != participant_id)
}

/// Decides whether a user may take a participant off an event.
pub fn may_remove_participant(role: PermissionsRole, user_id: i32, participant_id: i32) -> (r: bool)
    ensures
        r == may_remove(role, user_id, participant_id),
        r == (user_id == participant_id || role != PermissionsRole::Participant),
{
    !(!role.at_least(PermissionsRole::Prefect) && user_id != participant_id)
}

/// The page of an event.
pub open spec fn event_page(event_id: i32) -> Seq<char> {
    "/update_event/"@ + signed_decimal(event_id as int)
}

/// The path of the page of an event, where the event's forms send the user back.
pub fn update_event_path(event_id: i32) -> (p: String)
    ensures
        p@ == event_page(event_id),
{
    let mut p = owned("/update_event/");
    let id = signed_decimal_string(event_id);
    p.append(id.as_str());
    p
}


/// Who may take a participant off an event: anyone may take themselves off; a
/// participant may take no one else off; a prefect, an admin or a developer may take
/// anyone off. So a role may do it whenever any lower role may.
pub proof fn lemma_removal_rights(role: PermissionsRole, lower: PermissionsRole, higher: PermissionsRole, user_id: i32, participant_id: i32)
    ensures
        may_remove(role, user_id, user_id),
        may_remove(PermissionsRole::Participant, user_id, participant_id) <==> user_id == participant_id,
        role != PermissionsRole::Participant ==> may_remove(role, user_id, participant_id),
        role_rank(lower) <= role_rank(higher) && may_remove(lower, user_id, participant_id) ==> may_remove(higher, user_id, participant_id),
{
}

} // verus!

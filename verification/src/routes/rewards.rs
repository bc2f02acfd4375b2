//! Rewards: who has earned which reward, and the order the rewards page lists people.
use vstd::prelude::*;
use crate::sorting::{KeyPart, key_views, is_stable_order, stable_sort_order};

verus! {

/// A reward, with the points it takes: `first_entry_pts` for people who joined in
/// their first year, `second_entry_pts` for the others.
pub struct Reward {
    pub name: String,
    pub first_entry_pts: i32,
    pub second_entry_pts: i32,
    pub id: i32,
}

/// The form that hands a reward to a person.
pub struct AddReward {
    pub reward_id: i32,
    pub person_id: i32,
}

/// The points a person needs for `reward`.
pub open spec fn threshold(reward: Reward, was_first_entry: bool) -> i32 {
    if was_first_entry { reward.first_entry_pts } else { reward.second_entry_pts }
}

/// Whether a person with `total` points, who already has the rewards `received`,
/// is due `reward`.
pub open spec fn is_due(reward: Reward, received: Seq<i32>, was_first_entry: bool, total: i32) -> bool {
    !received.contains(reward.id) && total >= threshold(reward, was_first_entry)
}

/// The rewards a person is due, in the order the rewards are listed.
pub open spec fn rewards_due(rewards: Seq<Reward>, received: Seq<i32>, was_first_entry: bool, total: i32) -> Seq<Reward> {
    rewards.filter(|r: Reward| is_due(r, received, was_first_entry, total))
}

impl Reward {
    /// A copy of the reward.
    pub fn duplicate(&self) -> (r: Reward)
        ensures
            r == *self,
    {
        Reward {
            name: self.name.clone(),
            first_entry_pts: self.first_entry_pts,
            second_entry_pts: self.second_entry_pts,
            id: self.id,
        }
    }

    /// The points a person needs for the reward.
    pub fn threshold(&self, was_first_entry: bool) -> (t: i32)
        ensures
            t == threshold(*self, was_first_entry),
    {
        if was_first_entry { self.first_entry_pts } else { self.second_entry_pts }
    }
}

/// A copy of a list of rewards.
pub fn duplicate_rewards(rewards: &Vec<Reward>) -> (r: Vec<Reward>)
    ensures
        r@ == rewards@,
{
    let mut r: Vec<Reward> = Vec::new();
    let mut i: usize = 0;
    while i < rewards.len()
        invariant
            i <= rewards@.len(),
            r@ == rewards@.take(i as int),
        decreases rewards@.len() - i,
    {
        r.push(rewards[i].duplicate());
        assert(rewards@.take(i + 1) =~= rewards@.take(i as int).push(rewards@[i as int]));
        i = i + 1;
    }
    assert(rewards@.take(rewards@.len() as int) =~= rewards@);
    r
}

/// A person's points: one per verified event attended, plus their bonus points, each
/// count taken as a 32-bit integer.
pub open spec fn total_points_of(no_events: Option<i64>, bonus_points: Option<i64>) -> int {
    let e = match no_events { Some(n) => n, None => 0 };
    let b = match bonus_points { Some(n) => n, None => 0 };
    (e as i32) + (b as i32)
}

/// A person's points for the rewards page (a missing count counts as zero).
pub fn total_points(no_events: Option<i64>, bonus_points: Option<i64>) -> (t: i32)
    requires
        i32::MIN <= total_points_of(no_events, bonus_points) <= i32::MAX,
    ensures
        t == total_points_of(no_events, bonus_points),
{
    let e: i64 = match no_events { Some(n) => n, None => 0 };
    let b: i64 = match bonus_points { Some(n) => n, None => 0 };
    (e as i32) + (b as i32)
}

/// The rewards a person is to receive, or `None` when the page leaves them out:
/// when they already hold as many rewards as there are, or are due none.
pub open spec fn rewards_to_receive(rewards: Seq<Reward>, received: Seq<i32>, was_first_entry: bool, total: i32) -> Option<Seq<Reward>> {
    if received.len() == rewards.len() {
        None
    } else if rewards_due(rewards, received, was_first_entry, total).len() == 0 {
        None
    } else {
        Some(rewards_due(rewards, received, was_first_entry, total))
    }
}

/// Works out which rewards a person is to receive: the rewards they do not hold yet
/// and have enough points for, in the order the rewards are listed.
pub fn awards_to_receive(rewards: &Vec<Reward>, received: &Vec<i32>, was_first_entry: bool, total: i32) -> (r: Option<Vec<Reward>>)
    ensures
        match r {
            Some(v) => rewards_to_receive(rewards@, received@, was_first_entry, total) == Some(v@),
            None => rewards_to_receive(rewards@, received@, was_first_entry, total) is None,
        },
{
    if received.len() == rewards.len() {
        return None;
    }
    let ghost pred = |r: Reward| is_due(r, received@, was_first_entry, total);
    let mut due: Vec<Reward> = Vec::new();
    let mut i: usize = 0;
    while i < rewards.len()
        invariant
            i <= rewards@.len(),
            pred == |r: Reward| is_due(r, received@, was_first_entry, total),
            due@ == rewards@.take(i as int).filter(pred),
        decreases rewards@.len() - i,
    {
        let reward = &rewards[i];
        let held = crate::routes::rewards::contains_id(received, reward.id);
        assert(rewards@.take(i + 1).drop_last() =~= rewards@.take(i as int));
        reveal_with_fuel(Seq::filter, 1);
        if !held && total >= reward.threshold(was_first_entry) {
            due.push(reward.duplicate());
        }
        i = i + 1;
    }
    assert(rewards@.take(rewards@.len() as int) =~= rewards@);
    if due.len() == 0 {
        None
    } else {
        Some(due)
    }
}

/// Whether `ids` holds `id`.
pub fn contains_id(ids: &Vec<i32>, id: i32) -> (r: bool)
    ensures
        r == ids@.contains(id),
{
    let mut i: usize = 0;
    while i < ids.len()
        invariant
            i <= ids@.len(),
            forall|k: int| 0 <= k < i ==> ids@[k] != id,
        decreases ids@.len() - i,
    {
        if ids[i] == id {
            return true;
        }
        i = i + 1;
    }
    false
}

/// A person on the rewards page, with the rewards they are to receive (or have
/// received).
pub struct RewardRow {
    pub first_name: String,
    pub surname: String,
    pub form: String,
    pub id: i32,
    pub awards: Vec<Reward>,
    pub n_awards: usize,
}

impl RewardRow {
    /// A copy of the row.
    pub fn duplicate(&self) -> (r: RewardRow)
        ensures
            r.first_name == self.first_name,
            r.surname == self.surname,
            r.form == self.form,
            r.id == self.id,
            r.awards@ == self.awards@,
            r.n_awards == self.n_awards,
    {
        RewardRow {
            first_name: self.first_name.clone(),
            surname: self.surname.clone(),
            form: self.form.clone(),
            id: self.id,
            awards: duplicate_rewards(&self.awards),
            n_awards: self.n_awards,
        }
    }
}

/// The sort key of one reward: a marker, then the reward's fields in the order its
/// comparison takes them (name, points for first-year and for later entrants, id).
pub open spec fn reward_key(r: Reward) -> Seq<KeyPart> {
    seq![
        KeyPart::Num(1),
        KeyPart::Text(r.name),
        KeyPart::Num(r.first_entry_pts as i64),
        KeyPart::Num(r.second_entry_pts as i64),
        KeyPart::Num(r.id as i64),
    ]
}

/// The sort key of a list of rewards: the rewards' keys, then an end marker that
/// sorts before any further reward, so that a list sorts as a sequence does, a proper
/// prefix first.
pub open spec fn rewards_key(rs: Seq<Reward>) -> Seq<KeyPart>
    decreases rs.len(),
{
    if rs.len() == 0 {
        seq![KeyPart::Num(0)]
    } else {
        reward_key(rs[0]) + rewards_key(rs.drop_first())
    }
}

/// The sort key of a row: its rewards, then form, then surname.
pub open spec fn row_key(row: RewardRow) -> Seq<KeyPart> {
    rewards_key(row.awards@) + seq![KeyPart::Text(row.form), KeyPart::Text(row.surname)]
}

fn rewards_sort_key(rs: &Vec<Reward>) -> (k: Vec<KeyPart>)
    ensures
        k@ == rewards_key(rs@),
{
    let mut i: usize = rs.len();
    let mut tail: Vec<KeyPart> = Vec::new();
    tail.push(KeyPart::Num(0));
    assert(tail@ =~= rewards_key(rs@.skip(rs@.len() as int)));
    while i > 0
        invariant
            i <= rs@.len(),
            tail@ == rewards_key(rs@.skip(i as int)),
        decreases i,
    {
        i = i - 1;
        let r = &rs[i];
        let mut next: Vec<KeyPart> = Vec::new();
        next.push(KeyPart::Num(1));
        next.push(KeyPart::Text(r.name.clone()));
        next.push(KeyPart::Num(r.first_entry_pts as i64));
        next.push(KeyPart::Num(r.second_entry_pts as i64));
        next.push(KeyPart::Num(r.id as i64));
        let mut j: usize = 0;
        while j < tail.len()
            invariant
                j <= tail@.len(),
                next@ == reward_key(rs@[i as int]) + tail@.take(j as int),
            decreases tail@.len() - j,
        {
            let part = match &tail[j] {
                KeyPart::Num(n) => KeyPart::Num(*n),
                KeyPart::Text(t) => KeyPart::Text(t.clone()),
            };
            next.push(part);
            assert(tail@.take(j + 1) =~= tail@.take(j as int).push(tail@[j as int]));
            j = j + 1;
        }
        assert(tail@.take(tail@.len() as int) =~= tail@);
        assert(rs@.skip(i as int).drop_first() =~= rs@.skip(i + 1));
        assert(rs@.skip(i as int)[0] == rs@[i as int]);
        tail = next;
    }
    assert(rs@.skip(0) =~= rs@);
    tail
}

fn row_sort_key(row: &RewardRow) -> (k: Vec<KeyPart>)
    ensures
        k@ == row_key(*row),
{
    let mut k = rewards_sort_key(&row.awards);
    k.push(KeyPart::Text(row.form.clone()));
    k.push(KeyPart::Text(row.surname.clone()));
    assert(k@ =~= row_key(*row));
    k
}

/// The keys of a list of rows.
pub open spec fn row_keys(rows: Seq<RewardRow>) -> Seq<Seq<KeyPart>> {
    rows.map_values(|r: RewardRow| row_key(r))
}

/// Whether two rows hold the same data.
pub open spec fn same_row(a: RewardRow, b: RewardRow) -> bool {
    &&& a.first_name == b.first_name
    &&& a.surname == b.surname
    &&& a.form == b.form
    &&& a.id == b.id
    &&& a.awards@ == b.awards@
    &&& a.n_awards == b.n_awards
}

/// Puts rows in the order of the rewards page: by their rewards (as a list), then
/// by form, then by surname, rows that tie keeping their order.
pub fn sort_reward_rows(rows: &Vec<RewardRow>) -> (sorted: Vec<RewardRow>)
    ensures
        exists|p: Seq<usize>|
            #![trigger is_stable_order(row_keys(rows@), p)]
            is_stable_order(row_keys(rows@), p) && sorted@.len() == p.len() && forall|k: int|
                0 <= k < p.len() ==> same_row(#[trigger] sorted@[k], rows@[p[k] as int]),
{
    let mut keys: Vec<Vec<KeyPart>> = Vec::new();
    let mut i: usize = 0;
    while i < rows.len()
        invariant
            i <= rows@.len(),
            keys@.len() == i,
            forall|k: int| 0 <= k < i ==> #[trigger] keys@[k]@ == row_key(rows@[k]),
        decreases rows@.len() - i,
    {
        keys.push(row_sort_key(&rows[i]));
        i = i + 1;
    }
    assert(key_views(keys@) =~= row_keys(rows@));
    let order = stable_sort_order(&keys);
    let mut sorted: Vec<RewardRow> = Vec::new();
    let mut k: usize = 0;
    while k < order.len()
        invariant
            k <= order@.len(),
            is_stable_order(row_keys(rows@), order@),
            sorted@.len() == k,
            forall|m: int| 0 <= m < k ==> same_row(#[trigger] sorted@[m], rows@[order@[m] as int]),
        decreases order@.len() - k,
    {
        sorted.push(rows[order[k]].duplicate());
        k = k + 1;
    }
    sorted
}

/// A person's standing for the rewards page: their points, and the rewards they
/// already hold.
pub struct PersonTally {
    pub first_name: String,
    pub surname: String,
    pub form: String,
    pub id: i32,
    pub was_first_entry: bool,
    pub no_events: Option<i64>,
    pub total_bonus_points: Option<i64>,
    pub received: Vec<i32>,
}

/// The rewards a person is to receive, if the page lists them.
pub open spec fn tally_rewards(p: PersonTally, rewards: Seq<Reward>) -> Option<Seq<Reward>> {
    rewards_to_receive(rewards, p.received@, p.was_first_entry, total_points_of(p.no_events, p.total_bonus_points) as i32)
}

/// `row` lists `p` with the rewards they are to receive.
pub open spec fn row_for(row: RewardRow, p: PersonTally, rewards: Seq<Reward>) -> bool {
    &&& row.first_name == p.first_name
    &&& row.surname == p.surname
    &&& row.form == p.form
    &&& row.id == p.id
    &&& tally_rewards(p, rewards) == Some(row.awards@)
    &&& row.n_awards == row.awards@.len()
}

/// `rows` lists, in the order given, exactly the people who are to receive a reward.
pub open spec fn lists_due_people(rows: Seq<RewardRow>, people: Seq<PersonTally>, rewards: Seq<Reward>, picked: Seq<int>) -> bool {
    &&& picked.len() == rows.len()
    &&& forall|k: int| 0 <= k < picked.len() ==> 0 <= #[trigger] picked[k] < people.len()
    &&& forall|k: int| 0 <= k < picked.len() - 1 ==> #[trigger] picked[k] < picked[k + 1]
    &&& forall|k: int| 0 <= k < picked.len() ==> row_for(#[trigger] rows[k], people[picked[k]], rewards)
    &&& forall|i: int| 0 <= i < people.len() && !picked.contains(i) ==> tally_rewards(#[trigger] people[i], rewards) is None
}

/// Whether every person's points fit in a 32-bit integer.
pub open spec fn points_fit(people: Seq<PersonTally>) -> bool {
    forall|i: int| 0 <= i < people.len() ==> i32::MIN <= total_points_of(
        (#[trigger] people[i]).no_events,
        people[i].total_bonus_points,
    ) <= i32::MAX
}

/// The people who are to receive a reward, in the order given, each with the rewards
/// they are to receive.
pub fn rows_to_be_awarded(people: &Vec<PersonTally>, rewards: &Vec<Reward>) -> (rows: Vec<RewardRow>)
    requires
        points_fit(people@),
    ensures
        exists|picked: Seq<int>| #[trigger] lists_due_people(rows@, people@, rewards@, picked),
{
    let mut rows: Vec<RewardRow> = Vec::new();
    let ghost mut picked: Seq<int> = Seq::empty();
    let mut i: usize = 0;
    while i < people.len()
        invariant
            i <= people@.len(),
            points_fit(people@),
            picked.len() == rows@.len(),
            forall|k: int| 0 <= k < picked.len() ==> 0 <= #[trigger] picked[k] < i,
            forall|k: int| 0 <= k < picked.len() - 1 ==> #[trigger] picked[k] < picked[k + 1],
            forall|k: int| 0 <= k < picked.len() ==> row_for(#[trigger] rows@[k], people@[picked[k]], rewards@),
            forall|j: int| 0 <= j < i && !picked.contains(j) ==> tally_rewards(#[trigger] people@[j], rewards@) is None,
        decreases people@.len() - i,
    {
        let p = &people[i];
        let total = total_points(p.no_events, p.total_bonus_points);
        match awards_to_receive(rewards, &p.received, p.was_first_entry, total) {
            Some(awards) => {
                let n = awards.len();
                rows.push(RewardRow {
                    first_name: p.first_name.clone(),
                    surname: p.surname.clone(),
                    form: p.form.clone(),
                    id: p.id,
                    awards,
                    n_awards: n,
                });
                proof {
                    let old_picked = picked;
                    picked = picked.push(i as int);
                    assert forall|j: int| 0 <= j < i + 1 && !picked.contains(j) implies tally_rewards(
                        #[trigger] people@[j],
                        rewards@,
                    ) is None by {
                        if j < i {
                            if old_picked.contains(j) {
                                let w = choose|w: int| 0 <= w < old_picked.len() && old_picked[w] == j;
                                assert(picked[w] == j);
                            }
                        } else {
                            assert(picked[picked.len() - 1] == j);
                        }
                    }
                }
            },
            None => {
                proof {
                    assert forall|j: int| 0 <= j < i + 1 && !picked.contains(j) implies tally_rewards(
                        #[trigger] people@[j],
                        rewards@,
                    ) is None by {
                    }
                }
            },
        }
        i = i + 1;
    }
    assert(lists_due_people(rows@, people@, rewards@, picked));
    rows
}

/// The people to be handed rewards, in the rewards page's order: by the rewards they
/// are due, then by form, then by surname.
pub fn to_be_awarded(people: &Vec<PersonTally>, rewards: &Vec<Reward>) -> (rows: Vec<RewardRow>)
    requires
        points_fit(people@),
    ensures
        exists|due: Seq<RewardRow>, picked: Seq<int>, p: Seq<usize>|
            #![trigger lists_due_people(due, people@, rewards@, picked), is_stable_order(row_keys(due), p)]
            lists_due_people(due, people@, rewards@, picked) && is_stable_order(row_keys(due), p)
                && rows@.len() == p.len() && forall|k: int|
                0 <= k < p.len() ==> same_row(#[trigger] rows@[k], due[p[k] as int]),
{
    let due = rows_to_be_awarded(people, rewards);
    sort_reward_rows(&due)
}

/// The reward listed last with id `id` in `rewards`.
pub open spec fn reward_with_id(rewards: Seq<Reward>, id: i32) -> Reward {
    rewards[last_with_id(rewards, id)]
}

/// The rewards with the given ids, each the last reward listed with that id, or
/// `None` if an id is not a reward's.
pub fn lookup_rewards(rewards: &Vec<Reward>, ids: &Vec<i32>) -> (r: Option<Vec<Reward>>)
    ensures
        match r {
            Some(v) => {
                &&& v@ == ids@.map_values(|i: i32| reward_with_id(rewards@, i))
                &&& forall|k: int| 0 <= k < ids@.len() ==> 0 <= last_with_id(rewards@, #[trigger] ids@[k]) < rewards@.len()
            },
            None => exists|k: int| 0 <= k < ids@.len() && last_with_id(rewards@, #[trigger] ids@[k]) < 0,
        },
{
    let mut out: Vec<Reward> = Vec::new();
    let mut k: usize = 0;
    while k < ids.len()
        invariant
            k <= ids@.len(),
            out@ == ids@.take(k as int).map_values(|i: i32| reward_with_id(rewards@, i)),
            forall|m: int| 0 <= m < k ==> 0 <= last_with_id(rewards@, #[trigger] ids@[m]) < rewards@.len(),
        decreases ids@.len() - k,
    {
        let id = ids[k];
        match find_last_with_id(rewards, id) {
            Some(j) => {
                out.push(rewards[j].duplicate());
                assert(ids@.take(k + 1).map_values(|i: i32| reward_with_id(rewards@, i)) =~= ids@.take(
                    k as int,
                ).map_values(|i: i32| reward_with_id(rewards@, i)).push(reward_with_id(rewards@, id)));
            },
            None => {
                return None;
            },
        }
        k = k + 1;
    }
    assert(ids@.take(ids@.len() as int) =~= ids@);
    Some(out)
}

fn find_last_with_id(rewards: &Vec<Reward>, id: i32) -> (r: Option<usize>)
    ensures
        match r {
            Some(j) => j as int == last_with_id(rewards@, id) && j < rewards@.len(),
            None => last_with_id(rewards@, id) == -1,
        },
{
    let mut j: usize = rewards.len();
    assert(rewards@.take(rewards@.len() as int) =~= rewards@);
    while j > 0 && rewards[j - 1].id != id
        invariant
            j <= rewards@.len(),
            last_with_id(rewards@, id) == last_with_id(rewards@.take(j as int), id),
        decreases j,
    {
        assert(rewards@.take(j as int).drop_last() =~= rewards@.take(j - 1));
        j = j - 1;
    }
    if j == 0 {
        None
    } else {
        Some(j - 1)
    }
}

proof fn lemma_last_with_id_bounds(rewards: Seq<Reward>, id: i32)
    ensures
        -1 <= last_with_id(rewards, id) < rewards.len(),
        last_with_id(rewards, id) >= 0 ==> rewards[last_with_id(rewards, id)].id == id,
    decreases rewards.len(),
{
    if rewards.len() > 0 {
        lemma_last_with_id_bounds(rewards.drop_last(), id);
    }
}

/// The position of the last reward in `rewards` with id `id`, or -1.
pub open spec fn last_with_id(rewards: Seq<Reward>, id: i32) -> int
    decreases rewards.len(),
{
    if rewards.len() == 0 {
        -1
    } else if rewards.last().id == id {
        rewards.len() - 1
    } else {
        last_with_id(rewards.drop_last(), id)
    }
}

/// Received rewards, grouped by person: each person once, in the order they first
/// appear, with the ids of the rewards they received in the order given.
pub struct ReceivedGroup {
    pub person_id: i32,
    pub reward_ids: Vec<i32>,
}

/// `groups` gathers `(person, reward)` records by person, as the rewards page does:
/// one group for each person with at least one record, and no other.
pub open spec fn groups_received(records: Seq<(i32, i32)>, groups: Seq<ReceivedGroup>) -> bool {
    &&& forall|a: int, b: int| 0 <= a < b < groups.len() ==> (#[trigger] groups[a]).person_id != (#[trigger] groups[b]).person_id
    &&& forall|g: int| 0 <= g < groups.len() ==> (#[trigger] groups[g]).reward_ids@ == records.filter(
        |r: (i32, i32)| r.0 == groups[g].person_id,
    ).map_values(|r: (i32, i32)| r.1)
    &&& forall|i: int| 0 <= i < records.len() ==> exists|g: int| 0 <= g < groups.len() && (#[trigger] groups[g]).person_id == (#[trigger] records[i]).0
    &&& forall|g: int| 0 <= g < groups.len() ==> (#[trigger] groups[g]).reward_ids@.len() > 0
}

/// Gathers received rewards (`(person_id, reward_id)` records) by person.
pub fn group_received(records: &Vec<(i32, i32)>) -> (groups: Vec<ReceivedGroup>)
    ensures
        groups_received(records@, groups@),
{
    let mut groups: Vec<ReceivedGroup> = Vec::new();
    let mut i: usize = 0;
    while i < records.len()
        invariant
            i <= records@.len(),
            groups_received(records@.take(i as int), groups@),
        decreases records@.len() - i,
    {
        let (person, reward) = records[i];
        let ghost prev = records@.take(i as int);
        let ghost next = records@.take(i + 1);
        assert(next =~= prev.push((person, reward)));
        let mut g: usize = 0;
        while g < groups.len() && groups[g].person_id != person
            invariant
                g <= groups@.len(),
                forall|h: int| 0 <= h < g ==> (#[trigger] groups@[h]).person_id != person,
            decreases groups@.len() - g,
        {
            g = g + 1;
        }
        let ghost old_groups = groups@;
        if g < groups.len() {
            let mut ids = groups[g].reward_ids.clone();
            ids.push(reward);
            groups.set(g, ReceivedGroup { person_id: person, reward_ids: ids });
            assert(groups@ =~= old_groups.update(g as int, groups@[g as int]));
        } else {
            let mut ids: Vec<i32> = Vec::new();
            ids.push(reward);
            groups.push(ReceivedGroup { person_id: person, reward_ids: ids });
            assert(groups@.drop_last() =~= old_groups);
            assert(groups@[g as int].reward_ids@ =~= seq![reward]);
        }
        proof {
            lemma_group_step(prev, (person, reward), old_groups, groups@, g as int);
        }
        i = i + 1;
    }
    assert(records@.take(records@.len() as int) =~= records@);
    groups
}

proof fn lemma_group_step(
    prev: Seq<(i32, i32)>,
    rec: (i32, i32),
    old_groups: Seq<ReceivedGroup>,
    groups: Seq<ReceivedGroup>,
    g: int,
)
    requires
        groups_received(prev, old_groups),
        0 <= g <= old_groups.len(),
        forall|h: int| 0 <= h < g ==> (#[trigger] old_groups[h]).person_id != rec.0,
        g < old_groups.len() ==> old_groups[g].person_id == rec.0 && groups == old_groups.update(
            g,
            groups[g],
        ) && groups[g].person_id == rec.0 && groups[g].reward_ids@ == old_groups[g].reward_ids@.push(rec.1),
        g == old_groups.len() ==> groups.len() == old_groups.len() + 1 && groups.drop_last() == old_groups
            && groups[g].person_id == rec.0 && groups[g].reward_ids@ == seq![rec.1],
    ensures
        groups_received(prev.push(rec), groups),
{
    let next = prev.push(rec);
    assert forall|h: int| 0 <= h < groups.len() implies (#[trigger] groups[h]).reward_ids@ == next.filter(
        |r: (i32, i32)| r.0 == groups[h].person_id,
    ).map_values(|r: (i32, i32)| r.1) by {
        let f = |r: (i32, i32)| r.0 == groups[h].person_id;
        prev.lemma_filter_push(rec, f);
        if h == g {
            if g == old_groups.len() {
                assert(prev.filter(f).len() == 0) by {
                    if prev.filter(f).len() > 0 {
                        prev.lemma_filter_pred(f, 0);
                        prev.lemma_filter_contains_rev(f, prev.filter(f)[0]);
                        let w = choose|w: int| 0 <= w < prev.len() && prev[w] == prev.filter(f)[0];
                        let o = choose|o: int| 0 <= o < old_groups.len() && (#[trigger] old_groups[o]).person_id == prev[w].0;
                        assert(old_groups[o].person_id == rec.0);
                    }
                }
                assert(prev.filter(f).push(rec).map_values(|r: (i32, i32)| r.1) =~= seq![rec.1]);
            } else {
                assert(old_groups[h].person_id == groups[h].person_id);
                assert(prev.filter(f).push(rec).map_values(|r: (i32, i32)| r.1) =~= prev.filter(f).map_values(
                    |r: (i32, i32)| r.1,
                ).push(rec.1));
            }
        } else {
            assert(groups[h] == old_groups[h]);
            if h < g {
                assert(old_groups[h].person_id != rec.0);
            } else {
                assert(old_groups[h].person_id != old_groups[g].person_id);
            }
        }
    }
    assert forall|i: int| 0 <= i < next.len() implies exists|o: int| 0 <= o < groups.len() && (#[trigger] groups[o]).person_id == (#[trigger] next[i]).0 by {
        if i == prev.len() {
            assert(groups[g].person_id == next[i].0);
        } else {
            assert(next[i] == prev[i]);
            let o = choose|o: int| 0 <= o < old_groups.len() && (#[trigger] old_groups[o]).person_id == prev[i].0;
            if o == g {
                assert(groups[g].person_id == next[i].0);
            } else {
                assert(groups[o] == old_groups[o]);
            }
        }
    }
    assert forall|h: int| 0 <= h < groups.len() implies (#[trigger] groups[h]).reward_ids@.len() > 0 by {
        if h != g {
            assert(groups[h] == old_groups[h]);
        }
    }
    assert forall|a: int, b: int| 0 <= a < b < groups.len() implies (#[trigger] groups[a]).person_id != (#[trigger] groups[b]).person_id by {
        if b == g && g == old_groups.len() {
            assert(groups[a] == old_groups[a]);
        } else if a != g && b != g {
            assert(groups[a] == old_groups[a] && groups[b] == old_groups[b]);
        } else if a == g {
            assert(groups[b] == old_groups[b]);
        } else {
            assert(groups[a] == old_groups[a]);
        }
    }
}

/// A person is listed for exactly the rewards they do not hold yet and have enough
/// points for: never for one they already received.
pub proof fn lemma_rewards_due_exact(rewards: Seq<Reward>, received: Seq<i32>, was_first_entry: bool, total: i32, r: Reward)
    ensures
        rewards_due(rewards, received, was_first_entry, total).contains(r) <==> (rewards.contains(r) && !received.contains(r.id)
            && total >= threshold(r, was_first_entry)),
{
    let f = |x: Reward| is_due(x, received, was_first_entry, total);
    let due = rewards.filter(f);
    if due.contains(r) {
        let k = choose|k: int| 0 <= k < due.len() && due[k] == r;
        rewards.lemma_filter_pred(f, k);
        rewards.lemma_filter_contains_rev(f, r);
    }
    if rewards.contains(r) && f(r) {
        let k = choose|k: int| 0 <= k < rewards.len() && rewards[k] == r;
        rewards.lemma_filter_contains(f, k);
    }
}


/// The rewards already received are listed by person: there is a group for a person
/// exactly when they received at least one reward, and never two.
pub proof fn lemma_groups_are_the_receivers(records: Seq<(i32, i32)>, groups: Seq<ReceivedGroup>, person: i32)
    requires
        groups_received(records, groups),
    ensures
        (exists|g: int| 0 <= g < groups.len() && (#[trigger] groups[g]).person_id == person)
            <==> (exists|i: int| 0 <= i < records.len() && (#[trigger] records[i]).0 == person),
        forall|a: int, b: int| 0 <= a < b < groups.len() ==> (#[trigger] groups[a]).person_id != (#[trigger] groups[b]).person_id,
{
    if exists|g: int| 0 <= g < groups.len() && (#[trigger] groups[g]).person_id == person {
        let g = choose|g: int| 0 <= g < groups.len() && (#[trigger] groups[g]).person_id == person;
        let f = |r: (i32, i32)| r.0 == groups[g].person_id;
        assert(groups[g].reward_ids@.len() > 0);
        assert(records.filter(f).len() > 0);
        records.lemma_filter_pred(f, 0);
        records.lemma_filter_contains_rev(f, records.filter(f)[0]);
        let i = choose|i: int| 0 <= i < records.len() && records[i] == records.filter(f)[0];
        assert(records[i].0 == person);
    }
    if exists|i: int| 0 <= i < records.len() && (#[trigger] records[i]).0 == person {
        let i = choose|i: int| 0 <= i < records.len() && (#[trigger] records[i]).0 == person;
        let g = choose|g: int| 0 <= g < groups.len() && (#[trigger] groups[g]).person_id == (#[trigger] records[i]).0;
        assert(groups[g].person_id == person);
    }
}


/// A person's points are their count of verified events plus their bonus points, a
/// missing count counting as zero, whatever either count is (each fitting an `i32`,
/// as the page takes them).
pub proof fn lemma_total_is_events_plus_bonus(events: i64, bonus: i64)
    requires
        i32::MIN <= events <= i32::MAX,
        i32::MIN <= bonus <= i32::MAX,
    ensures
        total_points_of(Some(events), Some(bonus)) == events + bonus,
        total_points_of(None, Some(bonus)) == bonus,
        total_points_of(Some(events), None) == events,
        total_points_of(None, None) == 0,
{
}

} // verus!

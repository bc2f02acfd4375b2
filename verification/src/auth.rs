//! Roles, what each role may do, and the permission flags handed to every page.
pub mod add_password;
pub mod backend;
pub mod cloudflare_turnstile;
pub mod login;

use vstd::prelude::*;
use crate::state::db_objects::DbPerson;

verus! {

/// The role of a user. Each role may do everything the roles before it may do.
#[derive(Clone, Copy, PartialEq, Eq, Structural, Debug, PartialOrd, Ord)]
pub enum PermissionsRole {
    Participant,
    Prefect,
    Admin,
    Dev,
}

/// The position of a role in the order `Participant < Prefect < Admin < Dev`.
pub open spec fn role_rank(role: PermissionsRole) -> int {
    match role {
        PermissionsRole::Participant => 0,
        PermissionsRole::Prefect => 1,
        PermissionsRole::Admin => 2,
        PermissionsRole::Dev => 3,
    }
}

/// Something a user may be allowed to do.
#[derive(Clone, Copy, PartialEq, Eq, Structural, Debug, Hash)]
pub enum PermissionsTarget {
    DevAccess,
    ImportCSV,
    ExportCSV,
    RunMigrations,
    EditPeople,
    AddRewards,
    EditEvents,
    ViewPhotoAdders,
    EditPrefectsOnEvents,
    EditParticipantsOnEvents,
    VerifyEvents,
    AddRmSelfToEvent,
    SeePhotos,
    AddPhotos,
    SeePeople,
}

/// The least role that may do `target`.
pub open spec fn required_role(target: PermissionsTarget) -> PermissionsRole {
    match target {
        PermissionsTarget::DevAccess => PermissionsRole::Dev,
        PermissionsTarget::ImportCSV => PermissionsRole::Admin,
        PermissionsTarget::ExportCSV => PermissionsRole::Admin,
        PermissionsTarget::RunMigrations => PermissionsRole::Admin,
        PermissionsTarget::EditPeople => PermissionsRole::Admin,
        PermissionsTarget::AddRewards => PermissionsRole::Admin,
        PermissionsTarget::EditEvents => PermissionsRole::Prefect,
        PermissionsTarget::ViewPhotoAdders => PermissionsRole::Prefect,
        PermissionsTarget::EditPrefectsOnEvents => PermissionsRole::Prefect,
        PermissionsTarget::EditParticipantsOnEvents => PermissionsRole::Prefect,
        PermissionsTarget::VerifyEvents => PermissionsRole::Prefect,
        PermissionsTarget::AddRmSelfToEvent => PermissionsRole::Participant,
        PermissionsTarget::SeePhotos => PermissionsRole::Prefect,
        PermissionsTarget::AddPhotos => PermissionsRole::Prefect,
        PermissionsTarget::SeePeople => PermissionsRole::Prefect,
    }
}

/// Whether `role` may do `target`.
pub open spec fn allowed(target: PermissionsTarget, role: PermissionsRole) -> bool {
    role_rank(role) >= role_rank(required_role(target))
}

/// Every target, in declaration order.
pub open spec fn all_targets() -> Seq<PermissionsTarget> {
    seq![
        PermissionsTarget::DevAccess,
        PermissionsTarget::ImportCSV,
        PermissionsTarget::ExportCSV,
        PermissionsTarget::RunMigrations,
        PermissionsTarget::EditPeople,
        PermissionsTarget::AddRewards,
        PermissionsTarget::EditEvents,
        PermissionsTarget::ViewPhotoAdders,
        PermissionsTarget::EditPrefectsOnEvents,
        PermissionsTarget::EditParticipantsOnEvents,
        PermissionsTarget::VerifyEvents,
        PermissionsTarget::AddRmSelfToEvent,
        PermissionsTarget::SeePhotos,
        PermissionsTarget::AddPhotos,
        PermissionsTarget::SeePeople,
    ]
}

/// The name of a target as written in the source (`"DevAccess"`, `"ImportCSV"`, ...).
pub open spec fn target_name(target: PermissionsTarget) -> Seq<char> {
    match target {
        PermissionsTarget::DevAccess => "DevAccess"@,
        PermissionsTarget::ImportCSV => "ImportCSV"@,
        PermissionsTarget::ExportCSV => "ExportCSV"@,
        PermissionsTarget::RunMigrations => "RunMigrations"@,
        PermissionsTarget::EditPeople => "EditPeople"@,
        PermissionsTarget::AddRewards => "AddRewards"@,
        PermissionsTarget::EditEvents => "EditEvents"@,
        PermissionsTarget::ViewPhotoAdders => "ViewPhotoAdders"@,
        PermissionsTarget::EditPrefectsOnEvents => "EditPrefectsOnEvents"@,
        PermissionsTarget::EditParticipantsOnEvents => "EditParticipantsOnEvents"@,
        PermissionsTarget::VerifyEvents => "VerifyEvents"@,
        PermissionsTarget::AddRmSelfToEvent => "AddRmSelfToEvent"@,
        PermissionsTarget::SeePhotos => "SeePhotos"@,
        PermissionsTarget::AddPhotos => "AddPhotos"@,
        PermissionsTarget::SeePeople => "SeePeople"@,
    }
}

impl PermissionsRole {
    /// The position of the role in the order of roles.
    pub fn rank(self) -> (r: u8)
        ensures
            r as int == role_rank(self),
    {
        match self {
            PermissionsRole::Participant => 0,
            PermissionsRole::Prefect => 1,
            PermissionsRole::Admin => 2,
            PermissionsRole::Dev => 3,
        }
    }

    /// Whether this role is `other` or comes after it (`self >= other`).
    pub fn at_least(self, other: PermissionsRole) -> (r: bool)
        ensures
            r == (role_rank(self) >= role_rank(other)),
    {
        self.rank() >= other.rank()
    }

    /// Everything this role may do, in the order of `PermissionsTarget`'s variants.
    pub fn can(self) -> (targets: Vec<PermissionsTarget>)
        ensures
            targets@ == role_targets(self),
    {
        let all = PermissionsTarget::all();
        let mut targets: Vec<PermissionsTarget> = Vec::new();
        let mut i: usize = 0;
        while i < all.len()
            invariant
                i <= all@.len(),
                all@ == all_targets(),
                targets@ == all_targets().take(i as int).filter(|t: PermissionsTarget| allowed(t, self)),
            decreases all@.len() - i,
        {
            let t = all[i];
            assert(all_targets().take(i + 1).drop_last() =~= all_targets().take(i as int));
            reveal_with_fuel(Seq::filter, 1);
            if t.can(self) {
                targets.push(t);
            }
            i = i + 1;
        }
        assert(all_targets().take(all@.len() as int) =~= all_targets());
        targets
    }
}

impl PermissionsTarget {
    /// Whether `role` may do this.
    pub fn can(self, role: PermissionsRole) -> (r: bool)
        ensures
            r == allowed(self, role),
    {
        match self {
            PermissionsTarget::DevAccess => role.at_least(PermissionsRole::Dev),
            PermissionsTarget::ImportCSV => role.at_least(PermissionsRole::Admin),
            PermissionsTarget::ExportCSV => role.at_least(PermissionsRole::Admin),
            PermissionsTarget::RunMigrations => role.at_least(PermissionsRole::Admin),
            PermissionsTarget::EditPeople => role.at_least(PermissionsRole::Admin),
            PermissionsTarget::AddRewards => role.at_least(PermissionsRole::Admin),
            PermissionsTarget::EditEvents => role.at_least(PermissionsRole::Prefect),
            PermissionsTarget::ViewPhotoAdders => role.at_least(PermissionsRole::Prefect),
            PermissionsTarget::EditPrefectsOnEvents => role.at_least(PermissionsRole::Prefect),
            PermissionsTarget::EditParticipantsOnEvents => role.at_least(PermissionsRole::Prefect),
            PermissionsTarget::VerifyEvents => role.at_least(PermissionsRole::Prefect),
            PermissionsTarget::AddRmSelfToEvent => role.at_least(PermissionsRole::Participant),
            PermissionsTarget::SeePhotos => role.at_least(PermissionsRole::Prefect),
            PermissionsTarget::AddPhotos => role.at_least(PermissionsRole::Prefect),
            PermissionsTarget::SeePeople => role.at_least(PermissionsRole::Prefect),
        }
    }

    /// Every target, in declaration order.
    pub fn all() -> (v: Vec<PermissionsTarget>)
        ensures
            v@ == all_targets(),
    {
        let v = vec![
            PermissionsTarget::DevAccess,
            PermissionsTarget::ImportCSV,
            PermissionsTarget::ExportCSV,
            PermissionsTarget::RunMigrations,
            PermissionsTarget::EditPeople,
            PermissionsTarget::AddRewards,
            PermissionsTarget::EditEvents,
            PermissionsTarget::ViewPhotoAdders,
            PermissionsTarget::EditPrefectsOnEvents,
            PermissionsTarget::EditParticipantsOnEvents,
            PermissionsTarget::VerifyEvents,
            PermissionsTarget::AddRmSelfToEvent,
            PermissionsTarget::SeePhotos,
            PermissionsTarget::AddPhotos,
            PermissionsTarget::SeePeople,
        ];
        assert(v@ =~= all_targets());
        v
    }

    /// The variant's name as written in the source.
    pub fn name(self) -> (s: &'static str)
        ensures
            s@ == target_name(self),
    {
        match self {
            PermissionsTarget::DevAccess => "DevAccess",
            PermissionsTarget::ImportCSV => "ImportCSV",
            PermissionsTarget::ExportCSV => "ExportCSV",
            PermissionsTarget::RunMigrations => "RunMigrations",
            PermissionsTarget::EditPeople => "EditPeople",
            PermissionsTarget::AddRewards => "AddRewards",
            PermissionsTarget::EditEvents => "EditEvents",
            PermissionsTarget::ViewPhotoAdders => "ViewPhotoAdders",
            PermissionsTarget::EditPrefectsOnEvents => "EditPrefectsOnEvents",
            PermissionsTarget::EditParticipantsOnEvents => "EditParticipantsOnEvents",
            PermissionsTarget::VerifyEvents => "VerifyEvents",
            PermissionsTarget::AddRmSelfToEvent => "AddRmSelfToEvent",
            PermissionsTarget::SeePhotos => "SeePhotos",
            PermissionsTarget::AddPhotos => "AddPhotos",
            PermissionsTarget::SeePeople => "SeePeople",
        }
    }

    /// The name pages use for the target: the variant's name in snake case
    /// (`"dev_access"`, `"import_csv"`, ...).
    pub fn snake_name(self) -> (s: String)
        ensures
            s@ == snake_case_of(target_name(self)),
    {
        snake_case(self.name())
    }
}

/// What `change_case::snake_case` returns for a text.
pub uninterp spec fn snake_case_of(text: Seq<char>) -> Seq<char>;

/// `change_case::snake_case`: splits the text into words at case changes and at runs
/// of characters other than ASCII letters and digits, lower-cases them and joins them
/// with `_`. The contract names its result and says nothing more of it.
#[verifier::external_body]
fn snake_case(text: &str) -> (s: String)
    ensures
        s@ == snake_case_of(text@),
{
    change_case::snake_case(text)
}

/// Whether a page may show that `target` is allowed, for a visitor signed in with
/// `role`, or for one not signed in when `role` is `None`.
pub open spec fn flag_for(target: PermissionsTarget, role: Option<PermissionsRole>) -> bool {
    match role {
        Some(r) => allowed(target, r),
        None => false,
    }
}

/// One entry of the permission flags a page receives.
pub struct PermissionFlag {
    pub name: String,
    pub allowed: bool,
}

/// What every page is told about the visitor: whether they are signed in, a flag
/// for every target, and who they are.
pub struct AuthObject {
    pub is_logged_in: bool,
    pub permissions: Vec<PermissionFlag>,
    pub user: Option<DbPerson>,
}

/// The flags in target order: the snake-case name of each target, and whether the
/// visitor may do it.
pub open spec fn are_permission_flags(flags: Seq<PermissionFlag>, role: Option<PermissionsRole>) -> bool {
    &&& flags.len() == all_targets().len()
    &&& forall|i: int| 0 <= i < flags.len() ==> {
        &&& (#[trigger] flags[i]).name@ == snake_case_of(target_name(all_targets()[i]))
        &&& flags[i].allowed == flag_for(all_targets()[i], role)
    }
}

/// The permission flags for a visitor with `role` (`None`: not signed in).
pub fn permission_flags(role: Option<PermissionsRole>) -> (flags: Vec<PermissionFlag>)
    ensures
        are_permission_flags(flags@, role),
{
    let all = PermissionsTarget::all();
    let mut flags: Vec<PermissionFlag> = Vec::new();
    let mut i: usize = 0;
    while i < all.len()
        invariant
            i <= all@.len(),
            all@ == all_targets(),
            flags@.len() == i,
            forall|k: int| 0 <= k < i ==> {
                &&& (#[trigger] flags@[k]).name@ == snake_case_of(target_name(all_targets()[k]))
                &&& flags@[k].allowed == flag_for(all_targets()[k], role)
            },
        decreases all@.len() - i,
    {
        let t = all[i];
        let allowed = match role {
            Some(r) => t.can(r),
            None => false,
        };
        flags.push(PermissionFlag { name: t.snake_name(), allowed });
        i = i + 1;
    }
    flags
}

/// What the pages are told about the visitor `user` (`None`: not signed in). A
/// signed-in user may do what their role allows, and nothing else.
pub fn get_auth_object(user: Option<DbPerson>) -> (aa: AuthObject)
    ensures
        aa.is_logged_in == user is Some,
        are_permission_flags(aa.permissions@, match user { Some(u) => Some(u.permissions), None => None }),
        aa.user == user,
{
    match user {
        Some(u) => {
            let permissions = permission_flags(Some(u.permissions));
            AuthObject { is_logged_in: true, permissions, user: Some(u) }
        },
        None => {
            let permissions = permission_flags(None);
            AuthObject { is_logged_in: false, permissions, user: None }
        },
    }
}

/// A role may do everything that any role before it may do.
pub proof fn lemma_roles_monotone(target: PermissionsTarget, lower: PermissionsRole, higher: PermissionsRole)
    requires
        role_rank(lower) <= role_rank(higher),
        allowed(target, lower),
    ensures
        allowed(target, higher),
{
}

/// `Dev` may do everything; `Participant` may only add or remove themselves from
/// events.
pub proof fn lemma_extreme_roles(target: PermissionsTarget)
    ensures
        allowed(target, PermissionsRole::Dev),
        allowed(target, PermissionsRole::Participant) <==> target == PermissionsTarget::AddRmSelfToEvent,
{
}

spec fn target_index(target: PermissionsTarget) -> int {
    match target {
        PermissionsTarget::DevAccess => 0,
        PermissionsTarget::ImportCSV => 1,
        PermissionsTarget::ExportCSV => 2,
        PermissionsTarget::RunMigrations => 3,
        PermissionsTarget::EditPeople => 4,
        PermissionsTarget::AddRewards => 5,
        PermissionsTarget::EditEvents => 6,
        PermissionsTarget::ViewPhotoAdders => 7,
        PermissionsTarget::EditPrefectsOnEvents => 8,
        PermissionsTarget::EditParticipantsOnEvents => 9,
        PermissionsTarget::VerifyEvents => 10,
        PermissionsTarget::AddRmSelfToEvent => 11,
        PermissionsTarget::SeePhotos => 12,
        PermissionsTarget::AddPhotos => 13,
        PermissionsTarget::SeePeople => 14,
    }
}

proof fn lemma_filter_no_duplicates<A>(s: Seq<A>, p: spec_fn(A) -> bool)
    requires
        s.no_duplicates(),
    ensures
        s.filter(p).no_duplicates(),
    decreases s.len(),
{
    if s.len() > 0 {
        let rest = s.drop_last();
        let x = s.last();
        assert(rest.push(x) =~= s);
        assert(rest.no_duplicates());
        lemma_filter_no_duplicates(rest, p);
        rest.lemma_filter_push(x, p);
        if p(x) {
            let fr = rest.filter(p);
            if fr.contains(x) {
                rest.lemma_filter_contains_rev(p, x);
                let k = choose|k: int| 0 <= k < rest.len() && rest[k] == x;
                assert(s[k] == s[s.len() - 1]);
            }
            assert(fr.push(x).no_duplicates()) by {
                assert forall|a: int, b: int| 0 <= a < fr.len() + 1 && 0 <= b < fr.len() + 1 && a != b
                    implies fr.push(x)[a] != fr.push(x)[b] by {
                    if a == fr.len() {
                        assert(fr.contains(fr[b]));
                    } else if b == fr.len() {
                        assert(fr.contains(fr[a]));
                    }
                }
            }
        }
    }
}

/// The targets a role may do, in declaration order: what `role.can()` returns.
pub open spec fn role_targets(role: PermissionsRole) -> Seq<PermissionsTarget> {
    all_targets().filter(|t: PermissionsTarget| allowed(t, role))
}

/// `role.can()` holds each target that the role may do, and each of them once.
pub proof fn lemma_can_is_exact(role: PermissionsRole, target: PermissionsTarget)
    ensures
        role_targets(role).contains(target) <==> allowed(target, role),
        role_targets(role).no_duplicates(),
{
    let f = |t: PermissionsTarget| allowed(t, role);
    let all = all_targets();
    assert(all.no_duplicates());
    let i = target_index(target);
    assert(0 <= i < all.len() && all[i] == target);
    if allowed(target, role) {
        all.lemma_filter_contains(f, i);
    }
    if all.filter(f).contains(target) {
        let k = choose|k: int| 0 <= k < all.filter(f).len() && all.filter(f)[k] == target;
        all.lemma_filter_pred(f, k);
    }
    lemma_filter_no_duplicates(all, f);
}

} // verus!

//! Custom-role grants and the directory that holds the active ones, one per
//! user.

use std::collections::{HashMap, HashSet};
use vstd::prelude::*;
use vstd::std_specs::hash::*;

verus! {

broadcast use vstd::std_specs::hash::group_hash_axioms;

/// The hash by which the platform names an image: sixteen bytes, and
/// whether the image moves.
#[derive(Debug, Clone, Copy, PartialEq, Eq)]
pub struct IconHash {
    pub animated: bool,
    pub bytes: [u8; 16],
}

/// The icon of a role, as the platform reports it.
#[derive(Debug, PartialEq, Eq)]
pub enum RoleIcon {
    Custom(IconHash),
    Unicode(String),
    Absent,
}

impl Default for RoleIcon {
    fn default() -> (icon: RoleIcon)
        ensures
            icon == RoleIcon::Absent,
    {
        RoleIcon::Absent
    }
}

impl Clone for RoleIcon {
    fn clone(&self) -> (icon: RoleIcon)
        ensures
            icon == *self,
    {
        match self {
            RoleIcon::Custom(hash) => RoleIcon::Custom(*hash),
            RoleIcon::Unicode(emoji) => RoleIcon::Unicode(emoji.clone()),
            RoleIcon::Absent => RoleIcon::Absent,
        }
    }
}

/// A custom-role grant. The name, the colour, the icon and the mentionable
/// flag mirror what the platform shows and decide nothing here.
#[derive(Debug, PartialEq, Eq)]
pub struct CustomRole {
    pub role_id: u64,
    pub user_id: u64,
    pub auto_renewal: bool,
    /// The second at which the grant lapses; a grant without one never does.
    pub expires_at: Option<u64>,
    pub name: String,
    pub color: u32,
    pub icon: RoleIcon,
    pub mentionable: bool,
}

impl Clone for CustomRole {
    fn clone(&self) -> (role: CustomRole)
        ensures
            role == *self,
    {
        CustomRole {
            role_id: self.role_id,
            user_id: self.user_id,
            auto_renewal: self.auto_renewal,
            expires_at: self.expires_at,
            name: self.name.clone(),
            color: self.color,
            icon: self.icon.clone(),
            mentionable: self.mentionable,
        }
    }
}

/// A role of the guild as the platform shows it.
#[derive(Debug, PartialEq, Eq)]
pub struct GuildRole {
    pub id: u64,
    pub name: String,
    pub color: u32,
    pub icon: Option<IconHash>,
    pub unicode_emoji: Option<String>,
    pub mentionable: bool,
}

/// The icon a role is shown with: its image if it has one, else its emoji
/// if it has one.
pub open spec fn shown_icon(role: GuildRole) -> RoleIcon {
    match role.icon {
        Some(hash) => RoleIcon::Custom(hash),
        None => match role.unicode_emoji {
            Some(emoji) => RoleIcon::Unicode(emoji),
            None => RoleIcon::Absent,
        },
    }
}

/// A grant that shows what `role` shows.
pub open spec fn shown_as(grant: CustomRole, role: GuildRole) -> CustomRole {
    CustomRole {
        name: role.name,
        color: role.color,
        icon: shown_icon(role),
        mentionable: role.mentionable,
        ..grant
    }
}

/// A grant after the roles of the guild were gone through in order: it
/// shows what the last of them with the id of its role shows, and what it
/// showed before if there is none.
pub open spec fn displayed(grant: CustomRole, roles: Seq<GuildRole>) -> CustomRole
    decreases roles.len(),
{
    if roles.len() == 0 {
        grant
    } else if roles.last().id == grant.role_id {
        shown_as(displayed(grant, roles.drop_last()), roles.last())
    } else {
        displayed(grant, roles.drop_last())
    }
}

/// What is shown changes neither the owner of a grant nor its role.
pub proof fn lemma_displayed_keeps_ids(grant: CustomRole, roles: Seq<GuildRole>)
    ensures
        displayed(grant, roles).user_id == grant.user_id,
        displayed(grant, roles).role_id == grant.role_id,
        displayed(grant, roles).expires_at == grant.expires_at,
        displayed(grant, roles).auto_renewal == grant.auto_renewal,
    decreases roles.len(),
{
    if roles.len() > 0 {
        lemma_displayed_keeps_ids(grant, roles.drop_last());
    }
}

/// The grant as it is shown after the roles of the guild were gone through.
pub fn display(grant: &CustomRole, roles: &Vec<GuildRole>) -> (shown: CustomRole)
    ensures
        shown == displayed(*grant, roles@),
{
    let mut shown = grant.clone();
    let mut i: usize = 0;
    assert(roles@.take(0) =~= Seq::<GuildRole>::empty());
    while i < roles.len()
        invariant
            0 <= i <= roles.len(),
            shown == displayed(*grant, roles@.take(i as int)),
        decreases roles.len() - i,
    {
        let role = &roles[i];
        proof {
            assert(roles@.take(i + 1).drop_last() =~= roles@.take(i as int));
            lemma_displayed_keeps_ids(*grant, roles@.take(i as int));
        }
        if role.id == grant.role_id {
            shown.name = role.name.clone();
            shown.color = role.color;
            shown.mentionable = role.mentionable;
            shown.icon = match &role.icon {
                Some(hash) => RoleIcon::Custom(*hash),
                None => match &role.unicode_emoji {
                    Some(emoji) => RoleIcon::Unicode(emoji.clone()),
                    None => RoleIcon::Absent,
                },
            };
        }
        i = i + 1;
    }
    assert(roles@.take(i as int) =~= roles@);
    shown
}

/// The grant has a deadline, the deadline lies before `now`, and its owner
/// is not among the boosters.
pub open spec fn lapsed(role: CustomRole, boosters: Set<u64>, now: u64) -> bool {
    &&& role.expires_at matches Some(deadline)
    &&& deadline < now
    &&& !boosters.contains(role.user_id)
}

/// The directory that comes of entering `roles` one after the other: of two
/// grants of one user the later one stays.
pub open spec fn directory_of(roles: Seq<CustomRole>) -> Map<u64, CustomRole>
    decreases roles.len(),
{
    if roles.len() == 0 {
        Map::empty()
    } else {
        directory_of(roles.drop_last()).insert(roles.last().user_id, roles.last())
    }
}

/// Every grant of the directory is entered under its owner.
pub open spec fn keyed_by_owner(directory: Map<u64, CustomRole>) -> bool {
    forall|user_id: u64| #[trigger]
        directory.contains_key(user_id) ==> directory[user_id].user_id == user_id
}

/// What a scan at `now` leaves in the directory: the grants that have not
/// lapsed.
pub open spec fn remaining(directory: Map<u64, CustomRole>, boosters: Set<u64>, now: u64) -> Map<
    u64,
    CustomRole,
> {
    directory.remove_keys(
        Set::new(
            |user_id: u64|
                directory.contains_key(user_id) && lapsed(directory[user_id], boosters, now),
        ),
    )
}

/// `expired` lists the lapsed grants of `directory`, each once, in some
/// order.
pub open spec fn lists_lapsed(
    expired: Seq<CustomRole>,
    directory: Map<u64, CustomRole>,
    boosters: Set<u64>,
    now: u64,
) -> bool {
    &&& forall|i: int|
        0 <= i < expired.len() ==> directory.contains_key((#[trigger] expired[i]).user_id)
            && directory[expired[i].user_id] == expired[i] && lapsed(expired[i], boosters, now)
    &&& forall|i: int, j: int|
        0 <= i < j < expired.len() ==> (#[trigger] expired[i]).user_id != (
        #[trigger] expired[j]).user_id
    &&& forall|user_id: u64|
        directory.contains_key(user_id) && lapsed(#[trigger] directory[user_id], boosters, now)
            ==> exists|i: int| 0 <= i < expired.len() && #[trigger] expired[i] == directory[user_id]
}

/// Whether `role` has lapsed at `now`, given who boosts.
pub fn is_lapsed(role: &CustomRole, boosters: &HashSet<u64>, now: u64) -> (due: bool)
    ensures
        due == lapsed(*role, boosters@, now),
{
    match role.expires_at {
        Some(deadline) => deadline < now && !boosters.contains(&role.user_id),
        None => false,
    }
}

/// No other grant of the directory is for the role of `user_id`'s grant.
pub open spec fn sole_holder(directory: Map<u64, CustomRole>, user_id: u64) -> bool {
    forall|other: u64|
        directory.contains_key(other) && other != user_id ==> (#[trigger] directory[other]).role_id
            != directory[user_id].role_id
}

/// Some owner after place `k` in `owners` holds a grant for the same role
/// as the owner at place `k`.
pub open spec fn shared_later(directory: Map<u64, CustomRole>, owners: Seq<u64>, k: int) -> bool {
    exists|j: int|
        k < j < owners.len() && directory[#[trigger] owners[j]].role_id
            == directory[owners[k]].role_id
}

/// Among the owners from place `k` on that hold a grant for the same role as
/// the owner at place `k`, one comes last.
pub proof fn lemma_last_holder(directory: Map<u64, CustomRole>, owners: Seq<u64>, k: int) -> (last: int)
    requires
        0 <= k < owners.len(),
    ensures
        k <= last < owners.len(),
        directory[owners[last]].role_id == directory[owners[k]].role_id,
        !shared_later(directory, owners, last),
    decreases owners.len() - k,
{
    if shared_later(directory, owners, k) {
        let j = choose|j: int|
            k < j < owners.len() && directory[#[trigger] owners[j]].role_id
                == directory[owners[k]].role_id;
        lemma_last_holder(directory, owners, j)
    } else {
        k
    }
}

/// `after` is `before` brought in line with the roles of the guild. Every
/// grant is still there, and shows either what it showed or what the guild's
/// roles make it show. A grant that alone is for its role shows what they
/// make it show, and of the grants that share a role at least one does.
pub open spec fn brought_in_line(
    before: Map<u64, CustomRole>,
    after: Map<u64, CustomRole>,
    roles: Seq<GuildRole>,
) -> bool {
    &&& after.dom() == before.dom()
    &&& forall|user_id: u64| #[trigger]
        before.contains_key(user_id) ==> after[user_id] == before[user_id] || after[user_id]
            == displayed(before[user_id], roles)
    &&& forall|user_id: u64| #[trigger]
        before.contains_key(user_id) && sole_holder(before, user_id) ==> after[user_id]
            == displayed(before[user_id], roles)
    &&& forall|user_id: u64| #[trigger]
        before.contains_key(user_id) ==> exists|holder: u64| #[trigger]
            before.contains_key(holder) && before[holder].role_id == before[user_id].role_id
                && after[holder] == displayed(before[holder], roles)
}

/// The directory of active grants.
#[derive(Debug)]
pub struct UserCustomRole(HashMap<u64, CustomRole>);

impl View for UserCustomRole {
    type V = Map<u64, CustomRole>;

    closed spec fn view(&self) -> Map<u64, CustomRole> {
        self.0@
    }
}

impl UserCustomRole {
    /// Every grant is entered under its owner.
    pub open spec fn wf(&self) -> bool {
        keyed_by_owner(self@)
    }

    /// The directory of the grants in `collection`, as loaded from the
    /// store.
    pub fn new(collection: Vec<CustomRole>) -> (directory: UserCustomRole)
        ensures
            directory.wf(),
            directory@ == directory_of(collection@),
    {
        let mut map: HashMap<u64, CustomRole> = HashMap::new();
        let mut i: usize = 0;
        assert(collection@.take(0) =~= Seq::<CustomRole>::empty());
        while i < collection.len()
            invariant
                0 <= i <= collection.len(),
                map@ == directory_of(collection@.take(i as int)),
                keyed_by_owner(map@),
            decreases collection.len() - i,
        {
            let role = collection[i].clone();
            proof {
                assert(collection@.take(i + 1).drop_last() =~= collection@.take(i as int));
            }
            map.insert(role.user_id, role);
            i = i + 1;
        }
        assert(collection@.take(i as int) =~= collection@);
        UserCustomRole(map)
    }

    /// The owners of all grants, each once, in no particular order.
    pub fn owners(&self) -> (owners: Vec<u64>)
        ensures
            owners@.no_duplicates(),
            owners@.to_set() == self@.dom(),
    {
        let mut owners: Vec<u64> = Vec::new();
        for user_id in it: self.0.keys()
            invariant
                owners@ == it.seq().unref().take(it.index()),
                it.seq().unref().no_duplicates(),
                it.seq().unref().to_set() == self@.dom(),
                it.index() == it.seq().len() ==> owners@ == it.seq().unref(),
        {
            proof {
                assert(owners@.push(*user_id) =~= it.seq().unref().take(it.index() + 1));
            }
            owners.push(*user_id);
        }
        owners
    }

    /// The grant of `user_id`, if it has one.
    pub fn get(&self, user_id: u64) -> (role: Option<CustomRole>)
        ensures
            role == if self@.contains_key(user_id) {
                Some(self@[user_id])
            } else {
                None
            },
    {
        match self.0.get(&user_id) {
            Some(role) => Some(role.clone()),
            None => None,
        }
    }

    /// Takes the grant of `user_id` out of the directory and hands it back.
    pub fn remove(&mut self, user_id: u64) -> (role: Option<CustomRole>)
        requires
            old(self).wf(),
        ensures
            final(self).wf(),
            final(self)@ == old(self)@.remove(user_id),
            role == if old(self)@.contains_key(user_id) {
                Some(old(self)@[user_id])
            } else {
                None
            },
    {
        self.0.remove(&user_id)
    }

    /// Takes every grant that has lapsed at `now` out of the directory and
    /// hands them back. A grant without a deadline stays, and so does a
    /// grant whose owner is among `boosters`, however long past its
    /// deadline.
    pub fn extract_expired(&mut self, boosters: &HashSet<u64>, now: u64) -> (expired: Vec<
        CustomRole,
    >)
        requires
            old(self).wf(),
        ensures
            final(self).wf(),
            final(self)@ == remaining(old(self)@, boosters@, now),
            lists_lapsed(expired@, old(self)@, boosters@, now),
    {
        let owners = self.owners();
        let ghost before = self@;
        let mut expired: Vec<CustomRole> = Vec::new();
        let mut i: usize = 0;
        while i < owners.len()
            invariant
                0 <= i <= owners.len(),
                owners@.no_duplicates(),
                owners@.to_set() == before.dom(),
                keyed_by_owner(before),
                self.wf(),
                forall|user_id: u64|
                    self@.contains_key(user_id) <==> before.contains_key(user_id) && !(
                    owners@.take(i as int).contains(user_id) && lapsed(
                        before[user_id],
                        boosters@,
                        now,
                    )),
                forall|user_id: u64| #[trigger]
                    self@.contains_key(user_id) ==> self@[user_id] == before[user_id],
                forall|k: int|
                    0 <= k < expired@.len() ==> before.contains_key((#[trigger] expired@[k]).user_id)
                        && before[expired@[k].user_id] == expired@[k] && lapsed(
                        expired@[k],
                        boosters@,
                        now,
                    ) && owners@.take(i as int).contains(expired@[k].user_id),
                forall|k: int, l: int|
                    0 <= k < l < expired@.len() ==> (#[trigger] expired@[k]).user_id != (
                    #[trigger] expired@[l]).user_id,
                forall|k: int|
                    0 <= k < i && lapsed(before[#[trigger] owners@[k]], boosters@, now)
                        ==> exists|l: int|
                        0 <= l < expired@.len() && #[trigger] expired@[l] == before[owners@[k]],
            decreases owners.len() - i,
        {
            let user_id = owners[i];
            let ghost taken_before = expired@;
            proof {
                assert(owners@.to_set().contains(user_id));
                assert(before.contains_key(user_id));
                assert(!owners@.take(i as int).contains(user_id));
                assert(owners@.take(i + 1) =~= owners@.take(i as int).push(user_id));
            }
            let due = match self.0.get(&user_id) {
                Some(role) => is_lapsed(role, boosters, now),
                None => false,
            };
            if due {
                if let Some(role) = self.0.remove(&user_id) {
                    expired.push(role);
                }
            }
            proof {
                let earlier = owners@.take(i as int);
                let upto = owners@.take(i + 1);
                assert forall|other: u64| upto.contains(other) <==> (earlier.contains(other)
                    || other == user_id) by {
                    if upto.contains(other) {
                        let k = choose|k: int| 0 <= k < upto.len() && upto[k] == other;
                        if k < i {
                            assert(earlier[k] == other);
                        }
                    }
                    if earlier.contains(other) {
                        let k = choose|k: int| 0 <= k < earlier.len() && earlier[k] == other;
                        assert(upto[k] == other);
                    }
                    if other == user_id {
                        assert(upto[i as int] == other);
                    }
                }
                assert forall|k: int|
                    0 <= k < i + 1 && lapsed(
                        before[#[trigger] owners@[k]],
                        boosters@,
                        now,
                    ) implies exists|l: int|
                    0 <= l < expired@.len() && #[trigger] expired@[l] == before[owners@[k]] by {
                    if k < i {
                        let l = choose|l: int|
                            0 <= l < taken_before.len() && #[trigger] taken_before[l]
                                == before[owners@[k]];
                        assert(expired@[l] == before[owners@[k]]);
                    } else {
                        assert(expired@[expired@.len() - 1] == before[user_id]);
                    }
                }
            }
            i = i + 1;
        }
        proof {
            assert(owners@.take(i as int) =~= owners@);
            assert(self@ =~= remaining(before, boosters@, now)) by {
                assert forall|user_id: u64| before.contains_key(user_id) implies owners@.contains(
                    user_id,
                ) by {
                    assert(owners@.to_set().contains(user_id));
                }
            }
            assert forall|user_id: u64|
                before.contains_key(user_id) && lapsed(
                    #[trigger] before[user_id],
                    boosters@,
                    now,
                ) implies exists|l: int|
                0 <= l < expired@.len() && #[trigger] expired@[l] == before[user_id] by {
                assert(owners@.to_set().contains(user_id));
                let k = choose|k: int| 0 <= k < owners@.len() && owners@[k] == user_id;
                assert(lapsed(before[owners@[k]], boosters@, now));
            }
        }
        expired
    }

    /// Brings what the grants show in line with the roles of the guild:
    /// the grant for a role shows what the guild's role of that id shows, the
    /// last of them if there are several. Where several grants are for one
    /// role, one of them is brought in line and the others stay as they are.
    /// A grant for a role that the guild does not list stays as it is.
    pub fn sync_display(&mut self, roles: &Vec<GuildRole>)
        requires
            old(self).wf(),
        ensures
            final(self).wf(),
            brought_in_line(old(self)@, final(self)@, roles@),
    {
        let owners = self.owners();
        let ghost before = self@;
        let mut i: usize = 0;
        while i < owners.len()
            invariant
                0 <= i <= owners.len(),
                owners@.no_duplicates(),
                owners@.to_set() == before.dom(),
                keyed_by_owner(before),
                self.wf(),
                self@.dom() == before.dom(),
                forall|k: int|
                    0 <= k < i ==> self@[#[trigger] owners@[k]] == if shared_later(
                        before,
                        owners@,
                        k,
                    ) {
                        before[owners@[k]]
                    } else {
                        displayed(before[owners@[k]], roles@)
                    },
                forall|k: int| i <= k < owners.len() ==> self@[#[trigger] owners@[k]] == before[owners@[k]],
            decreases owners.len() - i,
        {
            let user_id = owners[i];
            proof {
                assert(owners@.to_set().contains(user_id));
            }
            let held = match self.0.get(&user_id) {
                Some(grant) => Some((grant.role_id, display(grant, roles))),
                None => None,
            };
            if let Some((role_id, shown)) = held {
                let mut shared = false;
                let mut j: usize = i + 1;
                while j < owners.len()
                    invariant
                        i < j <= owners.len(),
                        owners@.to_set() == before.dom(),
                        self@.dom() == before.dom(),
                        role_id == before[owners@[i as int]].role_id,
                        forall|k: int|
                            i <= k < owners.len() ==> self@[#[trigger] owners@[k]]
                                == before[owners@[k]],
                        shared <==> exists|l: int|
                            i < l < j && before[#[trigger] owners@[l]].role_id == role_id,
                    decreases owners.len() - j,
                {
                    proof {
                        assert(owners@.to_set().contains(owners@[j as int]));
                    }
                    if let Some(other) = self.0.get(&owners[j]) {
                        if other.role_id == role_id {
                            shared = true;
                        }
                    }
                    j = j + 1;
                }
                assert(shared == shared_later(before, owners@, i as int));
                if !shared {
                    proof {
                        lemma_displayed_keeps_ids(before[user_id], roles@);
                    }
                    self.0.insert(user_id, shown);
                }
            }
            proof {
                assert forall|k: int| 0 <= k < i + 1 implies self@[#[trigger] owners@[k]]
                    == if shared_later(before, owners@, k) {
                    before[owners@[k]]
                } else {
                    displayed(before[owners@[k]], roles@)
                } by {
                    if k < i {
                        assert(owners@[k] != owners@[i as int]);
                    }
                }
                assert forall|k: int| i + 1 <= k < owners.len() implies self@[#[trigger] owners@[k]]
                    == before[owners@[k]] by {
                    assert(owners@[k] != owners@[i as int]);
                }
                assert(self@.dom() =~= before.dom());
            }
            i = i + 1;
        }
        proof {
            assert forall|user_id: u64| #[trigger] before.contains_key(user_id) implies (self@[user_id]
                == before[user_id] || self@[user_id] == displayed(before[user_id], roles@)) && (
            sole_holder(before, user_id) ==> self@[user_id] == displayed(before[user_id], roles@))
                && (exists|holder: u64| #[trigger]
                before.contains_key(holder) && before[holder].role_id == before[user_id].role_id
                    && self@[holder] == displayed(before[holder], roles@)) by {
                assert(owners@.to_set().contains(user_id));
                let k = choose|k: int| 0 <= k < owners@.len() && owners@[k] == user_id;
                if sole_holder(before, user_id) && shared_later(before, owners@, k) {
                    let j = choose|j: int|
                        k < j < owners@.len() && before[#[trigger] owners@[j]].role_id
                            == before[owners@[k]].role_id;
                    assert(owners@.to_set().contains(owners@[j]));
                    assert(owners@[j] != owners@[k]);
                    assert(before[owners@[j]].role_id != before[user_id].role_id);
                }
                let last = lemma_last_holder(before, owners@, k);
                assert(owners@.to_set().contains(owners@[last]));
                assert(before.contains_key(owners@[last]));
            }
        }
    }

    /// Enters `role` under its owner, in place of any grant the owner had.
    pub fn update(&mut self, role: CustomRole)
        requires
            old(self).wf(),
        ensures
            final(self).wf(),
            final(self)@ == old(self)@.insert(role.user_id, role),
    {
        self.0.insert(role.user_id, role);
    }
}

} // verus!

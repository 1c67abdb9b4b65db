//! Who may read the collections of a new cipher.

use crate::search::{first_index, lemma_first_index_at};
use crate::text::{str_eq, string_views};
use crate::vaultwarden::models::Member;
use vstd::prelude::*;

verus! {

/// Whether a member is the user that `who` names: by e-mail address, by
/// name, or by id.
pub open spec fn member_is(m: Member, who: Seq<char>) -> bool {
    ||| (m.email matches Some(e) && e@ == who)
    ||| (m.name matches Some(n) && n@ == who)
    ||| m.id@ == who
}

/// Whether the member at an index is the user that `who` names.
pub open spec fn is_member(members: Seq<Member>, who: Seq<char>) -> spec_fn(int) -> bool {
    |i: int| member_is(members[i], who)
}

/// The id of the first member that `who` names.
pub open spec fn member_id_spec(members: Seq<Member>, who: Seq<char>) -> Option<Seq<char>> {
    let i = first_index(members.len() as int, 0, is_member(members, who));
    if i < members.len() {
        Some(members[i].id@)
    } else {
        None
    }
}

/// Finds the member of the organization that `who` names.
pub fn find_member_id(members: &[Member], who: &str) -> (r: Option<String>)
    ensures
        r matches Some(id) ==> member_id_spec(members@, who@) == Some(id@),
        r is None ==> member_id_spec(members@, who@) is None,
{
    let mut i: usize = 0;
    while i < members.len()
        invariant
            i <= members@.len(),
            forall|j: int| 0 <= j < i ==> !#[trigger] is_member(members@, who@)(j),
        decreases members@.len() - i,
    {
        let m = &members[i];
        let by_email = match &m.email {
            Some(e) => str_eq(e.as_str(), who),
            None => false,
        };
        let by_name = match &m.name {
            Some(n) => str_eq(n.as_str(), who),
            None => false,
        };
        if by_email || by_name || str_eq(m.id.as_str(), who) {
            proof {
                let p = is_member(members@, who@);
                assert(p(i as int));
                lemma_first_index_at(members@.len() as int, 0, p, i as int);
            }
            return Some(m.id.clone());
        }
        i += 1;
    }
    proof {
        lemma_first_index_at(
            members@.len() as int,
            0,
            is_member(members@, who@),
            members@.len() as int,
        );
    }
    None
}

/// The members that are to get access: for every user that names a member
/// of the organization, the id of that member, in the order of the users.
/// Users that name no member are left out.
pub open spec fn target_member_ids_spec(users: Seq<Seq<char>>, members: Seq<Member>) -> Seq<
    Seq<char>,
>
    decreases users.len(),
{
    if users.len() == 0 {
        seq![]
    } else {
        let before = target_member_ids_spec(users.drop_last(), members);
        match member_id_spec(members, users.last()) {
            Some(id) => before.push(id),
            None => before,
        }
    }
}

/// The members that are to get access.
pub fn target_member_ids(users: &[String], members: &[Member]) -> (ids: Vec<String>)
    ensures
        string_views(ids@) == target_member_ids_spec(
            string_views(users@),
            members@,
        ),
{
    let mut ids: Vec<String> = Vec::new();
    let mut i: usize = 0;
    assert(string_views(users@).take(0) =~= Seq::<Seq<char>>::empty());
    assert(string_views(ids@) =~= Seq::<Seq<char>>::empty());
    while i < users.len()
        invariant
            i <= users@.len(),
            string_views(ids@) == target_member_ids_spec(
                string_views(users@).take(i as int),
                members@,
            ),
        decreases users@.len() - i,
    {
        let ghost next = string_views(users@).take(i + 1);
        let ghost before = ids@;
        assert(next.drop_last() == string_views(users@).take(i as int));
        assert(next.last() == users@[i as int]@);
        match find_member_id(members, users[i].as_str()) {
            Some(id) => {
                ids.push(id);
                assert(string_views(ids@) =~= string_views(before).push(
                    id@,
                ));
            },
            None => {},
        }
        i += 1;
    }
    assert(string_views(users@).take(users@.len() as int)
        == string_views(users@));
    ids
}

/// What a collection says of one of its users.
#[derive(Debug)]
pub struct CollectionUser {
    /// The id of the member; `None` where the entry holds no text there.
    pub id: Option<String>,
    /// Whether passwords are hidden from the member; `None` where the entry
    /// does not say, which counts as hidden.
    pub hide_passwords: Option<bool>,
    pub read_only: Option<bool>,
    pub manage: Option<bool>,
}

/// Whether the entry is that of the member.
pub open spec fn is_entry_of(users: Seq<CollectionUser>, member_id: Seq<char>) -> spec_fn(
    int,
) -> bool {
    |i: int| users[i].id matches Some(id) && id@ == member_id
}

/// Whether passwords are hidden from the user of the entry.
pub open spec fn hides_passwords(user: CollectionUser) -> bool {
    match user.hide_passwords {
        Some(b) => b,
        None => true,
    }
}

/// Whether `new` is the list `old` with access for the member: the first
/// entry of the member no longer hides passwords; where the member has no
/// entry, one comes last that may read and write, sees passwords, and does
/// not manage. `changed` says whether anything differs.
pub open spec fn access_granted(
    old: Seq<CollectionUser>,
    new: Seq<CollectionUser>,
    member_id: Seq<char>,
    changed: bool,
) -> bool {
    let i = first_index(old.len() as int, 0, is_entry_of(old, member_id));
    if i < old.len() {
        &&& new.len() == old.len()
        &&& forall|j: int| 0 <= j < old.len() && j != i ==> new[j] == old[j]
        &&& changed == hides_passwords(old[i])
        &&& if changed {
            &&& new[i].id == old[i].id
            &&& new[i].hide_passwords == Some(false)
            &&& new[i].read_only == old[i].read_only
            &&& new[i].manage == old[i].manage
        } else {
            new[i] == old[i]
        }
    } else {
        &&& changed
        &&& new.len() == old.len() + 1
        &&& forall|j: int| 0 <= j < old.len() ==> new[j] == old[j]
        &&& new[old.len() as int].id matches Some(id)
        &&& id@ == member_id
        &&& new[old.len() as int].hide_passwords == Some(false)
        &&& new[old.len() as int].read_only == Some(false)
        &&& new[old.len() as int].manage == Some(false)
    }
}

/// Gives a member access to a collection, and says whether the users of the
/// collection changed.
pub fn grant_access(users: &mut Vec<CollectionUser>, member_id: &str) -> (changed: bool)
    ensures
        access_granted(old(users)@, final(users)@, member_id@, changed),
{
    let mut i: usize = 0;
    while i < users.len()
        invariant
            i <= users@.len(),
            users@ == old(users)@,
            forall|j: int| 0 <= j < i ==> !#[trigger] is_entry_of(users@, member_id@)(j),
        decreases users@.len() - i,
    {
        let is_entry = match &users[i].id {
            Some(id) => str_eq(id.as_str(), member_id),
            None => false,
        };
        if is_entry {
            proof {
                let p = is_entry_of(users@, member_id@);
                assert(p(i as int));
                lemma_first_index_at(users@.len() as int, 0, p, i as int);
            }
            let hidden = match users[i].hide_passwords {
                Some(b) => b,
                None => true,
            };
            if hidden {
                let entry = users.remove(i);
                users.insert(
                    i,
                    CollectionUser {
                        id: entry.id,
                        hide_passwords: Some(false),
                        read_only: entry.read_only,
                        manage: entry.manage,
                    },
                );
            }
            return hidden;
        }
        i += 1;
    }
    proof {
        lemma_first_index_at(
            users@.len() as int,
            0,
            is_entry_of(users@, member_id@),
            users@.len() as int,
        );
    }
    users.push(
        CollectionUser {
            id: Some(member_id.to_owned()),
            hide_passwords: Some(false),
            read_only: Some(false),
            manage: Some(false),
        },
    );
    true
}

/// Whether `states` are the lists that lead from `old` to `new` by giving
/// access to the members of `ids` one after the other, and `flags` say for
/// each whether the list changed.
pub open spec fn leads_by_grants(
    states: Seq<Seq<CollectionUser>>,
    flags: Seq<bool>,
    old: Seq<CollectionUser>,
    new: Seq<CollectionUser>,
    ids: Seq<Seq<char>>,
) -> bool {
    &&& states.len() == ids.len() + 1
    &&& flags.len() == ids.len()
    &&& states[0] == old
    &&& states[ids.len() as int] == new
    &&& forall|i: int|
        0 <= i < ids.len() ==> access_granted(
            #[trigger] states[i],
            states[i + 1],
            ids[i],
            flags[i],
        )
}

/// Whether `new` is the list `old` with access for every member of `ids`,
/// given one after the other, and `changed` says whether any of them changed
/// the list.
pub open spec fn access_granted_to_all(
    old: Seq<CollectionUser>,
    new: Seq<CollectionUser>,
    ids: Seq<Seq<char>>,
    changed: bool,
) -> bool {
    exists|states: Seq<Seq<CollectionUser>>, flags: Seq<bool>|
        #[trigger] leads_by_grants(states, flags, old, new, ids) && changed == flags.contains(true)
}

/// Gives every member of `member_ids` access to a collection, and says
/// whether the users of the collection changed, in which case the collection
/// is to be written back.
pub fn grant_collection_access(users: &mut Vec<CollectionUser>, member_ids: &[String]) -> (changed:
    bool)
    ensures
        access_granted_to_all(
            old(users)@,
            final(users)@,
            string_views(member_ids@),
            changed,
        ),
{
    let mut changed = false;
    let mut i: usize = 0;
    let ghost mut states: Seq<Seq<CollectionUser>> = seq![users@];
    let ghost mut flags: Seq<bool> = seq![];
    let ghost ids = string_views(member_ids@);
    while i < member_ids.len()
        invariant
            i <= member_ids@.len(),
            ids == string_views(member_ids@),
            leads_by_grants(states, flags, old(users)@, users@, ids.take(i as int)),
            changed == flags.contains(true),
        decreases member_ids@.len() - i,
    {
        let ghost before = users@;
        let ghost states_before = states;
        let ghost flags_before = flags;
        let one = grant_access(users, member_ids[i].as_str());
        if one {
            changed = true;
        }
        proof {
            states = states.push(users@);
            flags = flags.push(one);
            let next = ids.take(i + 1);
            assert(next[i as int] == member_ids@[i as int]@);
            assert forall|j: int| 0 <= j < next.len() implies access_granted(
                #[trigger] states[j],
                states[j + 1],
                next[j],
                flags[j],
            ) by {
                if j < i {
                    assert(states[j] == states_before[j]);
                    assert(states[j + 1] == states_before[j + 1]);
                    assert(flags[j] == flags_before[j]);
                    assert(next[j] == ids.take(i as int)[j]);
                }
            }
            if flags_before.contains(true) {
                let w = choose|w: int| 0 <= w < flags_before.len() && flags_before[w];
                assert(flags[w]);
            }
            if one {
                assert(flags[i as int]);
            }
            if flags.contains(true) {
                let w = choose|w: int| 0 <= w < flags.len() && flags[w];
                if w < i {
                    assert(flags_before[w]);
                }
            }
        }
        i += 1;
    }
    assert(ids.take(member_ids@.len() as int) == ids);
    changed
}

} // verus!

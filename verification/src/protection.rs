//! Focus Lock: the decisions that refuse changes to a protected block list.
//! Whether a list is protected is decided by its stored lock (its expiry
//! against the clock) and handed in as a flag.

use vstd::prelude::*;
use crate::commands::{cells_in_range, schedule_from_grid, slots_for, SlotInput};
use crate::types::BlockList;

verus! {

/// The refusal of a change to a protected list.
pub open spec fn modify_refused() -> Seq<char> {
    "Protection is active — cannot modify this block list until it expires"@
}

/// The refusal of an update of a protected list as a whole.
pub open spec fn update_refused() -> Seq<char> {
    "Protection is active — cannot modify this block list"@
}

/// The refusal of the deletion of a protected list.
pub open spec fn delete_refused() -> Seq<char> {
    "Protection is active — cannot delete this block list"@
}

/// The refusal of switching off a protected list.
pub open spec fn disable_refused() -> Seq<char> {
    "Protection is active — cannot disable this block list"@
}

/// The refusal of locking a list that is already locked.
pub open spec fn relock_refused() -> Seq<char> {
    "Protection is already active on this block list"@
}

/// A change to the rules, schedule or exceptions of a list is refused
/// while the list is protected.
pub fn check_protected(protected: bool) -> (r: Result<(), String>)
    ensures
        protected ==> (r matches Err(e) && e@ == modify_refused()),
        !protected ==> r is Ok,
{
    if protected {
        Err(String::from_str("Protection is active — cannot modify this block list until it expires"))
    } else {
        Ok(())
    }
}

/// Replacing a list as a whole is refused while it is protected.
pub fn check_update(protected: bool) -> (r: Result<(), String>)
    ensures
        protected ==> (r matches Err(e) && e@ == update_refused()),
        !protected ==> r is Ok,
{
    if protected {
        Err(String::from_str("Protection is active — cannot modify this block list"))
    } else {
        Ok(())
    }
}

/// Deleting a list is refused while it is protected.
pub fn check_delete(protected: bool) -> (r: Result<(), String>)
    ensures
        protected ==> (r matches Err(e) && e@ == delete_refused()),
        !protected ==> r is Ok,
{
    if protected {
        Err(String::from_str("Protection is active — cannot delete this block list"))
    } else {
        Ok(())
    }
}

/// Switching a list to `enabled` is refused only when that switches a
/// protected list off; switching one on is always allowed.
pub fn check_toggle(enabled: bool, protected: bool) -> (r: Result<(), String>)
    ensures
        !enabled && protected ==> (r matches Err(e) && e@ == disable_refused()),
        enabled || !protected ==> r is Ok,
{
    if !enabled && protected {
        Err(String::from_str("Protection is active — cannot disable this block list"))
    } else {
        Ok(())
    }
}

/// Locking a list is refused while a lock against modification is already
/// active on it.
pub fn check_lockable(modification_protected: bool) -> (r: Result<(), String>)
    ensures
        modification_protected ==> (r matches Err(e) && e@ == relock_refused()),
        !modification_protected ==> r is Ok,
{
    if modification_protected {
        Err(String::from_str("Protection is already active on this block list"))
    } else {
        Ok(())
    }
}

/// A stored list as the lock check sees it: its name and whether it is
/// protected now.
pub struct ListLock {
    pub name: String,
    pub protected: bool,
}

/// An action on all stored data that no Focus Lock may be in the way of.
#[derive(Clone, Copy, Debug, PartialEq, Eq, Structural)]
pub enum WipeAction {
    DeleteAllData,
    Import,
}

/// How the refusal of the action begins.
pub open spec fn wipe_prefix(action: WipeAction) -> Seq<char> {
    match action {
        WipeAction::DeleteAllData => "Cannot delete all data"@,
        WipeAction::Import => "Cannot import"@,
    }
}

/// The refusal of the action because of the locked list named `name`.
pub open spec fn locked_refusal(action: WipeAction, name: Seq<char>) -> Seq<char> {
    wipe_prefix(action) + " — '"@ + name + "' is Focus Locked. Wait for the lock to expire."@
}

/// Deleting all data, or importing a configuration over the stored lists,
/// is refused while any stored list is protected; the refusal names the
/// first such list.
pub fn check_none_locked(action: WipeAction, lists: &Vec<ListLock>) -> (r: Result<(), String>)
    ensures
        (forall|i: int| 0 <= i < lists@.len() ==> !#[trigger] lists@[i].protected) ==> r is Ok,
        forall|i: int|
            0 <= i < lists@.len() && #[trigger] lists@[i].protected && (forall|j: int|
                0 <= j < i ==> !lists@[j].protected) ==> (r matches Err(e) && e@ == locked_refusal(
                action,
                lists@[i].name@,
            )),
{
    let mut i: usize = 0;
    while i < lists.len()
        invariant
            i <= lists@.len(),
            forall|j: int| 0 <= j < i ==> !#[trigger] lists@[j].protected,
        decreases lists@.len() - i,
    {
        if lists[i].protected {
            let mut msg = match action {
                WipeAction::DeleteAllData => String::from_str("Cannot delete all data"),
                WipeAction::Import => String::from_str("Cannot import"),
            };
            msg.append(" — '");
            msg.append(lists[i].name.as_str());
            msg.append("' is Focus Locked. Wait for the lock to expire.");
            proof {
                assert forall|k: int|
                    0 <= k < lists@.len() && #[trigger] lists@[k].protected && (forall|j: int|
                        0 <= j < k ==> !lists@[j].protected) implies k == i by {
                    if k < i {
                        assert(!lists@[k].protected);
                    }
                    if k > i {
                        assert(!lists@[i as int].protected);
                    }
                }
            }
            return Err(msg);
        }
        i = i + 1;
    }
    Ok(())
}

/// Sets the schedule of `list` from the schedule grid, unless the list is
/// protected: then the change is refused and the list left as it was.
/// When `always_active` is `Some(true)` the schedule is removed; otherwise
/// it becomes an enabled schedule named after the list with one slot per
/// grid cell whose day is named.
pub fn update_schedule(
    list: &mut BlockList,
    protected: bool,
    cells: &Vec<SlotInput>,
    always_active: Option<bool>,
) -> (r: Result<String, String>)
    requires
        cells_in_range(cells@),
    ensures
        protected ==> (r matches Err(e) && e@ == modify_refused()) && *final(list) == *old(list),
        !protected ==> (r matches Ok(m) && m@ == "Schedule saved"@),
        !protected && always_active == Some(true) ==> final(list).schedule is None,
        !protected && always_active != Some(true) ==> (final(list).schedule matches Some(s)
            && s.enabled && s.name@ == old(list).name@ + " schedule"@ && s.time_slots@ == slots_for(
            cells@,
        )),
        final(list).id == old(list).id,
        final(list).name == old(list).name,
        final(list).enabled == old(list).enabled,
        final(list).websites == old(list).websites,
        final(list).applications == old(list).applications,
        final(list).exceptions == old(list).exceptions,
{
    match check_protected(protected) {
        Err(e) => {
            return Err(e);
        },
        Ok(()) => {},
    }
    let schedule = schedule_from_grid(list.name.as_str(), cells, always_active);
    list.schedule = schedule;
    Ok(String::from_str("Schedule saved"))
}

} // verus!

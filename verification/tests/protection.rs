use focuser::commands::SlotInput;
use focuser::protection::{
    check_delete, check_lockable, check_none_locked, check_protected, check_toggle, check_update,
    update_schedule, ListLock, WipeAction,
};
use focuser::types::{BlockList, Weekday};

#[test]
fn protected_list_refuses_changes() {
    assert_eq!(
        check_protected(true),
        Err("Protection is active — cannot modify this block list until it expires".to_string())
    );
    assert_eq!(check_protected(false), Ok(()));
    assert_eq!(
        check_update(true),
        Err("Protection is active — cannot modify this block list".to_string())
    );
    assert_eq!(
        check_delete(true),
        Err("Protection is active — cannot delete this block list".to_string())
    );
    assert_eq!(check_delete(false), Ok(()));
    assert_eq!(
        check_lockable(true),
        Err("Protection is already active on this block list".to_string())
    );
    assert_eq!(check_lockable(false), Ok(()));
}

#[test]
fn protected_list_can_be_switched_on_but_not_off() {
    assert_eq!(check_toggle(true, true), Ok(()));
    assert_eq!(
        check_toggle(false, true),
        Err("Protection is active — cannot disable this block list".to_string())
    );
    assert_eq!(check_toggle(false, false), Ok(()));
}

#[test]
fn wiping_data_is_refused_naming_the_first_locked_list() {
    let lists = vec![
        ListLock { name: "Work".to_string(), protected: false },
        ListLock { name: "Social".to_string(), protected: true },
        ListLock { name: "Games".to_string(), protected: true },
    ];
    assert_eq!(
        check_none_locked(WipeAction::DeleteAllData, &lists),
        Err("Cannot delete all data — 'Social' is Focus Locked. Wait for the lock to expire."
            .to_string())
    );
    assert_eq!(
        check_none_locked(WipeAction::Import, &lists),
        Err("Cannot import — 'Social' is Focus Locked. Wait for the lock to expire.".to_string())
    );
    let free = vec![ListLock { name: "Work".to_string(), protected: false }];
    assert_eq!(check_none_locked(WipeAction::Import, &free), Ok(()));
}

#[test]
fn schedule_update_is_refused_on_a_protected_list() {
    let mut list = BlockList::new("Focus");
    let cells = vec![SlotInput { day: "Mon".to_string(), hour: 9 }];
    let r = update_schedule(&mut list, true, &cells, None);
    assert!(r.is_err());
    assert!(list.schedule.is_none());
    let r = update_schedule(&mut list, false, &cells, None);
    assert_eq!(r, Ok("Schedule saved".to_string()));
    let s = list.schedule.as_ref().unwrap();
    assert_eq!(s.name, "Focus schedule");
    assert_eq!(s.time_slots.len(), 1);
    assert_eq!(s.time_slots[0].day, Weekday::Mon);
    assert_eq!(s.time_slots[0].start, 9 * 3600);
    assert_eq!(s.time_slots[0].end, 10 * 3600);
    let r = update_schedule(&mut list, false, &cells, Some(true));
    assert!(r.is_ok());
    assert!(list.schedule.is_none());
}

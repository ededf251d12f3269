use focuser::events::{PomodoroEvent, PomodoroEvents};

#[test]
fn drain_returns_pushed_events_in_order_and_empties() {
    let mut q = PomodoroEvents::new();
    q.push(PomodoroEvent::PhaseAdvanced { to: "break".into(), cycle: 1 });
    q.push(PomodoroEvent::TamperDetected);
    let got = q.drain();
    assert_eq!(got.len(), 2);
    assert!(matches!(&got[0], PomodoroEvent::PhaseAdvanced { to, cycle: 1 } if to == "break"));
    assert!(matches!(got[1], PomodoroEvent::TamperDetected));
    assert!(q.drain().is_empty());
}

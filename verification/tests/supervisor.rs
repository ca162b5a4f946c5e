use pet_render::supervisor::{
    panic_message, Control, ControlCmd, Next, Outcome, PetSelection, Supervisor,
};

#[test]
fn broken_runs_are_retried_with_growing_delays() {
    let mut s = Supervisor::new();
    let mut next = |ran_s| s.ended(Outcome::Broken, false, ran_s);
    assert_eq!(next(0), Next::Retry { delay_s: 5 });
    assert_eq!(next(59), Next::Retry { delay_s: 15 });
    assert_eq!(next(1), Next::Retry { delay_s: 60 });
    assert_eq!(next(1), Next::Retry { delay_s: 60 });
    // A run that survived a while was healthy.
    assert_eq!(next(60), Next::Retry { delay_s: 5 });
    assert_eq!(next(0), Next::Retry { delay_s: 15 });
}

#[test]
fn finished_runs_and_a_gone_daemon_end_it() {
    let mut s = Supervisor::new();
    assert_eq!(s.ended(Outcome::Finished, false, 3), Next::Exit);
    assert_eq!(s.ended(Outcome::Broken, true, 3), Next::Exit);
    assert_eq!(s.failures, 0);
}

#[test]
fn panic_payloads_are_told_apart() {
    assert_eq!(panic_message(Some("a"), Some("b")), "a");
    assert_eq!(panic_message(None, Some("b")), "b");
    assert_eq!(panic_message(None, None), "<non-string panic payload>");
}

#[test]
fn defaults_ask_for_nothing() {
    assert_eq!(Control::default(), Control { seq: 0, cmd: None });
    assert_eq!(PetSelection::default().skin, None);
    assert_ne!(ControlCmd::Show, ControlCmd::Hide);
}

use pet_render::compositor::wlr_generic::{state_activated, Toplevel, ToplevelEvent, Wlr};
use pet_render::proto::{ActiveWindow, Source};

#[test]
fn reports_activated_toplevel_and_dedups() {
    let drain = |wlr: &mut Wlr| -> Vec<Option<ActiveWindow>> { wlr.reconcile().into_iter().collect() };

    // The harness in lower case, as its terminal is titled.
    let agent = format!("{:?}", Source::Claude).to_lowercase();
    let mut wlr = Wlr::default();
    wlr.toplevels.insert(
        1,
        Toplevel { app_id: Some("firefox".into()), ..Default::default() },
    );
    wlr.toplevels.insert(
        2,
        Toplevel {
            app_id: Some("kitty".into()),
            title: Some(agent.clone()),
            activated: true,
            ..Default::default()
        },
    );

    let facts = drain(&mut wlr);
    assert_eq!(facts.len(), 1);
    let w = facts[0].clone().unwrap();
    assert_eq!(w.pid, None);
    assert_eq!(w.app_id.as_deref(), Some("kitty"));
    assert_eq!(w.title.as_deref(), Some(agent.as_str()));

    // No change -> no fact.
    assert!(drain(&mut wlr).is_empty());

    // Focus leaves all toplevels -> None fact.
    wlr.toplevels.get_mut(&2).unwrap().activated = false;
    assert_eq!(drain(&mut wlr), vec![None]);

    // A different toplevel activates -> its labels.
    wlr.toplevels.get_mut(&1).unwrap().activated = true;
    let facts = drain(&mut wlr);
    assert_eq!(facts[0].clone().unwrap().app_id.as_deref(), Some("firefox"));
}

fn activated() -> Vec<u8> {
    vec![1, 0, 0, 0, 2, 0, 0, 0]
}

#[test]
fn labels_and_state_take_effect_with_done() {
    let mut wlr = Wlr::default();
    wlr.on_toplevel(7);
    assert_eq!(wlr.on_event(7, ToplevelEvent::AppId("kitty".into()), false), None);
    assert_eq!(wlr.on_event(7, ToplevelEvent::Title("one".into()), false), None);
    assert_eq!(wlr.on_event(7, ToplevelEvent::State(activated()), false), None);
    let first = wlr.on_event(7, ToplevelEvent::Done, false).unwrap().unwrap();
    assert_eq!((first.app_id.as_deref(), first.title.as_deref()), (Some("kitty"), Some("one")));
    // Nothing new: not reported again.
    assert_eq!(wlr.on_event(7, ToplevelEvent::Done, false), None);
    // A title change on the focused window is; the other label is kept.
    wlr.on_event(7, ToplevelEvent::Title("two".into()), false);
    let second = wlr.on_event(7, ToplevelEvent::Done, false).unwrap().unwrap();
    assert_eq!((second.app_id.as_deref(), second.title.as_deref()), (Some("kitty"), Some("two")));
    assert_eq!(wlr.on_event(7, ToplevelEvent::Closed, false), Some(None));
    assert!(wlr.toplevels.is_empty());
}

#[test]
fn events_of_unknown_toplevels_change_nothing() {
    let mut wlr = Wlr::default();
    assert_eq!(wlr.on_event(9, ToplevelEvent::Title("x".into()), false), None);
    assert_eq!(wlr.on_event(9, ToplevelEvent::Done, false), Some(None));
    assert_eq!(wlr.on_event(9, ToplevelEvent::Closed, false), None);
    assert!(wlr.toplevels.is_empty());
}

#[test]
fn finished_protocol_forgets_every_toplevel() {
    let mut wlr = Wlr::default();
    wlr.on_toplevel(1);
    wlr.on_event(1, ToplevelEvent::State(activated()), false);
    assert!(wlr.on_event(1, ToplevelEvent::Done, false).unwrap().is_some());
    assert_eq!(wlr.on_finished(), Some(None));
    assert_eq!(wlr.on_finished(), None);
}

#[test]
fn activated_is_found_in_either_byte_order() {
    assert!(state_activated(&activated(), false));
    assert!(!state_activated(&activated(), true));
    assert!(state_activated(&[0, 0, 0, 1, 0, 0, 0, 2], true));
    assert!(!state_activated(&[], false));
    // An incomplete value at the end does not count.
    assert!(!state_activated(&[1, 0, 0, 0, 2, 0, 0], false));
    assert!(!state_activated(&[2, 1, 0, 0], false));
}

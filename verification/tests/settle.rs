use pet_render::compositor::settle::{Action, Settle, DEFAULT_SETTLE_MS};
use pet_render::proto::ActiveWindow;

fn win(title: &str) -> Option<ActiveWindow> {
    Some(ActiveWindow { title: Some(title.into()), ..Default::default() })
}

fn at(ms: u64) -> u64 {
    ms * 1_000_000
}

fn ms(n: u64) -> u64 {
    n * 1_000_000
}

#[test]
fn emits_after_the_quiet_period() {
    let mut s = Settle::new(300);
    let t0 = at(1000);
    assert_eq!(s.observe(win("kitty"), t0), Action::ArmTimer(t0 + ms(300)));
    // Too early: re-arm, no emit.
    assert_eq!(s.on_timer(t0 + ms(200)), Action::ArmTimer(t0 + ms(300)));
    // Due: emit.
    assert_eq!(s.on_timer(t0 + ms(300)), Action::Emit(win("kitty")));
}

#[test]
fn alt_tab_flicker_only_emits_the_final_target() {
    let mut s = Settle::new(300);
    let t0 = at(1000);
    s.observe(win("a"), t0);
    s.observe(win("b"), t0 + ms(50));
    // Landing on c resets the quiet period from t=100.
    let a = s.observe(win("c"), t0 + ms(100));
    assert_eq!(a, Action::ArmTimer(t0 + ms(400)));
    // A timer from the earlier candidate fires but c is not due yet.
    assert_eq!(s.on_timer(t0 + ms(350)), Action::ArmTimer(t0 + ms(400)));
    assert_eq!(s.on_timer(t0 + ms(400)), Action::Emit(win("c")));
}

#[test]
fn duplicate_pending_facts_do_not_refresh_the_deadline() {
    let mut s = Settle::new(300);
    let t0 = at(1000);
    assert_eq!(s.observe(win("x"), t0), Action::ArmTimer(t0 + ms(300)));
    // Heartbeat repeat of the same window mid-wait keeps the original
    // deadline (otherwise a steadily-focused window never settles).
    assert_eq!(s.observe(win("x"), t0 + ms(150)), Action::ArmTimer(t0 + ms(300)));
    assert_eq!(s.on_timer(t0 + ms(300)), Action::Emit(win("x")));
}

#[test]
fn never_emits_the_same_value_twice() {
    let mut s = Settle::new(300);
    let t0 = at(1000);
    s.observe(win("k"), t0);
    assert_eq!(s.on_timer(t0 + ms(300)), Action::Emit(win("k")));
    // The same window re-reported after settling is a no-op.
    assert_eq!(s.observe(win("k"), t0 + ms(500)), Action::Nothing);
    assert_eq!(s.on_timer(t0 + ms(800)), Action::Nothing);
}

#[test]
fn refocusing_settled_value_cancels_a_competing_candidate() {
    let mut s = Settle::new(300);
    let t0 = at(1000);
    s.observe(win("k"), t0);
    s.on_timer(t0 + ms(300)); // emitted k
    // Briefly focus j...
    s.observe(win("j"), t0 + ms(400));
    // ...then back to k before j settles: the j candidate is dropped and
    // nothing is emitted (still on k).
    assert_eq!(s.observe(win("k"), t0 + ms(450)), Action::Nothing);
    assert_eq!(s.on_timer(t0 + ms(700)), Action::Nothing);
}

#[test]
fn none_focus_is_a_reportable_value() {
    let mut s = Settle::new(300);
    let t0 = at(1000);
    s.observe(win("k"), t0);
    s.on_timer(t0 + ms(300));
    // Focus leaves all known windows.
    assert_eq!(s.observe(None, t0 + ms(400)), Action::ArmTimer(t0 + ms(700)));
    assert_eq!(s.on_timer(t0 + ms(700)), Action::Emit(None));
    // And a second None settles to nothing new.
    assert_eq!(s.observe(None, t0 + ms(800)), Action::Nothing);
}

#[test]
fn windows_that_differ_in_any_field_are_different_facts() {
    let mut s = Settle::new(DEFAULT_SETTLE_MS);
    let a = ActiveWindow { pid: Some(1), ..Default::default() };
    let b = ActiveWindow { pid: Some(2), ..Default::default() };
    s.observe(Some(a.clone()), 0);
    assert_eq!(s.observe(Some(b), ms(100)), Action::ArmTimer(ms(400)));
    assert_eq!(s.observe(Some(a), ms(200)), Action::ArmTimer(ms(500)));
}

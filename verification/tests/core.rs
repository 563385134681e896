//! Tests for the wake scheduler, interest registry, bar lifecycle, paint
//! planner, variable table and formatting.

use rwaybar::notify::NotifierList;
use rwaybar::state::{Bar, BarConfig, BarLife, Config, State};
use rwaybar::format::FmtError;
use rwaybar::text::{decimal_string, find_char};
use rwaybar::wake::{WakePoll, WakeState};

fn empty_config() -> Config {
    Config { vars: vec![], items: vec![], bars: vec![] }
}

#[test]
fn wake_earliest_deadline_wins() {
    let mut w = WakeState::new();
    assert!(w.deadline.is_none());
    w.set_wake_at(1000);
    assert_eq!(w.deadline, Some(1000));
    assert!(w.signaled);
    w.take_signal();
    // A later deadline while an earlier one is pending has no effect.
    w.set_wake_at(2000);
    assert_eq!(w.deadline, Some(1000));
    assert!(!w.signaled);
    // An earlier deadline replaces the pending one and re-arms the task.
    w.set_wake_at(500);
    assert_eq!(w.deadline, Some(500));
    assert!(w.signaled);
}

#[test]
fn wake_fire_clears_and_notifies() {
    let mut w = WakeState::new();
    w.set_wake_at(500);
    assert!(matches!(w.poll(), WakePoll::SleepUntil(500)));
    let redraw = w.fire(500);
    assert!(redraw);
    assert!(w.deadline.is_none());
    assert!(matches!(w.poll(), WakePoll::WaitForRegistration));
}

#[test]
fn wake_equal_deadline_is_restored() {
    let mut w = WakeState::new();
    w.set_wake_at(700);
    w.take_signal();
    w.set_wake_at(700);
    assert_eq!(w.deadline, Some(700));
    assert!(w.signaled);
}

#[test]
fn notify_drains_registry() {
    let mut n = NotifierList::new();
    n.add(1);
    n.add(2);
    n.add(1);
    let woken = n.notify_data();
    assert_eq!(woken, vec![1, 2, 1]);
    assert!(n.interested.is_empty());
    // Parties that do not re-register are not notified again.
    let again = n.notify_data();
    assert!(again.is_empty());
    // A party that re-registers is notified on the next change.
    n.add(2);
    assert_eq!(n.notify_data(), vec![2]);
}

#[test]
fn surface_params_from_config() {
    let top = rwaybar::state::surface_params(&BarConfig {
        name: None,
        side: Some("top".to_string()),
        size: Some(24),
    });
    assert!(top.anchor_top && !top.anchor_bottom && top.anchor_left && top.anchor_right);
    assert_eq!(top.size, 24);
    assert_eq!(top.exclusive_zone, 24);

    let bottom = rwaybar::state::surface_params(&BarConfig {
        name: None,
        side: Some("bottom".to_string()),
        size: None,
    });
    assert!(!bottom.anchor_top && bottom.anchor_bottom);
    assert_eq!(bottom.size, 20);

    // An unknown side falls back to the bottom edge.
    let odd = rwaybar::state::surface_params(&BarConfig {
        name: None,
        side: Some("left".to_string()),
        size: Some(30),
    });
    assert!(!odd.anchor_top && odd.anchor_bottom);

    let unset = rwaybar::state::surface_params(&BarConfig { name: None, side: None, size: None });
    assert!(!unset.anchor_top && unset.anchor_bottom);
    assert_eq!(unset.size, 20);
}

#[test]
fn output_ready_matches_configs_by_name() {
    let mut st = State::new(
        Config {
            vars: vec![],
            items: vec![],
            bars: vec![
                BarConfig { name: None, side: None, size: Some(20) },
                BarConfig { name: Some("DP-1".to_string()), side: None, size: Some(30) },
                BarConfig { name: Some("HDMI-1".to_string()), side: None, size: Some(40) },
            ],
        },
        0,
    );
    let created = st.output_ready(&"DP-1".to_string());
    // The unnamed config and the matching named one apply.
    assert_eq!(created.len(), 2);
    assert_eq!(created[0].surface, 1);
    assert_eq!(created[1].surface, 2);
    assert_eq!(created[0].params.size, 20);
    assert_eq!(created[1].params.size, 30);
    assert_eq!(st.bars.len(), 2);
    assert!(st.bars.iter().all(|b| matches!(b.life, BarLife::Created) && !b.dirty));
    assert_eq!(st.next_surface, 3);
}

#[test]
fn configure_sizes_bar_and_one_commit_next_tick() {
    // A configure event with width=800, height=24 on a created surface
    // transitions it to sized, marks it dirty, and the next tick commits
    // exactly one buffer of exactly its byte size.
    let mut st = State::new(
        Config {
            vars: vec![],
            items: vec![],
            bars: vec![BarConfig { name: None, side: None, size: Some(24) }],
        },
        0,
    );
    let created = st.output_ready(&"eDP-1".to_string());
    assert_eq!(created.len(), 1);
    assert!(matches!(st.bars[0].life, BarLife::Created));

    let matched = st.handle_configure(1, 800, 24);
    assert!(matched);
    assert!(matches!(st.bars[0].life, BarLife::Sized));
    assert!(st.bars[0].dirty);
    assert_eq!((st.bars[0].width, st.bars[0].height), (800, 24));
    assert!(st.take_redraw());

    let plan = st.tick().unwrap();
    assert_eq!(plan.segments.len(), 1);
    assert_eq!(plan.total, 800 * 4 * 24);
    let seg = plan.segments[0];
    assert_eq!(seg.surface, 1);
    assert_eq!(seg.pos, 0);
    assert_eq!(seg.len, 76800);
    assert_eq!(seg.stride, 3200);
    assert!(!st.bars[0].dirty);
}

#[test]
fn configure_for_closed_surface_is_ignored() {
    let mut st = State::new(
        Config {
            vars: vec![],
            items: vec![],
            bars: vec![BarConfig { name: None, side: None, size: Some(24) }],
        },
        0,
    );
    st.output_ready(&"eDP-1".to_string());
    st.handle_closed(1);
    assert!(st.bars.is_empty());
    let matched = st.handle_configure(1, 800, 24);
    assert!(!matched);
}

#[test]
fn paint_zero_dirty_means_zero_bytes_zero_commits() {
    let mut st = State::new(empty_config(), 0);
    st.bars.push(Bar { surface: 1, width: 500, height: 20, dirty: false, life: BarLife::Sized });
    st.bars.push(Bar { surface: 2, width: 300, height: 20, dirty: false, life: BarLife::Sized });
    let plan = st.draw_now().unwrap();
    assert_eq!(plan.total, 0);
    assert!(plan.segments.is_empty());
    // Clean bars keep their state; nothing was committed.
    assert!(!st.bars[0].dirty && !st.bars[1].dirty);
}

#[test]
fn paint_n_dirty_sum_of_sizes_and_n_commits() {
    let mut st = State::new(empty_config(), 0);
    st.bars.push(Bar { surface: 1, width: 500, height: 20, dirty: true, life: BarLife::Sized });
    st.bars.push(Bar { surface: 2, width: 300, height: 10, dirty: false, life: BarLife::Sized });
    st.bars.push(Bar { surface: 3, width: 100, height: 8, dirty: true, life: BarLife::Sized });
    let plan = st.draw_now().unwrap();
    let size1 = 500u64 * 4 * 20;
    let size3 = 100u64 * 4 * 8;
    assert_eq!(plan.total, size1 + size3);
    assert_eq!(plan.segments.len(), 2);
    assert_eq!((plan.segments[0].surface, plan.segments[0].pos, plan.segments[0].len), (1, 0, size1));
    assert_eq!((plan.segments[1].surface, plan.segments[1].pos, plan.segments[1].len), (3, size1, size3));
    // The clean bar contributed nothing and stayed clean; dirty flags of
    // painted bars were cleared.
    assert!(!st.bars[0].dirty && !st.bars[1].dirty && !st.bars[2].dirty);
}

#[test]
fn tick_marks_everything_dirty_then_paints() {
    let mut st = State::new(empty_config(), 0);
    st.bars.push(Bar { surface: 1, width: 10, height: 2, dirty: false, life: BarLife::Sized });
    let plan = st.tick().unwrap();
    assert_eq!(plan.total, 10 * 4 * 2);
    assert_eq!(plan.segments.len(), 1);
}

#[test]
fn var_table_keeps_one_entry_per_key() {
    let st = State::new(
        Config {
            vars: vec![
                ("a".to_string(), "1".to_string()),
                ("b".to_string(), "2".to_string()),
                ("a".to_string(), "3".to_string()),
            ],
            items: vec![],
            bars: vec![],
        },
        0,
    );
    // A repeated name takes the later value; its entry moves to the back
    // of the insertion order.
    let entries = st.runtime.vars_list();
    assert_eq!(
        entries,
        vec![("b".to_string(), "2".to_string()), ("a".to_string(), "3".to_string())]
    );
    assert_eq!(st.runtime.var_value(&"a".to_string()), Some(&"3".to_string()));
    assert_eq!(st.runtime.var_value(&"b".to_string()), Some(&"2".to_string()));
    assert_eq!(st.runtime.var_value(&"c".to_string()), None);
}

#[test]
fn item_table_drops_repeated_names() {
    let st = State::new(
        Config {
            vars: vec![],
            items: vec!["clock".to_string(), "tray".to_string(), "clock".to_string()],
            bars: vec![],
        },
        0,
    );
    assert_eq!(st.runtime.items, vec!["clock".to_string(), "tray".to_string()]);
}

#[test]
fn format_substitutes_variables() {
    let st = State::new(
        Config {
            vars: vec![
                ("name".to_string(), "World".to_string()),
                ("x".to_string(), "1".to_string()),
            ],
            items: vec![],
            bars: vec![],
        },
        0,
    );
    assert_eq!(st.runtime.format("Hello {name}!").unwrap(), "Hello World!");
    assert_eq!(st.runtime.format("{x}{name}").unwrap(), "1World");
    assert_eq!(st.runtime.format("plain").unwrap(), "plain");
    assert_eq!(st.runtime.format("").unwrap(), "");
    // A part selector and a display hint address the variable itself.
    assert_eq!(st.runtime.format("{name.part}").unwrap(), "World");
    assert_eq!(st.runtime.format("{name:>5}").unwrap(), "World");
    // Doubled braces escape themselves.
    assert_eq!(st.runtime.format("{{{name}}}").unwrap(), "{World}");
    assert_eq!(st.runtime.format("{{}}").unwrap(), "{}");
}

#[test]
fn format_reports_missing_key() {
    let st = State::new(empty_config(), 0);
    match st.runtime.format("{missing}") {
        Err(FmtError::KeyError(k)) => assert_eq!(k, "missing"),
        other => panic!("expected a key error, got {:?}", other.map(|_| ())),
    }
    match st.runtime.format("{missing.key}") {
        Err(FmtError::KeyError(k)) => assert_eq!(k, "missing"),
        other => panic!("expected a key error, got {:?}", other.map(|_| ())),
    }
}

#[test]
fn format_rejects_malformed_braces() {
    let st = State::new(empty_config(), 0);
    assert!(matches!(st.runtime.format("{oops"), Err(FmtError::Invalid)));
    assert!(matches!(st.runtime.format("}"), Err(FmtError::Invalid)));
    assert!(matches!(st.runtime.format("a}b"), Err(FmtError::Invalid)));
}

#[test]
fn format_or_recovers_with_empty_string() {
    let st = State::new(
        Config {
            vars: vec![("a".to_string(), "ok".to_string())],
            items: vec![],
            bars: vec![],
        },
        0,
    );
    assert_eq!(st.runtime.format_or("{a}", "test"), "ok");
    assert_eq!(st.runtime.format_or("{oops", "test"), "");
    assert_eq!(st.runtime.format_or("{missing}", "test"), "");
}

#[test]
fn runtime_wake_and_redraw_signals() {
    let mut st = State::new(empty_config(), 9);
    st.runtime.set_wake_at(123);
    assert_eq!(st.runtime.wake.deadline, Some(123));
    assert!(!st.take_redraw());
    st.request_draw();
    assert!(st.take_redraw());
    assert!(!st.take_redraw());
    // Wakeups for another context do not request a redraw here.
    st.runtime.deliver_wakes(&vec![1, 2]);
    assert!(!st.take_redraw());
    st.runtime.deliver_wakes(&vec![1, 9]);
    assert!(st.take_redraw());
}

#[test]
fn decimal_rendering_is_exact() {
    assert_eq!(decimal_string(0), "0");
    assert_eq!(decimal_string(7), "7");
    assert_eq!(decimal_string(10), "10");
    assert_eq!(decimal_string(1234), "1234");
    assert_eq!(decimal_string(4294967295), "4294967295");
}

#[test]
fn find_char_first_occurrence() {
    assert_eq!(find_char("a/b/c", '/', 0), Some(1));
    assert_eq!(find_char("a/b/c", '/', 2), Some(3));
    assert_eq!(find_char("abc", '/', 0), None);
}

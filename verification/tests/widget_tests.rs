use pocket_character::behavior::TrackingMode;
use pocket_character::widget::{
    find_name, Command, CommandEffect, FrameCounter, HoverTracker, PlaybackControls, TickEvent,
};

#[test]
fn event_names() {
    assert_eq!(TickEvent::Click.name(), "click");
    assert_eq!(TickEvent::HoverStart.name(), "hoverStart");
    assert_eq!(TickEvent::HoverEnd.name(), "hoverEnd");
}

#[test]
fn hover_changes_queue_alternating_events() {
    let mut h = HoverTracker::new();
    for now in [true, true, false, false, true] {
        h.observe(now);
    }
    assert!(h.hovered);
    let events = h.take_events(false);
    assert_eq!(events, vec![TickEvent::HoverStart, TickEvent::HoverEnd, TickEvent::HoverStart]);
    assert!(h.take_events(false).is_empty());
}

#[test]
fn click_comes_after_hover_events() {
    let mut h = HoverTracker::new();
    h.observe(true);
    let events = h.take_events(true);
    assert_eq!(events, vec![TickEvent::HoverStart, TickEvent::Click]);
    h.observe(true);
    assert_eq!(h.take_events(true), vec![TickEvent::Click]);
    h.observe(false);
    assert_eq!(h.take_events(false), vec![TickEvent::HoverEnd]);
}

fn names() -> Vec<String> {
    vec!["idle_loop".to_string(), "wave".to_string(), "wave".to_string()]
}

#[test]
fn set_tracking_by_name() {
    let mut c = PlaybackControls::new();
    c.apply(&Command::SetTracking("mouse".to_string()), &names());
    assert_eq!(c.tracking, TrackingMode::Mouse);
    c.apply(&Command::SetTracking("anything".to_string()), &names());
    assert_eq!(c.tracking, TrackingMode::Idle);
}

#[test]
fn play_clip_selects_first_match() {
    let mut c = PlaybackControls::new();
    let e = c.apply(&Command::PlayClip { name: "wave".to_string(), looping: false }, &names());
    assert!(matches!(e, CommandEffect::ClipRestarted));
    assert_eq!(c.clip_index, 1);
    assert!(!c.clip_looping);
}

#[test]
fn unknown_clip_changes_nothing() {
    let mut c = PlaybackControls::new();
    let before = c;
    let e = c.apply(&Command::PlayClip { name: "dance".to_string(), looping: false }, &names());
    match e {
        CommandEffect::UnknownClip(n) => assert_eq!(n, "dance"),
        other => panic!("unexpected {other:?}"),
    }
    assert_eq!(c, before);
}

#[test]
fn expression_and_fps_are_left_to_the_host() {
    let mut c = PlaybackControls::new();
    let before = c;
    let w = 0.5f32.to_bits();
    match c.apply(&Command::SetExpression("happy".to_string(), w), &names()) {
        CommandEffect::Expression { name, weight_bits } => {
            assert_eq!(name, "happy");
            assert_eq!(f32::from_bits(weight_bits), 0.5);
        }
        other => panic!("unexpected {other:?}"),
    }
    assert!(matches!(
        c.apply(&Command::SetMaxFps(30.0f32.to_bits()), &names()),
        CommandEffect::MaxFpsFixed
    ));
    assert_eq!(c, before);
}

#[test]
fn quit_requests_exit_and_it_stays() {
    let mut c = PlaybackControls::new();
    let cmds = vec![
        Command::Quit,
        Command::SetTracking("mouse".to_string()),
        Command::PlayClip { name: "wave".to_string(), looping: true },
    ];
    let effects = c.apply_all(&cmds, &names());
    assert_eq!(effects.len(), 3);
    assert!(c.exit);
    assert_eq!(c.tracking, TrackingMode::Mouse);
    assert_eq!(c.clip_index, 1);
}

#[test]
fn find_name_first_position() {
    assert_eq!(find_name(&names(), &"wave".to_string()), Some(1));
    assert_eq!(find_name(&names(), &"idle_loop".to_string()), Some(0));
    assert_eq!(find_name(&names(), &"x".to_string()), None);
    assert_eq!(find_name(&Vec::new(), &"x".to_string()), None);
}

#[test]
fn frame_limit_ends_the_run() {
    let mut f = FrameCounter::new();
    assert!(!f.record(Some(3)));
    assert!(!f.record(Some(3)));
    assert!(f.record(Some(3)));
    assert!(f.record(Some(3)));
    assert_eq!(f.rendered, 4);
    let mut g = FrameCounter::new();
    for _ in 0..10 {
        assert!(!g.record(None));
    }
    let mut z = FrameCounter::new();
    assert!(z.record(Some(0)));
}

#[test]
fn every_position_of_a_name() {
    let names = vec!["blink".to_string(), "happy".to_string(), "blink".to_string()];
    assert_eq!(pocket_character::widget::positions_named(&names, "blink"), vec![0, 2]);
    assert_eq!(pocket_character::widget::positions_named(&names, "happy"), vec![1]);
    assert!(pocket_character::widget::positions_named(&names, "sad").is_empty());
}

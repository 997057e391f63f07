use sensor_handler::protocol::{
    route_message, sort_and_run_message, DispatchOutcome, Protocol,
};
use sensor_handler::senders::create_channels;

#[test]
fn from_str_matches_tags_case_sensitively() {
    assert!(matches!(Protocol::from_str("OSU"), Protocol::Osu));
    assert!(matches!(Protocol::from_str("KEYBOARD"), Protocol::Keyboard));
    assert!(matches!(Protocol::from_str("MOUSE"), Protocol::Mouse));
    match Protocol::from_str("osu") {
        Protocol::Unknown(tag) => assert_eq!(tag, "osu"),
        _ => panic!("lower-case tag must be unknown"),
    }
    match Protocol::from_str("MOUSEX") {
        Protocol::Unknown(tag) => assert_eq!(tag, "MOUSEX"),
        _ => panic!("longer tag must be unknown"),
    }
}

#[test]
fn route_splits_tag_and_payload() {
    let routed = route_message("OSU|5").expect("well-formed line routes");
    assert!(matches!(routed.0, Protocol::Osu));
    assert_eq!(routed.1, "5");

    let routed = route_message("KEYBOARD|12345").expect("well-formed line routes");
    assert!(matches!(routed.0, Protocol::Keyboard));
    assert_eq!(routed.1, "12345");

    let routed = route_message("MOUSE|1.5;-2;0;1").expect("well-formed line routes");
    assert!(matches!(routed.0, Protocol::Mouse));
    assert_eq!(routed.1, "1.5;-2;0;1");
}

#[test]
fn route_trims_line_and_payload() {
    let routed = route_message("  OSU| 5 \r\n").expect("trimmed line routes");
    assert!(matches!(routed.0, Protocol::Osu));
    assert_eq!(routed.1, "5");
}

#[test]
fn route_splits_at_first_separator_only() {
    let routed = route_message("MOUSE|1;2|3").expect("line routes");
    assert_eq!(routed.1, "1;2|3");
}

#[test]
fn line_without_separator_routes_nowhere() {
    assert!(route_message("garbage").is_none());
    assert!(route_message("").is_none());
    assert!(route_message("OSU").is_none());
}

#[test]
fn unknown_tag_routes_nowhere() {
    assert!(route_message("FOO|1").is_none());
    assert!(route_message("osu|1").is_none());
    assert!(route_message(" MOUSE X|1").is_none());
}

#[test]
fn dispatch_queues_payload_for_the_named_worker_only() {
    let (senders, osu_rx, keyboard_rx, mouse_rx) = create_channels();

    let outcome = sort_and_run_message("OSU|9\n", &senders);
    assert!(matches!(outcome, DispatchOutcome::Sent(Protocol::Osu)));
    assert_eq!(osu_rx.try_recv().unwrap(), "9");
    assert!(keyboard_rx.try_recv().is_err());
    assert!(mouse_rx.try_recv().is_err());

    let outcome = sort_and_run_message("MOUSE|1;2;3;4", &senders);
    assert!(matches!(outcome, DispatchOutcome::Sent(Protocol::Mouse)));
    assert_eq!(mouse_rx.try_recv().unwrap(), "1;2;3;4");

    let outcome = sort_and_run_message("KEYBOARD|7", &senders);
    assert!(matches!(outcome, DispatchOutcome::Sent(Protocol::Keyboard)));
    assert_eq!(keyboard_rx.try_recv().unwrap(), "7");
}

#[test]
fn dispatch_drops_bad_lines_without_touching_queues() {
    let (senders, osu_rx, keyboard_rx, mouse_rx) = create_channels();

    assert!(matches!(sort_and_run_message("garbage", &senders), DispatchOutcome::Dropped));
    assert!(matches!(sort_and_run_message("FOO|1", &senders), DispatchOutcome::Dropped));

    assert!(osu_rx.try_recv().is_err());
    assert!(keyboard_rx.try_recv().is_err());
    assert!(mouse_rx.try_recv().is_err());
}

#[test]
fn dispatch_reports_a_closed_queue() {
    let (senders, osu_rx, _keyboard_rx, _mouse_rx) = create_channels();
    drop(osu_rx);
    let outcome = sort_and_run_message("OSU|1", &senders);
    assert!(matches!(outcome, DispatchOutcome::Closed(Protocol::Osu)));
}

#[test]
fn cloned_senders_feed_the_same_queues() {
    let (senders, osu_rx, _keyboard_rx, _mouse_rx) = create_channels();
    let cloned = senders.clone();
    assert!(matches!(
        sort_and_run_message("OSU|1", &cloned),
        DispatchOutcome::Sent(Protocol::Osu)
    ));
    assert_eq!(osu_rx.try_recv().unwrap(), "1");
}

#[test]
fn at_most_one_frame_per_line() {
    // Of a connection's lines, each routes at most once; malformed ones not
    // at all.
    let lines = ["OSU|1", "junk", "MOUSE|1;2;3;4", "FOO|x", "KEYBOARD|0"];
    let routed = lines.iter().filter(|l| route_message(l).is_some()).count();
    assert_eq!(routed, 3);
    assert!(routed <= lines.len());
}

use projektil_control::json;
use projektil_control::json::Json;
use projektil_control::pixera;
use projektil_control::pixera::{CallStep, CueQuery, EventsStep, PixeraFrame, PixeraStep, ReadOutcome, SchedulerCall};

fn strings(list: &[&str]) -> Vec<String> {
    list.iter().map(|s| s.to_string()).collect()
}

fn parsed(s: &str) -> Json {
    json::parse_json(s).unwrap()
}

#[test]
fn targets_come_from_the_request_or_the_settings() {
    let cfg = parsed("{\"pixera_ip\": \"10.0.0.9\", \"pixera_port\": 66874}");
    let t = pixera::pixera_target(&cfg, &Some("  ".to_string()), None, None, 2_000_000_123);
    assert_eq!((t.host.as_str(), t.port, t.timeout_ms, t.sequence), ("10.0.0.9", 1338, 3500, 123));
    let t = pixera::pixera_target(&Json::Null, &Some(" h ".to_string()), Some(5), Some(1), 7);
    assert_eq!((t.host.as_str(), t.port, t.timeout_ms, t.sequence), ("h", 5, 500, 7));
    let t = pixera::pixera_target(&Json::Null, &None, None, Some(9000), 7);
    assert_eq!((t.host.as_str(), t.port, t.timeout_ms), ("127.0.0.1", 1338, 9000));
    assert_eq!(pixera::scheduler_port(&parsed("{\"pixera_port\": 4000}")), 4000);
    assert_eq!(pixera::pixera_url("h", 5), "ws://h:5/ws_avio");
}

#[test]
fn requests_are_numbered() {
    let p = pixera::pixera_payload(9, "A.b", vec![Json::Unsigned(1)]);
    assert_eq!(p.text_field("type"), Some("Request"));
    assert_eq!(p.integer_field("sequence"), Some(9));
    assert_eq!(p.text_field("address"), Some("A.b"));
    assert_eq!(p.get("params"), Some(&Json::List(vec![Json::Unsigned(1)])));
}

#[test]
fn replies_are_matched_by_number() {
    let text = |s: &str| PixeraFrame::Text(s.to_string());
    assert_eq!(
        pixera::receive_frame(text("{\"sequence\": 9, \"result\": [1]}"), 9),
        PixeraStep::Done(Json::List(vec![Json::Unsigned(1)]))
    );
    assert_eq!(pixera::receive_frame(text("{\"sequence\": 9}"), 9), PixeraStep::Done(Json::Null));
    assert_eq!(pixera::receive_frame(text("{\"sequence\": 8}"), 9), PixeraStep::Wait);
    assert_eq!(pixera::receive_frame(PixeraFrame::Binary(b"{\"sequence\": 9}".to_vec()), 9), PixeraStep::Done(Json::Null));
    assert_eq!(pixera::receive_frame(PixeraFrame::Other, 9), PixeraStep::Wait);
    assert_eq!(
        pixera::receive_frame(PixeraFrame::Closed, 9),
        PixeraStep::Fail("Pixera API Verbindung geschlossen".to_string())
    );
    let utf8 = String::from_utf8(vec![0xff]).unwrap_err().to_string();
    assert_eq!(
        pixera::receive_frame(PixeraFrame::Binary(vec![0xff]), 9),
        PixeraStep::Fail(format!("Pixera API Binary UTF-8 Fehler: {}", utf8))
    );
    assert_eq!(
        pixera::match_reply(Err("e".to_string()), 9),
        PixeraStep::Fail("Pixera API ungültige JSON-Antwort: e".to_string())
    );
    assert_eq!(pixera::timeout_error("A"), "Pixera API timeout: A");
    assert_eq!(pixera::websocket_error("h", 5, "e"), "Pixera API websocket error: h:5 (e)");
}

#[test]
fn scheduler_modules_are_tried_in_order() {
    let cfg = parsed("{\"pixera_scheduler_module\": \" Mine \", \"pixera_api_root\": \"Root\"}");
    assert_eq!(
        pixera::scheduler_module_candidates(&cfg, "projektil_eventscheduler_v27"),
        strings(&[
            "Projektil_EventScheduler_V2_7",
            "projektil_eventscheduler_v27",
            "Mine",
            "Projektil_EventScheduler_V21",
            "EventScheduler_Projektil_V17",
        ])
    );
    assert_eq!(pixera::pixera_paths(&cfg, "M.x"), strings(&["Root.M.x", "M.x"]));
    assert_eq!(pixera::pixera_paths(&Json::Null, "M.x"), strings(&["M.x"]));
    assert_eq!(pixera::method_paths(&Json::Null, "M", "x"), strings(&["M.x"]));
    let mut list = strings(&["a"]);
    pixera::push_unique_candidate(&mut list, " A ");
    pixera::push_unique_candidate(&mut list, " ");
    pixera::push_unique_candidate(&mut list, " b ");
    assert_eq!(list, strings(&["a", "b"]));
}

#[test]
fn results_are_unwrapped() {
    assert_eq!(pixera::normalize_pixera_result(parsed("[7]")), Ok(Json::Unsigned(7)));
    assert_eq!(pixera::normalize_pixera_result(parsed("[7, 8]")), Ok(parsed("[7, 8]")));
    assert_eq!(
        pixera::normalize_pixera_result(parsed("[{\"_pixc\": {\"type\": 125}}, 1, \"boom\"]")),
        Err("boom".to_string())
    );
    assert_eq!(
        pixera::normalize_pixera_result(parsed("[{\"_pixc\": {\"type\": 125}}]")),
        Err("Pixera exception".to_string())
    );
    assert_eq!(pixera::normalize_pixera_result(parsed("[\"Not Authorized!\"]")), Err("Not Authorized!".to_string()));
    assert_eq!(pixera::normalize_pixera_result(parsed("\"not authorized\"")), Err("not authorized".to_string()));
    assert!(pixera::pixera_result_is_empty(&Json::Null) && pixera::pixera_result_is_empty(&json::text(" ")));
    assert!(!pixera::pixera_result_is_empty(&Json::Unsigned(0)));
}

#[test]
fn lost_connections_end_the_search() {
    assert!(pixera::is_pixera_connectivity_error("Pixera API TIMEOUT: x"));
    assert!(!pixera::is_pixera_connectivity_error("boom"));
    assert_eq!(
        pixera::scheduler_step(None, false, Err("os error 10061".to_string())),
        CallStep::Abort("os error 10061".to_string())
    );
    assert_eq!(
        pixera::scheduler_step(None, false, Err("boom".to_string())),
        CallStep::TryNext(Some("boom".to_string()))
    );
    assert_eq!(
        pixera::scheduler_step(Some("first".to_string()), false, Err("boom".to_string())),
        CallStep::TryNext(Some("first".to_string()))
    );
    assert_eq!(pixera::scheduler_step(None, false, Ok(Json::Null)), CallStep::TryNext(None));
    assert_eq!(pixera::scheduler_step(None, true, Ok(Json::Null)), CallStep::Found(Json::Null));
    assert_eq!(pixera::scheduler_failure(None, "m"), "Scheduler call failed for m");
    assert_eq!(pixera::scheduler_failure(Some("e".to_string()), "m"), "e");
    assert_eq!([0, 1, 2].map(pixera::warmup_method), ["ref", "init", "Time"]);
    assert!(pixera::needs_warmup(&Err("boom".to_string())));
    assert!(pixera::needs_warmup(&Ok(Json::Null)));
    assert!(!pixera::needs_warmup(&Err("timeout".to_string())));
    assert!(!pixera::needs_warmup(&Ok(Json::Unsigned(1))));
}

#[test]
fn countdowns_are_read() {
    assert_eq!(pixera::parse_countdown_ms(&json::text(" 01:02:03 ")), Some(3_723_000));
    assert_eq!(pixera::parse_countdown_ms(&json::text("1:60:0")), None);
    assert_eq!(pixera::parse_countdown_ms(&json::text("1:2")), None);
    assert_eq!(pixera::parse_countdown_ms(&Json::Null), None);
}

#[test]
fn schedule_times_are_read() {
    assert_eq!(pixera::schedule_parts(&json::text(" 2025.12.31 23:59")), Some((2025, 12, 31, 23, 59, 0)));
    assert_eq!(pixera::schedule_parts(&json::text("2025.x.12.31 1:2:3")), Some((2025, 12, 31, 1, 2, 3)));
    assert_eq!(pixera::schedule_parts(&json::text("2025.12 1:2")), None);
    assert_eq!(pixera::schedule_parts(&json::text("2025.12.31")), None);
    assert_eq!(pixera::schedule_parts(&json::text("4294967295.1.1 0:0")), Some((-1, 1, 1, 0, 0, 0)));
    assert_eq!(pixera::not_before_epoch(Some(-5)), Some(0));
    assert_eq!(pixera::not_before_epoch(None), None);
}

#[test]
fn local_times_are_less_than_a_day_from_utc() {
    let ms = pixera::parse_pixera_schedule_datetime_ms(&json::text("2026.01.01 12:00:00")).unwrap() as i64;
    assert!((ms - 1_767_268_800_000).abs() < 86_400_000);
    assert_eq!(ms % 1000, 0);
    assert_eq!(pixera::parse_pixera_schedule_datetime_ms(&json::text("2025.02.29 12:00")), None);
    assert_eq!(pixera::parse_pixera_schedule_datetime_ms(&json::text("2025.01.01 24:00")), None);
    assert_eq!(pixera::parse_pixera_schedule_datetime_ms(&json::text("1800.01.01 12:00")), Some(0));
}

#[test]
fn events_are_unpacked() {
    assert_eq!(pixera::parse_upcoming_events(parsed("[1]")), vec![Json::Unsigned(1)]);
    assert_eq!(pixera::parse_upcoming_events(json::text("{\"events\": [1]}")), vec![Json::Unsigned(1)]);
    assert_eq!(pixera::parse_upcoming_events(parsed("{\"value\": [2], \"events\": [1]}")), vec![Json::Unsigned(2)]);
    assert_eq!(pixera::parse_upcoming_events(json::text("\"\\\"[3]\\\"\"")), vec![Json::Unsigned(3)]);
    assert_eq!(pixera::parse_upcoming_events(json::text("oops")), Vec::new());
    assert_eq!(pixera::parse_upcoming_events(Json::Null), Vec::new());
    assert_eq!(pixera::events_in_value(&json::text(" [1] ")), EventsStep::Read("[1]".to_string()));
}

#[test]
fn nearest_event_comes_first() {
    assert_eq!(pixera::first_future_index(&vec![None, Some(0), Some(9), Some(5), Some(5)]), Some(3));
    assert_eq!(pixera::first_future_index(&vec![None, Some(0)]), None);
    assert_eq!(pixera::event_countdown(None, Some(10), 3), Some(7));
    assert_eq!(pixera::event_countdown(None, Some(10), 30), Some(0));
    assert_eq!(pixera::event_countdown(Some(4), Some(10), 3), Some(4));
    assert_eq!(pixera::upcoming_event_countdown_ms(&Json::Null, None, 3), None);
    assert_eq!(pixera::upcoming_event_countdown_ms(&Json::Null, Some(4), 3), Some(4));
}

#[test]
fn cues_are_reported() {
    let r = pixera::no_schedule_response(7);
    assert_eq!((r.get("hasSchedule"), r.integer_field("serverTimeMs")), (Some(&Json::Bool(false)), Some(7)));
    let r = pixera::upcoming_response(vec![Json::Null], 7);
    assert_eq!(r.get("hasSchedule"), Some(&Json::Bool(true)));
    assert_eq!(pixera::upcoming_response(Vec::new(), 7).get("hasSchedule"), Some(&Json::Bool(false)));
    let event = parsed("{\"name\": \" Show \"}");
    let r = pixera::next_cue_response(&event, 5, 7);
    assert_eq!((r.text_field("nextCueName"), r.integer_field("countdownMs")), (Some("Show"), Some(5)));
    assert_eq!(r.text_field("source"), Some("UpcomingEventsJson"));
    assert_eq!(r.get("event"), Some(&event));
    let r = pixera::named_cue_response(&json::text(" Show "), &json::text("0:0:1"), 7);
    assert_eq!((r.text_field("nextCueName"), r.integer_field("countdownMs")), (Some("Show"), Some(1000)));
    assert_eq!(r.text_field("source"), Some("NextEventName/NextEventCountdown"));
    for (name, countdown) in [("-", "0:0:1"), (" ", "0:0:1"), ("Show", "soon")] {
        let r = pixera::named_cue_response(&json::text(name), &json::text(countdown), 7);
        assert_eq!(r, pixera::no_schedule_response(7));
    }
}

#[test]
fn failed_reads_mean_no_schedule() {
    assert_eq!(pixera::judge_read(Ok(Json::Null)), ReadOutcome::Value(Json::Null));
    assert_eq!(pixera::judge_read(Err("timeout".to_string())), ReadOutcome::Fail("timeout".to_string()));
    assert_eq!(pixera::judge_read(Err("boom".to_string())), ReadOutcome::NoSchedule);
}

#[test]
fn scheduler_calls_go_from_address_to_address() {
    let cfg = parsed("{\"pixera_api_root\": \"Root\"}");
    let mut call = SchedulerCall::start(&cfg, "", "Time", false);
    assert_eq!(call.next_address(), Some("Root.Projektil_EventScheduler_V2_7.Time".to_string()));
    call.absorb(Err("boom".to_string()));
    assert_eq!(call.next_address(), Some("Projektil_EventScheduler_V2_7.Time".to_string()));
    call.absorb(Ok(Json::Null));
    assert_eq!(call.next_address(), Some("Root.Projektil_EventScheduler_V27.Time".to_string()));
    call.absorb(Ok(parsed("[5]")));
    assert_eq!(call.next_address(), None);
    assert_eq!(call.finish(), Ok(("Projektil_EventScheduler_V27".to_string(), Json::Unsigned(5))));
}

#[test]
fn scheduler_calls_end_with_the_first_error() {
    let mut call = SchedulerCall::start(&Json::Null, "", "Time", false);
    let mut asked = 0;
    while call.next_address().is_some() {
        call.absorb(Err(format!("boom {}", asked)));
        asked += 1;
    }
    assert_eq!(asked, 4);
    assert_eq!(call.finish(), Err("boom 0".to_string()));
    let mut call = SchedulerCall::start(&Json::Null, "", "Time", false);
    call.absorb(Err("connection refused".to_string()));
    assert_eq!(call.next_address(), None);
    assert_eq!(call.finish(), Err("connection refused".to_string()));
    let mut call = SchedulerCall::start(&Json::Null, "", "Time", false);
    while call.next_address().is_some() {
        call.absorb(Ok(Json::Null));
    }
    assert_eq!(call.finish(), Err("Scheduler call failed for Time".to_string()));
}

#[test]
fn next_cue_is_the_nearest_event() {
    let events = vec![parsed("{\"name\": \"a\"}"), parsed("{\"name\": \"b\"}"), parsed("{\"name\": \"c\"}")];
    let cue = pixera::first_future_upcoming_event(&events, &vec![Some(9), Some(4), None], 7).unwrap();
    assert_eq!((cue.text_field("nextCueName"), cue.integer_field("countdownMs")), (Some("b"), Some(4)));
    assert_eq!(pixera::first_future_upcoming_event(&events, &vec![Some(0), None, None], 7), None);
    assert_eq!(pixera::first_future_upcoming_event(&Vec::new(), &Vec::new(), 7), None);
}

#[test]
fn next_cue_is_asked_for_in_steps() {
    let q = CueQuery::start();
    assert_eq!(q.next_method(), Some("UpcomingEventsJson"));
    let q = q.take_reading(Ok(parsed("[{\"name\": \"a\"}]")), 7);
    assert_eq!(q.next_method(), None);
    let q = q.take_countdowns(&vec![None], 7);
    assert_eq!(q.next_method(), Some("NextEventName"));
    let q = q.take_reading(Ok(json::text("Show")), 7);
    assert_eq!(q.next_method(), Some("NextEventCountdown"));
    match q.take_reading(Ok(json::text("0:0:2")), 7) {
        CueQuery::Done(Ok(cue)) => assert_eq!(cue.integer_field("countdownMs"), Some(2000)),
        other => panic!("{:?}", other),
    }
}

#[test]
fn next_cue_of_a_listed_event_ends_the_question() {
    let q = CueQuery::start().take_reading(Ok(parsed("[{\"name\": \"a\"}]")), 7);
    match q.take_countdowns(&vec![Some(5)], 7) {
        CueQuery::Done(Ok(cue)) => assert_eq!(cue.text_field("nextCueName"), Some("a")),
        other => panic!("{:?}", other),
    }
}

#[test]
fn next_cue_fails_with_the_connection() {
    let lost = || Err("connection refused".to_string());
    assert_eq!(CueQuery::start().take_reading(lost(), 7), CueQuery::Done(lost()));
    let failed = || Err("boom".to_string());
    assert_eq!(CueQuery::start().take_reading(failed(), 7), CueQuery::Events(Vec::new()));
    assert_eq!(CueQuery::Name.take_reading(failed(), 7), CueQuery::Done(Ok(pixera::no_schedule_response(7))));
    assert_eq!(CueQuery::Name.take_countdowns(&Vec::new(), 7), CueQuery::Name);
}

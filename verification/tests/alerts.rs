use projektil_control::alerts;
use projektil_control::alerts::{AlertKind, SentLog};
use projektil_control::json;
use projektil_control::json::Json;

fn strings(list: &[&str]) -> Vec<String> {
    list.iter().map(|s| s.to_string()).collect()
}

fn settings() -> Json {
    json::parse_json(
        "{\"location_name\": \" Luzern \", \"anydesk_address\": \"123\", \"telegram\": {\"enabled\": true, \
         \"bot_token\": \"t\", \"chat_id\": \"c\", \"channel_id\": \"k\"}}",
    )
    .unwrap()
}

#[test]
fn errors_have_categories() {
    let cases = [
        ("[UPS] x", "ups"),
        ("Spannung zu hoch", "power"),
        ("Scheduler aus", "pixera"),
        ("Projektor 3", "projector"),
        ("Cam 01", "camera"),
        ("[Startup] x", "startup"),
        ("etwas", "system"),
    ];
    for (message, category) in cases {
        assert_eq!(alerts::classify_error_category(message), category);
    }
}

#[test]
fn texts_are_normalised() {
    assert_eq!(alerts::normalize_text("ZÜRICH Straße"), "zuerich strasse");
    assert_eq!(alerts::spell_umlauts("äöüß"), "aeoeuess");
}

#[test]
fn places_tell_the_country() {
    assert_eq!(alerts::detect_country_code_from_location("Zürich HB"), Some("CH"));
    assert_eq!(alerts::detect_country_code_from_location("Haus, Schweden"), Some("SE"));
    assert_eq!(alerts::detect_country_code_from_location("Paris, Germany"), Some("FR"));
    assert_eq!(alerts::detect_country_code_from_location("Mond"), None);
    assert_eq!(alerts::country_in("haus fi , x"), Some("FI"));
}

#[test]
fn flags_are_made_of_letters() {
    assert_eq!(alerts::country_code_to_flag_emoji(" ch "), Some("🇨🇭".to_string()));
    assert_eq!(alerts::country_code_to_flag_emoji("c1"), None);
    assert_eq!(alerts::country_code_to_flag_emoji("che"), None);
    assert_eq!(alerts::country_code_to_flag_emoji("ä"), None);
}

#[test]
fn places_are_labelled() {
    assert_eq!(alerts::format_telegram_location_label("Luzern", false), "🇨🇭Luzern");
    assert_eq!(alerts::format_telegram_location_label("Luzern", true), "🇨🇭 [CH] Luzern");
    assert_eq!(alerts::format_telegram_location_label("Mond", true), "📍Mond");
    assert_eq!(alerts::label_with("X", Some("DE"), false), "🇩🇪X");
}

#[test]
fn runtimes_are_taken_out_of_messages() {
    assert_eq!(alerts::extract_runtime_from_message("Batteriebetrieb - RUNTIME: 12 min "), Some("12 min".to_string()));
    assert_eq!(alerts::extract_runtime_from_message("Runtime:  "), None);
    assert_eq!(alerts::extract_runtime_from_message("x"), None);
    assert_eq!(alerts::strip_runtime_from_message(" Akku -- Runtime: 5"), "Akku");
    assert_eq!(alerts::strip_runtime_from_message(" Akku - "), "Akku -");
}

#[test]
fn resolutions_are_marked() {
    assert!(alerts::is_resolution_message("  [RESOLVED] x"));
    assert!(!alerts::is_resolution_message("x [RESOLVED]"));
    assert_eq!(alerts::strip_resolution_prefix(" [RESOLVED] ups ok "), "ups ok");
    assert_eq!(alerts::strip_resolution_prefix(" ups ok "), "ups ok");
}

#[test]
fn critical_words_are_built_in_or_configured() {
    assert!(alerts::contains_critical_keyword("NAS ist OFFLINE!", &Json::Null));
    assert!(!alerts::contains_critical_keyword("Wasser", &Json::Null));
    let cfg = json::parse_json("{\"telegram\": {\"critical_error_keywords\": [\" Wasser \", \"\", 3]}}").unwrap();
    assert!(alerts::contains_critical_keyword("wasser im keller", &cfg));
    assert!(!alerts::contains_critical_keyword("feuer", &cfg));
}

#[test]
fn events_can_be_switched_off() {
    let cfg = json::parse_json("{\"telegram\": {\"alert_events\": [\" Offline\", \"panic\"]}}").unwrap();
    assert!(alerts::telegram_event_enabled(&cfg, "ups_offline"));
    assert!(alerts::telegram_event_enabled(&cfg, "panic"));
    assert!(!alerts::telegram_event_enabled(&cfg, "emergency"));
    assert!(alerts::telegram_event_enabled(&Json::Null, "emergency"));
    assert!(alerts::any_event_enabled(&cfg, &strings(&["emergency", "panic"])));
    assert!(!alerts::any_event_enabled(&cfg, &Vec::new()));
}

#[test]
fn events_are_detected() {
    let events = |m: &str| alerts::detect_telegram_alert_events(m, &Json::Null);
    assert_eq!(events("NAS offline!"), strings(&["offline", "nas_offline", "keyword_match"]));
    assert_eq!(events("Trigger nicht ausgelöst"), strings(&["trigger_missed"]));
    assert_eq!(events("SNMP values missing: switch"), strings(&["poe_switch_offline"]));
    assert_eq!(events("Überfrequenz 51 Hz"), strings(&["janitza_overfrequency"]));
    assert_eq!(events("alles gut"), Vec::<String>::new());
    assert_eq!(alerts::alert_events_in("panic: x", false), strings(&["panic"]));
    let many = alerts::alert_events_in("poe switch ist offline, snmp-werte von switch", true);
    assert_eq!(many, strings(&["offline", "poe_switch_offline", "keyword_match"]));
}

#[test]
fn only_errors_are_sent_out() {
    assert!(alerts::should_send_telegram_for_error("ERROR", "emergency", &Json::Null));
    assert!(!alerts::should_send_telegram_for_error("info", "emergency", &Json::Null));
    assert!(!alerts::should_send_telegram_for_error("error", "alles gut", &Json::Null));
}

#[test]
fn repeats_wait_a_minute() {
    let mut sent = SentLog::new();
    assert!(!sent.telegram_rate_limited("a", 1_000));
    assert!(sent.telegram_rate_limited("a", 60_999));
    assert!(!sent.telegram_rate_limited("b", 2_000));
    assert!(!sent.telegram_rate_limited("a", 61_000));
    assert!(sent.telegram_rate_limited("a", 0));
}

#[test]
fn alarm_texts_have_a_line_for_each_thing() {
    assert_eq!(
        alerts::alarm_text_at(&settings(), "UPS im Batteriebetrieb - Runtime: 9 min", "W", false),
        "🚨🇨🇭Luzern🚨\nW\nUPS im Batteriebetrieb\nRuntime: 9 min\nAnydeskadresse: <a href=\"anydesk://123\">123</a>"
    );
    assert_eq!(alerts::alarm_text_at(&Json::Null, "x", "W", false), "🚨📍Standort unbekannt🚨\nW\nx");
    assert_eq!(alerts::alarm_text_with("L", &Json::Null, "Runtime: 9", "W"), "🚨L🚨\nW\n");
}

#[test]
fn resolved_texts_name_what_was_solved() {
    assert_eq!(alerts::resolved_text_at(&settings(), "[RESOLVED] UPS ok", "W", false), "✅🇨🇭Luzern✅\nW\nUPS ok");
    assert_eq!(alerts::resolved_text_at(&settings(), "[RESOLVED]", "W", false), "✅🇨🇭Luzern✅\nW\nError geloest");
}

#[test]
fn dates_are_written_with_day_month_and_year() {
    let text = alerts::build_telegram_resolved_text(&Json::Null, "x", 1_767_225_600_000, false);
    let when = text.split('\n').nth(1).unwrap();
    assert_eq!(when.len(), 20);
    assert!(["30.12.2025, ", "31.12.2025, ", "01.01.2026, "].contains(&&when[..12]));
    assert_eq!((&when[14..15], &when[17..18]), (":", ":"));
    let alarm = alerts::build_telegram_alarm_text(&Json::Null, "x", 1_767_225_600_000, false);
    assert_eq!(alarm.split('\n').nth(1), Some(when));
}

#[test]
fn alerts_are_decided() {
    let cfg = settings();
    assert_eq!(
        alerts::decide_alert(&cfg, "error", "emergency"),
        Some((AlertKind::Alarm, "system:emergency".to_string()))
    );
    assert_eq!(
        alerts::decide_alert(&cfg, "info", "[RESOLVED] UPS ok"),
        Some((AlertKind::Resolved, "resolved:UPS ok".to_string()))
    );
    assert_eq!(alerts::decide_alert(&cfg, "info", "[RESOLVED] Kamera ok"), None);
    assert_eq!(alerts::decide_alert(&cfg, "info", "emergency"), None);
    let off = json::parse_json("{\"telegram\": {\"alert_events\": []}}").unwrap();
    assert_eq!(alerts::decide_alert(&off, "error", "emergency"), None);
}

#[test]
fn alerts_need_to_be_set_up() {
    let mut sent = SentLog::new();
    assert_eq!(alerts::critical_telegram_at(&mut sent, &Json::Null, "error", "emergency", 0, "W", false), None);
    let no_chat = json::parse_json("{\"telegram\": {\"enabled\": true, \"bot_token\": \"t\", \"chat_id\": \" \"}}").unwrap();
    assert_eq!(alerts::critical_telegram_at(&mut sent, &no_chat, "error", "emergency", 0, "W", false), None);
    assert_eq!(sent.last.get("system:emergency"), None);
}

#[test]
fn alerts_go_to_both_chats_once() {
    let cfg = settings();
    let mut sent = SentLog::new();
    let m = alerts::critical_telegram_at(&mut sent, &cfg, "error", "emergency", 5_000, "W", false).unwrap();
    assert_eq!((m.bot_token.as_str(), m.chats, m.text.split('\n').nth(2)), ("t", strings(&["c", "k"]), Some("emergency")));
    assert_eq!(alerts::critical_telegram_at(&mut sent, &cfg, "error", "emergency", 6_000, "W", false), None);
    assert!(alerts::critical_telegram(&mut sent, &cfg, "error", "emergency", 65_000, false).is_some());
}

#[test]
fn test_messages_need_token_and_chat() {
    assert_eq!(
        alerts::telegram_test_message(" ", "c", &Json::Null, 0, false),
        Err("Bot-Token oder Chat-ID fehlt".to_string())
    );
    let m = alerts::telegram_test_message(" t ", " c ", &settings(), 0, false).unwrap();
    assert_eq!((m.bot_token.as_str(), m.chats), ("t", strings(&["c"])));
    assert_eq!(
        alerts::test_text_at(&Json::Null, "W", false),
        "🧪📍unbekannt🧪\nW\nTestnachricht\nAnydeskadresse: nicht gesetzt"
    );
    assert_eq!(alerts::text_setting(&settings(), "location_name"), "Luzern");
}

#[test]
fn sending_is_logged() {
    assert_eq!(alerts::telegram_url("T"), "https://api.telegram.org/botT/sendMessage");
    assert_eq!(
        alerts::telegram_send_log("c", true, "200 OK", ""),
        ("info", "Telegram message sent successfully to c".to_string())
    );
    assert_eq!(
        alerts::telegram_send_log("c", false, "400 Bad Request", "b"),
        ("error", "Telegram send to c failed with status 400 Bad Request. Response: b".to_string())
    );
}

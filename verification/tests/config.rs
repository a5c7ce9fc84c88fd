use projektil_control::config;
use projektil_control::config::{TelegramSettings, UiState};
use projektil_control::json;
use projektil_control::json::Json;

fn strings(list: &[&str]) -> Vec<String> {
    list.iter().map(|s| s.to_string()).collect()
}

fn parsed(s: &str) -> Json {
    json::parse_json(s).unwrap()
}

fn untouched() -> UiState {
    UiState {
        demo_mode: None,
        startup_mode: None,
        language: None,
        camera_view_mode: None,
        projector_count: None,
        pixera_octo_count: None,
        amp_count: None,
        interactive_enabled: None,
        interactive_scanner_count: None,
        emergency_switch_enabled: None,
        demo_amp1_mutes: None,
        demo_amp2_mutes: None,
        demo_amp3_mutes: None,
        demo_projector_on: None,
        demo_projector_mute: None,
        projector_control_states: None,
        projector_status_updated_at: None,
    }
}

#[test]
fn defaults_are_those_of_the_installation() {
    let cfg = config::default_config_json();
    assert_eq!(cfg.text_field("pixera_ip"), Some("192.168.1.31"));
    assert_eq!(cfg.integer_field("pixera_port"), Some(1338));
    assert_eq!(cfg.integer_field("d40_oca_port"), Some(30013));
    assert_eq!(cfg.text_field("hotline"), Some("+41 44 492 51 69"));
    assert_eq!(cfg.integer_field("projector_count"), Some(16));
    assert_eq!(cfg.get2("thresholds", "f_min"), Some(&Json::Real(49.5f64.to_bits())));
    assert_eq!(cfg.get2("thresholds", "ups_load_warn").unwrap().as_i64(), Some(80));
    assert_eq!(cfg.get2("telegram", "alert_events").unwrap().as_array().unwrap().len(), 15);
    assert_eq!(cfg.get("demo_projector_on").unwrap().as_array().unwrap().len(), 16);
    assert_eq!(cfg.get2("demo_amp_mutes", "3"), Some(&json::bools_to_json(&vec![false; 4])));
}

#[test]
fn added_settings_have_their_defaults() {
    let fresh = config::default_config_json();
    let cfg = config::ensure_config_defaults(parsed("{\"telegram\": {\"enabled\": true}}"));
    for key in ["amp_count", "d40_03_ip", "pixera_scheduler_module", "demo_amp_mutes", "projector_control_states"] {
        assert_eq!(cfg.get(key), fresh.get(key));
        assert!(cfg.get(key).is_some());
    }
    for key in ["bot_token", "chat_id", "alert_events", "critical_error_keywords"] {
        assert_eq!(cfg.get2("telegram", key), fresh.get2("telegram", key));
        assert!(cfg.get2("telegram", key).is_some());
    }
}

#[test]
fn missing_settings_are_filled_in() {
    let cfg = config::ensure_config_defaults(parsed("{\"language\": \"en\", \"telegram\": {\"enabled\": true}, \"own\": 5}"));
    assert_eq!(cfg.text_field("language"), Some("en"));
    assert_eq!(cfg.integer_field("own"), Some(5));
    assert_eq!(cfg.integer_field("pixera_octo_port"), Some(4000));
    assert_eq!(cfg.get2("telegram", "enabled"), Some(&Json::Bool(true)));
    assert_eq!(cfg.get2("telegram", "chat_id"), Some(&json::text("")));
    assert!(cfg.get("hotline").is_none());
}

#[test]
fn settings_that_are_no_object_are_replaced() {
    assert_eq!(config::ensure_config_defaults(Json::Unsigned(3)), config::default_config_json());
    assert_eq!(config::load_config(None), config::default_config_json());
}

#[test]
fn a_group_that_is_no_object_stays() {
    let cfg = config::ensure_config_defaults(parsed("{\"telegram\": 7}"));
    assert_eq!(cfg.get("telegram"), Some(&Json::Unsigned(7)));
}

#[test]
fn completing_twice_changes_nothing() {
    let once = config::ensure_config_defaults(parsed("{\"amp_count\": 3}"));
    let copy = once.duplicate();
    assert_eq!(config::ensure_config_defaults(copy), once);
}

#[test]
fn site_data_are_trimmed() {
    let cfg = config::site_metadata_config(None, " Luzern ", "\t123 ");
    assert_eq!(cfg.text_field("location_name"), Some("Luzern"));
    assert_eq!(cfg.text_field("anydesk_address"), Some("123"));
}

#[test]
fn hub_settings_are_checked() {
    let ok = config::hub_config(None, " https://hub ", " t ", "p", "d").unwrap();
    assert_eq!(ok.text_field("hub_api_url"), Some("https://hub"));
    assert_eq!(ok.text_field("hub_api_token"), Some("t"));
    assert!(config::hub_config(None, "", "", "", "").is_ok());
    assert_eq!(
        config::hub_config(None, "http://hub", "", "", ""),
        Err("Hub API muss eine HTTPS-URL verwenden".to_string())
    );
    let long = "x".repeat(121);
    assert_eq!(
        config::hub_config(None, "", "", &long, ""),
        Err("Projekt-ID oder Geräte-ID ist zu lang".to_string())
    );
    assert!(config::hub_config(None, "", "", "", &"x".repeat(120)).is_ok());
    assert!(config::hub_config(None, "", "", "", &"ä".repeat(61)).is_err());
}

#[test]
fn alert_events_are_cleaned() {
    assert_eq!(
        config::clean_events(&strings(&[" Panic", "panic ", "", "  ", "offline"])),
        strings(&["panic", "offline"])
    );
    assert!(config::listed(&strings(&["a", "b"]), "b") && !config::listed(&strings(&["a"]), "A"));
}

#[test]
fn telegram_settings_replace_what_is_given() {
    let s = TelegramSettings {
        enabled: true,
        bot_token: " t ".to_string(),
        chat_id: "c".to_string(),
        channel_id: None,
        alert_events: Some(strings(&["PANIC", "panic"])),
    };
    let cfg = config::telegram_config(Some(parsed("{\"telegram\": {\"channel_id\": \"old\"}}")), &s);
    assert_eq!(cfg.get2("telegram", "enabled"), Some(&Json::Bool(true)));
    assert_eq!(cfg.get2("telegram", "bot_token"), Some(&json::text("t")));
    assert_eq!(cfg.get2("telegram", "channel_id"), Some(&json::text("old")));
    assert_eq!(cfg.get2("telegram", "alert_events"), Some(&json::texts_to_json(&strings(&["panic"]))));
}

#[test]
fn nothing_given_changes_nothing() {
    let cfg = config::ui_state_config(None, &untouched());
    assert_eq!(cfg, config::ensure_config_defaults(config::default_config_json()));
}

#[test]
fn interface_state_is_normalised() {
    let s = UiState {
        demo_mode: Some(true),
        startup_mode: Some(" Viewer ".to_string()),
        language: Some("fr".to_string()),
        camera_view_mode: Some("STREAM".to_string()),
        projector_count: Some(0),
        pixera_octo_count: Some(9),
        amp_count: Some(200),
        interactive_scanner_count: Some(0),
        demo_amp2_mutes: Some(vec![true, true, true, true, true]),
        demo_projector_on: Some(vec![true]),
        projector_control_states: Some(strings(&[" ONLINE", "melting"])),
        projector_status_updated_at: Some(77),
        ..untouched()
    };
    let cfg = config::ui_state_config(None, &s);
    assert_eq!(cfg.get("demo_mode"), Some(&Json::Bool(true)));
    assert_eq!(cfg.text_field("startup_mode"), Some("viewer"));
    assert_eq!(cfg.text_field("language"), Some("de"));
    assert_eq!(cfg.text_field("camera_view_mode"), Some("stream"));
    assert_eq!(cfg.integer_field("projector_count"), Some(1));
    assert_eq!(cfg.integer_field("pixera_octo_count"), Some(2));
    assert_eq!(cfg.integer_field("amp_count"), Some(3));
    assert_eq!(cfg.integer_field("interactive_scanner_count"), Some(1));
    assert_eq!(cfg.get2("demo_amp_mutes", "1"), Some(&json::bools_to_json(&vec![false; 4])));
    assert_eq!(cfg.get2("demo_amp_mutes", "2"), Some(&json::bools_to_json(&vec![true; 4])));
    let on = cfg.get("demo_projector_on").unwrap().as_array().unwrap();
    assert_eq!((on.len(), on[0].as_bool(), on[1].as_bool()), (16, Some(true), Some(false)));
    let states = cfg.get("projector_control_states").unwrap().as_array().unwrap();
    assert_eq!((states.len(), states[0].as_str(), states[1].as_str()), (16, Some("online"), Some("unknown")));
    assert_eq!(cfg.integer_field("projector_status_updated_at"), Some(77));
}

#[test]
fn flags_are_padded_and_cut() {
    assert_eq!(config::pad_flags(&vec![true], 3), vec![true, false, false]);
    assert_eq!(config::pad_flags(&vec![true, true], 1), vec![true]);
    assert_eq!(config::normalize_projector_state(" Cooldown"), "cooldown");
}

#[test]
fn offline_mode_is_kept_in_the_settings() {
    let cfg = config::default_config_json();
    assert!(!config::offline_mode_enabled(&cfg));
    let cfg = config::with_offline_mode(cfg, true);
    assert!(config::offline_mode_enabled(&cfg));
}

#[test]
fn development_settings_are_told_by_their_place() {
    let some = |s: &str| Some(s.to_string());
    assert!(config::is_src_tauri_config_path(&some("Config.JSON"), &some("SRC-tauri")));
    assert!(!config::is_src_tauri_config_path(&some("config.json"), &some("app")));
    assert!(!config::is_src_tauri_config_path(&some("other.json"), &some("src-tauri")));
    assert!(!config::is_src_tauri_config_path(&None, &None));
    assert_eq!(config::distinct_paths(&strings(&["a", "b", "a"])), strings(&["a", "b"]));
}

#[test]
fn hub_requests_are_checked_and_answers_kept() {
    assert_eq!(config::hub_request(" https://h ", " t "), Ok(("https://h".to_string(), "t".to_string())));
    assert_eq!(config::hub_request("http://h", "t"), Err("Hub API muss eine HTTPS-URL verwenden".to_string()));
    assert_eq!(config::hub_request("https://h", " "), Err("Hub API-Token fehlt".to_string()));
    assert_eq!(config::hub_body("[1]"), Json::List(vec![Json::Unsigned(1)]));
    assert_eq!(config::hub_body("oops").text_field("raw"), Some("oops"));
    assert_eq!(config::body_or_raw(Err("e".to_string()), "b").text_field("raw"), Some("b"));
    assert_eq!(config::hub_outcome(true, "200 OK", Json::Null, "null"), Ok(Json::Null));
    assert_eq!(
        config::hub_outcome(false, "500 Internal Server Error", Json::Null, "null"),
        Err("Hub API Fehler 500 Internal Server Error: null".to_string())
    );
}

#[test]
fn emergency_button_has_a_usual_address() {
    assert_eq!(config::companion_target(" "), "http://192.168.1.42:8000/api/location/1/2/0/press");
    assert_eq!(config::companion_target("http://x"), "http://x");
}

#[test]
fn saving_keeps_the_other_settings() {
    let stored = || Some(parsed("{\"own\": 5, \"language\": \"en\", \"location_name\": \"x\"}"));
    let s = UiState { demo_mode: Some(true), ..untouched() };
    let cfg = config::ui_state_config(stored(), &s);
    assert_eq!((cfg.integer_field("own"), cfg.text_field("location_name")), (Some(5), Some("x")));
    let cfg = config::site_metadata_config(stored(), "y", "z");
    assert_eq!((cfg.integer_field("own"), cfg.text_field("language")), (Some(5), Some("en")));
    let cfg = config::hub_config(stored(), "", "", "", "").unwrap();
    assert_eq!((cfg.integer_field("own"), cfg.text_field("location_name")), (Some(5), Some("x")));
}

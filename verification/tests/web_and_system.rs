use projektil_control::json;
use projektil_control::json::Json;
use projektil_control::system;
use projektil_control::webapi;
use projektil_control::webapi::{ArgValue, Param, ParamKind, Refusal, Route, WebMethod};

fn parsed(s: &str) -> Json {
    json::parse_json(s).unwrap()
}

fn read(kind: ParamKind, args: &str) -> Result<ArgValue, String> {
    let p = Param { kind, key: "aKey", alias: Some("a_key") };
    let args = parsed(args);
    webapi::read_param(&p, webapi::arg_value(&args, &p))
}

fn text(s: &str) -> ArgValue {
    ArgValue::Text(s.to_string())
}

#[test]
fn parameters_stand_under_either_key() {
    assert_eq!(read(ParamKind::Text, "{\"aKey\": \"x\", \"a_key\": \"y\"}"), Ok(text("x")));
    assert_eq!(read(ParamKind::Text, "{\"a_key\": \"y\"}"), Ok(text("y")));
    assert!(read(ParamKind::Text, "{\"aKey\": null, \"a_key\": \"y\"}").is_err());
    assert_eq!(read(ParamKind::Text, "[]"), Err("Fehlender String-Parameter: aKey/a_key".to_string()));
}

#[test]
fn parameters_are_read_by_kind() {
    assert_eq!(read(ParamKind::OptText, "{\"aKey\": 5}"), Ok(ArgValue::OptText(None)));
    assert_eq!(read(ParamKind::Bool, "{\"aKey\": true}"), Ok(ArgValue::Bool(true)));
    assert_eq!(read(ParamKind::OptBool, "{}"), Ok(ArgValue::OptBool(None)));
    assert_eq!(read(ParamKind::Byte, "{\"aKey\": 258}"), Ok(ArgValue::Byte(2)));
    assert_eq!(read(ParamKind::OptByte, "{\"aKey\": -1}"), Ok(ArgValue::OptByte(None)));
    assert_eq!(read(ParamKind::Port, "{\"aKey\": 65537}"), Ok(ArgValue::Port(1)));
    assert_eq!(read(ParamKind::OptPort, "{\"aKey\": 161}"), Ok(ArgValue::OptPort(Some(161))));
    assert_eq!(read(ParamKind::OptWide, "{\"aKey\": 161}"), Ok(ArgValue::OptWide(Some(161))));
    assert_eq!(read(ParamKind::OptSize, "{\"aKey\": 1.5}"), Ok(ArgValue::OptWide(None)));
    assert_eq!(read(ParamKind::Real, "{\"aKey\": 1.5}"), Ok(ArgValue::Real(Json::Real(1.5f64.to_bits()))));
    assert_eq!(read(ParamKind::Real, "{\"aKey\": -2}"), Ok(ArgValue::Real(Json::Negative(-2))));
    assert_eq!(read(ParamKind::Texts, "{\"aKey\": [\"x\", 3, \"y\"]}"), Ok(ArgValue::Texts(vec!["x".to_string(), "y".to_string()])));
    assert_eq!(read(ParamKind::OptTexts, "{}"), Ok(ArgValue::OptTexts(None)));
    assert_eq!(read(ParamKind::OptFlags, "{\"aKey\": [true, 3]}"), Ok(ArgValue::OptFlags(Some(vec![true, false]))));
    assert_eq!(read(ParamKind::OptCount(1, 16), "{\"aKey\": 300}"), Ok(ArgValue::OptByte(Some(16))));
    assert_eq!(read(ParamKind::OptCount(1, 16), "{\"aKey\": 0}"), Ok(ArgValue::OptByte(Some(1))));
    assert_eq!(read(ParamKind::Payload, "{\"aKey\": null}"), Ok(ArgValue::Value(Json::Null)));
    assert_eq!(read(ParamKind::Payload, "{}"), Ok(ArgValue::Value(Json::Object(json::empty_object()))));
    assert_eq!(read(ParamKind::OptValues, "{\"aKey\": [1]}"), Ok(ArgValue::OptValues(Some(vec![Json::Unsigned(1)]))));
}

#[test]
fn missing_parameters_are_named() {
    let missing = |kind: ParamKind| read(kind, "{}").unwrap_err();
    assert_eq!(missing(ParamKind::Bool), "Fehlender Bool-Parameter: aKey/a_key");
    assert_eq!(missing(ParamKind::Byte), "Fehlender u8-Parameter: aKey/a_key");
    assert_eq!(missing(ParamKind::Port), "Fehlender u16-Parameter: aKey/a_key");
    assert_eq!(missing(ParamKind::Real), "Fehlender f32-Parameter: aKey/a_key");
    assert_eq!(missing(ParamKind::Texts), "Fehlender Array-Parameter: aKey/a_key");
    let one = Param { kind: ParamKind::Text, key: "ip", alias: None };
    assert_eq!(webapi::read_param(&one, None), Err("Fehlender String-Parameter: ip".to_string()));
}

#[test]
fn commands_get_their_values_in_order() {
    let call = webapi::remote_invoke_dispatch("http_ping", &parsed("{\"ip\": \"h\", \"port\": 80}"), false).unwrap();
    assert_eq!((call.name, call.args), ("http_ping", vec![text("h"), ArgValue::Port(80)]));
    assert_eq!(
        webapi::remote_invoke_dispatch("http_ping", &parsed("{\"port\": 80}"), false),
        Err("Fehlender String-Parameter: ip".to_string())
    );
    let call = webapi::remote_invoke_dispatch("save_ui_state", &parsed("{\"lang\": \"en\", \"ampCount\": 9}"), false).unwrap();
    assert_eq!(call.args.len(), 17);
    assert_eq!(call.args[2], ArgValue::OptText(Some("en".to_string())));
    assert_eq!(call.args[6], ArgValue::OptByte(Some(3)));
    let call = webapi::remote_invoke_dispatch("get_config", &Json::Null, false).unwrap();
    assert_eq!((call.name, call.args.len()), ("get_config", 0));
}

#[test]
fn some_commands_need_the_application() {
    assert_eq!(
        webapi::remote_invoke_dispatch("load_app_logs", &Json::Null, false),
        Err("AppHandle ist nicht initialisiert".to_string())
    );
    let call = webapi::remote_invoke_dispatch("load_app_logs", &parsed("{\"limit\": 5}"), true).unwrap();
    assert_eq!(call.args, vec![ArgValue::OptWide(Some(5))]);
}

#[test]
fn unknown_commands_are_refused() {
    assert_eq!(
        webapi::remote_invoke_dispatch("format_disk", &Json::Null, true),
        Err("Unbekannter Invoke-Command: format_disk".to_string())
    );
    assert_eq!(webapi::remote_invoke_dispatch("quit_app", &Json::Null, true).unwrap().name, "quit_app");
}

#[test]
fn paths_lead_to_routes() {
    let get = |url: &str| webapi::route_request(WebMethod::Get, url);
    assert_eq!(get("/?x=1"), Route::Index);
    assert_eq!(get("/index.html"), Route::Index);
    assert_eq!(get("/js/utils.js"), Route::Utils);
    assert_eq!(get("/js/tauri-bridge.js?v=2"), Route::Bridge);
    assert_eq!(get("/js/other.js"), Route::NotFound);
    assert_eq!(get("/icon.ico"), Route::Favicon);
    assert_eq!(get("/api/health"), Route::Health);
    assert_eq!(get("/api/invoke"), Route::NotFound);
    assert_eq!(webapi::route_request(WebMethod::Options, "/api/invoke"), Route::Preflight);
    assert_eq!(webapi::route_request(WebMethod::Post, "/api/invoke"), Route::Invoke);
    assert_eq!(webapi::route_request(WebMethod::Post, "/"), Route::NotFound);
    assert_eq!(webapi::route_request(WebMethod::Other, "/"), Route::NotFound);
    assert_eq!(webapi::content_type(Route::Utils), "application/javascript; charset=utf-8");
    assert_eq!(webapi::content_type(Route::Favicon), "image/x-icon");
}

#[test]
fn bodies_are_limited() {
    assert_eq!(webapi::invoke_body_len(Some(1_048_576)), Ok(1_048_576));
    assert_eq!(webapi::invoke_body_len(Some(1_048_577)), Err(Refusal { status: 413, error: "Request-Body zu groß" }));
    assert_eq!(webapi::invoke_body_len(None), Err(Refusal { status: 411, error: "Content-Length erforderlich" }));
    assert_eq!(webapi::broken_body(), Refusal { status: 400, error: "Ungültiger Request-Body" });
}

#[test]
fn bodies_name_a_command() {
    let body = |s: &str| webapi::read_invocation(s.as_bytes().to_vec());
    assert_eq!(body("{\"cmd\": \"x\", \"args\": [1]}"), Ok(("x".to_string(), parsed("[1]"))));
    assert_eq!(body("{\"cmd\": \"x\"}"), Ok(("x".to_string(), parsed("{}"))));
    assert_eq!(body("{\"cmd\": 5}"), Err(Refusal { status: 400, error: "Fehlender cmd-Parameter" }));
    assert_eq!(body("{"), Err(Refusal { status: 400, error: "Ungültiges JSON" }));
    assert_eq!(
        webapi::read_invocation(vec![0xff]),
        Err(Refusal { status: 400, error: "Request-Body muss UTF-8 sein" })
    );
    assert_eq!(
        webapi::invocation_in(Err("e".to_string())),
        Err(Refusal { status: 400, error: "Ungültiges JSON" })
    );
}

#[test]
fn commands_are_answered() {
    let (status, reply) = webapi::invoke_reply(Ok(Json::Unsigned(3)));
    assert_eq!((status, reply.get("ok"), reply.get("data")), (200, Some(&Json::Bool(true)), Some(&Json::Unsigned(3))));
    let (status, reply) = webapi::invoke_reply(Err("e".to_string()));
    assert_eq!((status, reply.get("ok"), reply.text_field("error")), (500, Some(&Json::Bool(false)), Some("e")));
    assert_eq!(webapi::error_reply("x").text_field("error"), Some("x"));
    let r = webapi::health_reply(None);
    assert_eq!((r.text_field("mode"), r.integer_field("port")), (Some("lan-webgui"), Some(41778)));
    assert_eq!(r.integer_field("camera_port"), Some(41777));
    assert_eq!(webapi::health_reply(Some(80)).integer_field("port"), Some(80));
}

#[test]
fn failed_pings_are_judged() {
    assert_eq!(system::ping_error("CONNECTION REFUSED (os error 111)"), "REFUSED");
    assert_eq!(system::ping_error("Connection Timed Out"), "TIMEOUT");
    assert_eq!(system::ping_error("Network is unreachable"), "UNREACHABLE");
    assert_eq!(system::ping_error("Der HOST ist NICHT ERREICHBAR"), "UNREACHABLE");
    assert_eq!(system::ping_error("?"), "REFUSED");
    assert_eq!(system::judge_ping_error("timeout on host"), "TIMEOUT");
}

#[test]
fn batteries_are_read() {
    let out = |s: &str| system::battery_status(true, &s.as_bytes().to_vec());
    let r = out(" {\"EstimatedChargeRemaining\": 77, \"BatteryStatus\": 2}\r\n").unwrap();
    assert_eq!(r.get("available"), Some(&Json::Bool(true)));
    assert_eq!((r.integer_field("percent"), r.integer_field("status")), (Some(77), Some(2)));
    let r = out("[{\"BatteryStatus\": 1}, 5]").unwrap();
    assert_eq!((r.integer_field("percent"), r.integer_field("status")), (Some(-1), Some(1)));
    for s in ["", "null", "[]", "[null]"] {
        let r = out(s).unwrap();
        assert_eq!(r.get("available"), Some(&Json::Bool(false)));
        assert!(r.get("percent").is_none());
    }
    assert_eq!(out("{").unwrap_err(), json::parse_json("{").unwrap_err());
    assert_eq!(system::battery_status(false, &Vec::new()), Err("Battery query failed".to_string()));
    assert_eq!(system::battery_unsupported().text_field("reason"), Some("unsupported-platform"));
    assert_eq!(system::battery_from(Err("e".to_string())), Err("e".to_string()));
}

#[test]
fn meter_registers_are_read() {
    assert_eq!(
        system::modbus_request(system::METER_START, system::METER_COUNT),
        vec![0, 1, 0, 0, 0, 6, 1, 3, 0x4a, 0x38, 0, 52]
    );
    assert_eq!(system::modbus_response_len(52), 113);
    let mut response = vec![0u8; 9];
    response.extend_from_slice(&230.5f32.to_be_bytes());
    response.extend_from_slice(&50.0f32.to_be_bytes());
    let data = system::modbus_registers(&response);
    assert_eq!(f32::from_bits(system::register_pattern(&data, 0)), 230.5);
    assert_eq!(f32::from_bits(system::register_pattern(&data, 4)), 50.0);
    assert_eq!(system::register_pattern(&data, 5), 0);
    assert_eq!(system::register_pattern(&data, usize::MAX), 0);
    let offsets: Vec<usize> = (0..8).map(system::meter_value_offset).collect();
    assert_eq!(offsets, vec![0, 4, 8, 24, 28, 32, 52, 100]);
}

#[test]
fn meter_values_are_reported() {
    let values = (0..8).map(|i| Json::Unsigned(i)).collect();
    let r = system::meter_report(&values, &vec!["w".to_string()]);
    for (i, key) in ["v_l1", "v_l2", "v_l3", "i_l1", "i_l2", "i_l3", "power_kw", "frequency"].iter().enumerate() {
        assert_eq!(r.integer_field(key), Some(i as i64));
    }
    assert_eq!(r.get("warnings"), Some(&Json::List(vec![json::text("w")])));
}

use projektil_control::anydesk;
use projektil_control::anydesk::CliRun;
use projektil_control::camera;
use projektil_control::camera::{FrameBuffer, MjpegRequest};
use projektil_control::json;
use projektil_control::json::Json;
use projektil_control::oca;
use projektil_control::oca::{GainPlan, OcaPlan};
use projektil_control::osc;
use projektil_control::osc::Inbound;
use projektil_control::pjlink;
use projektil_control::pjlink::LineBuffer;
use projektil_control::projector_extras;
use projektil_control::projector_extras::{EpsonExtras, EpsonStep, PanasonicExtras, ProjectorExtras, Transport};

fn strings(list: &[&str]) -> Vec<String> {
    list.iter().map(|s| s.to_string()).collect()
}

// AnyDesk

#[test]
fn standard_directory_comes_first() {
    let names = strings(&["AnyDesk-abc", "Other", "AnyDesk", "AnyDeskX", "AnyDesk-x"]);
    assert_eq!(anydesk::find_anydesk_dirs(&names), vec![2, 0, 4]);
}

#[test]
fn id_stands_in_the_configuration() {
    assert_eq!(
        anydesk::parse_id_from_conf("x=1\r\n  ad.anynet.id= 123 \r\nad.anynet.id=9"),
        Some("123".to_string())
    );
    assert_eq!(anydesk::parse_id_from_conf("ad.anynet.id=\n"), None);
    assert_eq!(
        anydesk::get_id_from_system_conf(&strings(&["", "ad.anynet.id=77"])),
        Some("77".to_string())
    );
}

#[test]
fn id_comes_from_the_program_else() {
    let run = |success: bool, out: &str| Some(CliRun { success, stdout: out.as_bytes().to_vec() });
    assert_eq!(anydesk::get_id(&strings(&["ad.anynet.id=5"]), &run(true, "6")), Ok(Some("5".to_string())));
    assert_eq!(anydesk::get_id(&Vec::new(), &run(true, " 6\r\n")), Ok(Some("6".to_string())));
    assert_eq!(anydesk::get_id(&Vec::new(), &run(false, "6")), Ok(None));
    assert_eq!(anydesk::get_id(&Vec::new(), &run(true, "SERVICE_NOT_RUNNING")), Ok(None));
    assert_eq!(anydesk::get_id(&Vec::new(), &None), Ok(None));
    assert_eq!(anydesk::get_id_from_cli(&Some(CliRun { success: true, stdout: vec![0x31, 0xff] })), None);
    assert_eq!(anydesk::parse_id_from_output(""), None);
}

// Amplifiers

#[test]
fn hex_texts_are_read() {
    assert_eq!(oca::hex_to_bytes("3b00fF"), Ok(vec![0x3b, 0x00, 0xff]));
    assert_eq!(oca::hex_to_bytes(""), Ok(Vec::new()));
    assert_eq!(oca::hex_to_bytes("+1"), Ok(vec![1]));
    assert!(oca::hex_to_bytes("zz").is_err());
    assert_eq!(
        oca::get_cmd_bytes("mute_A"),
        oca::hex_to_bytes("3b00010000001b01000100000012000006c410008205000400020101")
    );
    assert_eq!(
        oca::get_cmd_bytes("unmute_D"),
        oca::hex_to_bytes("3b00010000001b01000100000012000006cb10020205000400020102")
    );
    assert_eq!(oca::get_cmd_bytes("x"), Err("Unknown: x".to_string()));
}

#[test]
fn amplifier_commands_are_planned() {
    let ask = oca::hex_to_bytes("3b00010000001701000100000012000006c61001820300020001").unwrap();
    assert_eq!(oca::plan_command("get_mute_C"), OcaPlan::Ask(ask));
    assert_eq!(oca::plan_command("get_mute_X"), OcaPlan::AskUnknown);
    let send = oca::hex_to_bytes("3b00010000001b01000100000012000006c910010205000400020102").unwrap();
    assert_eq!(oca::plan_command("unmute_B"), OcaPlan::Send(send));
    assert_eq!(
        oca::plan_command("mute_all"),
        OcaPlan::SendEach(vec![
            oca::set_mute_command('A', true),
            oca::set_mute_command('B', true),
            oca::set_mute_command('C', true),
            oca::set_mute_command('D', true),
        ])
    );
    assert_eq!(oca::plan_command("dance"), OcaPlan::Refuse("Unknown command: dance".to_string()));
    assert_eq!(oca::OCA_PORT, 30013);
}

#[test]
fn presets_send_their_stored_frame() {
    for (n, command) in [(1, "preset_1"), (2, "preset_2"), (3, "preset_3")] {
        assert_eq!(oca::plan_command(command), OcaPlan::Preset(n));
    }
    assert_eq!(
        oca::plan_command("preset_4"),
        OcaPlan::Refuse("Unknown command: preset_4".to_string())
    );
    let cfg = json::parse_json("{\"d40_presets\": [\"3B01fe\", \"3b0\", 7, \"\u{e4}\"]}").unwrap();
    let frames = oca::preset_frames(&cfg);
    assert_eq!(frames, vec![vec![0x3b, 0x01, 0xfe], vec![], vec![], vec![]]);
    assert_eq!(oca::preset_frame(1, &frames), Ok(vec![0x3b, 0x01, 0xfe]));
    assert_eq!(
        oca::preset_frame(2, &frames),
        Err("No frame is stored for preset 2".to_string())
    );
    assert_eq!(
        oca::preset_frame(3, &Vec::new()),
        Err("No frame is stored for preset 3".to_string())
    );
    assert_eq!(
        oca::preset_frame(0, &frames),
        Err("No frame is stored for preset 0".to_string())
    );
    assert_eq!(oca::preset_frames(&json::text("x")), Vec::<Vec<u8>>::new());
    assert_eq!(
        oca::preset_frames(&json::parse_json("{\"d40_presets\": 1}").unwrap()),
        Vec::<Vec<u8>>::new()
    );
}

#[test]
fn last_byte_tells_the_mute_state() {
    assert_eq!(oca::mute_reply(&vec![0, 0, 1]), Ok("muted:true".to_string()));
    assert_eq!(oca::mute_reply(&vec![1, 0]), Ok("muted:false".to_string()));
    assert_eq!(oca::mute_reply(&Vec::new()), Err("No mute status response".to_string()));
    assert_eq!(oca::sent_report("mute_A", "10.0.0.1"), "mute_A sent to 10.0.0.1");
    assert_eq!(oca::all_sent_report("mute_all"), "mute_all sent");
    assert_eq!(oca::unknown_mute_report(), "muted:unknown");
}

#[test]
fn addresses_are_percent_encoded() {
    assert_eq!(oca::url_encode("VALUE +3"), "VALUE%20%2B3");
    assert_eq!(oca::url_encode("a-_.~Z9ä"), "a-_.~Z9%C3%A4");
    assert_eq!(oca::eleinfo_path(360, 80), "/dxcmd.cgi?cmd=ELEINFO%20360%2080");
    assert_eq!(oca::http_request("h", "/p"), "GET /p HTTP/1.0\r\nHost: h\r\nConnection: close\r\n\r\n");
}

#[test]
fn encoded_texts_read_back() {
    let s = "TOUCH 360 80 / ä%";
    let encoded = oca::url_encode(s);
    let bytes = encoded.as_bytes();
    let mut out = Vec::new();
    let mut i = 0;
    while i < bytes.len() {
        if bytes[i] == b'%' {
            out.push(u8::from_str_radix(&encoded[i + 1..i + 3], 16).unwrap());
            i += 3;
        } else {
            out.push(bytes[i]);
            i += 1;
        }
    }
    assert_eq!(String::from_utf8(out).unwrap(), s);
}

#[test]
fn bodies_follow_the_headers() {
    assert_eq!(oca::response_body("H: x\r\n\r\nbody\r\n\r\nmore"), "body\r\n\r\nmore");
    assert_eq!(oca::response_body("no headers"), "no headers");
    assert_eq!(oca::http_body(&b"H\r\n\r\n\xffx".to_vec()), "\u{fffd}x");
}

#[test]
fn element_info_is_a_list_of_fields() {
    let m = oca::parse_eleinfo("Type=Fader, VALUE = -3.5 dB,junk").unwrap();
    assert_eq!(m.get("value").map(|s| s.as_str()), Some("-3.5 dB"));
    assert_eq!(m.get("type").map(|s| s.as_str()), Some("Fader"));
    assert_eq!(m.get("junk"), None);
    assert_eq!(oca::split_field(" ÄB = x=y "), Some(("ÄB".to_string(), "x=y".to_string())));
    assert_eq!(oca::parse_eleinfo("ÄB=x").unwrap().get("äb").map(|s| s.as_str()), Some("x"));
    assert_eq!(oca::parse_eleinfo("junk").err(), Some("Invalid ELEINFO response: junk".to_string()));
    assert_eq!(oca::eleinfo("Error 3").err(), Some("Error 3".to_string()));
}

#[test]
fn channels_are_reported() {
    let gain = oca::parse_eleinfo("value=-3 dB").unwrap();
    let state = oca::parse_eleinfo("value=1").unwrap();
    let empty = oca::parse_eleinfo("x=1").unwrap();
    let r = oca::channel_report("A", &gain, &state);
    assert_eq!((r.text_field("gain"), r.text_field("status")), (Some("-3 dB"), Some("1")));
    assert_eq!(r.get("muted"), Some(&Json::Bool(true)));
    let r = oca::channel_report("B", &empty, &empty);
    assert_eq!((r.text_field("gain"), r.text_field("status")), (Some("-- dB"), Some("0")));
    assert_eq!(r.get("muted"), Some(&Json::Bool(false)));
    let all = oca::amp_report("h", vec![r]);
    assert_eq!(all.get("channels").unwrap().as_array().unwrap().len(), 1);
    assert_eq!(oca::channel_at(2), (200, "C".to_string()));
}

#[test]
fn gain_changes_are_planned_in_steps() {
    assert_eq!(
        oca::plan_gain(1, -3, "0.0"),
        Ok(GainPlan::Change(
            "/dxcmd.cgi?cmd=TOUCH%20360%20120".to_string(),
            "/dxcmd.cgi?cmd=VALUE%20-3".to_string(),
            "Set gain channel 1 by -3 steps".to_string()
        ))
    );
    assert_eq!(oca::plan_gain(0, 0, "-3.5"), Ok(GainPlan::Nothing("Gain already at -3.5 dB".to_string())));
    assert_eq!(oca::plan_gain(4, 1, "0.0"), Err("Unsupported channel: 4".to_string()));
}

// Open Sound Control

#[test]
fn packets_are_padded_to_four_bytes() {
    assert_eq!(osc::osc_padded_string_bytes("abc"), b"abc\0".to_vec());
    assert_eq!(osc::osc_padded_string_bytes("abcd"), b"abcd\0\0\0\0".to_vec());
    assert_eq!(osc::build_notaus_osc_packet(), b"/notaus\0,i\0\0\0\0\0\x01".to_vec());
    assert_eq!(osc::build_osc_packet("/emergency_reset").len() % 4, 0);
}

#[test]
fn emergency_stop_has_a_usual_target() {
    assert_eq!(osc::notaus_address(&None, None), "192.168.1.31:8000");
    assert_eq!(osc::notaus_address(&Some(" 10.0.0.1 ".to_string()), Some(9)), "10.0.0.1:9");
    assert_eq!(osc::notaus_address(&Some("  ".to_string()), None), "192.168.1.31:8000");
}

#[test]
fn sending_is_reported() {
    assert_eq!(osc::sending_log("/x", "t"), "[OSC OUT] Sending /x to t");
    assert_eq!(osc::send_failure("/x", "e"), "[OSC OUT ERROR] /x send failed: e");
    assert_eq!(osc::sent_report("/x", 8, 8), Ok("[OSC OUT] /x sent successfully (8 bytes)".to_string()));
    assert_eq!(osc::sent_report("/x", 4, 8), Err("[OSC OUT ERROR] /x incomplete: 4 von 8 Bytes".to_string()));
    assert_eq!(osc::received_log(3, "a"), "[OSC] Received 3 bytes from a");
}

#[test]
fn incoming_messages_are_told_apart() {
    assert_eq!(osc::classify_inbound(&b"/emergency_pressed\0\0".to_vec()), Inbound::Emergency);
    assert_eq!(osc::classify_inbound(&b"/emergency".to_vec()), Inbound::Unknown("[OSC] Unknown command: /emergency".to_string()));
    assert_eq!(osc::classify_inbound(&b"hello".to_vec()), Inbound::Other);
    assert_eq!(osc::classify_inbound(&b"/\xff".to_vec()), Inbound::Other);
    let long = format!("/{}", "x".repeat(80)).into_bytes();
    assert_eq!(osc::classify_inbound(&long), Inbound::Unknown(format!("[OSC] Unknown command: /{}", "x".repeat(49))));
}

// Projectors over PJLink

#[test]
fn lines_end_at_the_first_break() {
    let mut line = LineBuffer::new();
    let mut done = Vec::new();
    for b in b"\r\nOK\rX" {
        done.push(line.feed(*b));
        if *done.last().unwrap() {
            break;
        }
    }
    assert_eq!(done, vec![false, false, false, false, true]);
    assert_eq!(line.finish(), Ok("OK".to_string()));
    assert_eq!(LineBuffer::new().finish(), Err("PJLink empty response".to_string()));
}

#[test]
fn greetings_give_a_prefix() {
    assert_eq!(pjlink::pjlink_auth_prefix("PJLINK 0", "p"), Ok(String::new()));
    assert_eq!(
        pjlink::pjlink_auth_prefix("PJLINK 1 498e4a67", "JBMIAProjectorLink"),
        Ok("5d8409bc1c3fa39749434aa3a5c38682".to_string())
    );
    assert_eq!(
        pjlink::pjlink_auth_material("PJLINK 1 498e4a67", "x"),
        Ok(Some("498e4a67x".to_string()))
    );
    assert_eq!(pjlink::pjlink_auth_prefix("HELLO", "p"), Err("Unexpected PJLink hello: HELLO".to_string()));
}

#[test]
fn answers_are_taken_apart() {
    assert_eq!(pjlink::pjlink_parse_value("%1POWR=1", "POWR"), Some("1".to_string()));
    assert_eq!(pjlink::pjlink_parse_value("%1POWR=1", "AVMT"), None);
    assert_eq!(pjlink::pjlink_parse_model("%1INF= Epson , EB-1 ,x"), Some("Epson EB-1".to_string()));
    assert_eq!(pjlink::pjlink_parse_model("%1INF=Epson"), None);
    assert_eq!(pjlink::pjlink_parse_model("%1INF=Epson, "), None);
    assert!(pjlink::has_address("10.0.0.1") && !pjlink::has_address(" 0.0.0.0 ") && !pjlink::has_address(" "));
}

#[test]
fn projector_polls_are_reported() {
    let ok = |s: &str| Ok::<String, String>(s.to_string());
    let err = Err::<String, String>("down".to_string());
    let r = pjlink::pjlink_poll_report("h", &ok("%1POWR=3"), &ok("%1ERST=000000"), &ok("%1AVMT=31"), &ok("%1LAMP=120 1"));
    assert_eq!(r.text_field("powerIsOn"), Some("WarmUp"));
    assert_eq!(r.text_field("errorState"), Some(""));
    assert_eq!(r.get("shutterMuted"), Some(&Json::Bool(true)));
    assert_eq!(r.integer_field("lampHours"), Some(120));
    assert_eq!(r.get("isConnected"), Some(&Json::Bool(true)));
    let r = pjlink::pjlink_poll_report("h", &ok("%1POWR=ERR4"), &ok("%1ERST=ERR3"), &err, &err);
    assert_eq!(r.get("powerIsOn"), Some(&Json::Bool(false)));
    assert_eq!(r.text_field("errorState"), Some("POWR ERR4"));
    assert!(r.get("lampHours").unwrap().is_null());
    let r = pjlink::pjlink_poll_report("h", &err, &ok("%1ERST=100000"), &err, &err);
    assert_eq!(r.text_field("errorState"), Some("ERST 100000"));
    let r = pjlink::pjlink_poll_report("h", &ok("%1POWR=ERR3"), &err, &err, &err);
    assert_eq!(r.text_field("powerIsOn"), Some("Transitioning"));
    let power = |v: &str| {
        pjlink::pjlink_poll_report("h", &ok(&format!("%1POWR={}", v)), &err, &err, &err).get("powerIsOn").unwrap().duplicate()
    };
    assert_eq!(power("0"), Json::Bool(false));
    assert_eq!(power("1"), Json::Bool(true));
    assert_eq!(power("2"), Json::Text("Cooling".to_string()));
    assert_eq!(pjlink::poll_without_address("").get("hasIp"), Some(&Json::Bool(false)));
    assert_eq!(pjlink::poll_unreachable("h", "e").text_field("errorState"), Some("e"));
    assert_eq!(pjlink::poll_command(3), "%1LAMP ?");
}

#[test]
fn models_are_reported() {
    let ok = |s: &str| Ok::<String, String>(s.to_string());
    let err = Err::<String, String>("down".to_string());
    let model = |a: &Result<String, String>, b: &Result<String, String>, c: &Result<String, String>| {
        pjlink::pjlink_model_report("h", a, b, c).text_field("model").unwrap().to_string()
    };
    assert_eq!(model(&err, &ok("%1INF1=Epson"), &ok("%1INF2=EB")), "Epson EB");
    assert_eq!(model(&err, &ok("%1INF1=ERR1"), &ok("%1INF2=EB")), "EB");
    assert_eq!(model(&ok("%1INF=A,B"), &ok("%1INF1=x"), &ok("%1INF2= ")), "A B");
    assert_eq!(model(&err, &err, &err), "Unknown");
    assert_eq!(pjlink::model_command(1), "%1INF1 ?");
    assert_eq!(pjlink::model_without_address("").text_field("model"), Some("Unknown"));
    assert_eq!(pjlink::model_unreachable("h", "e").text_field("errorState"), Some("e"));
}

#[test]
fn refused_switching_is_an_error() {
    assert_eq!(pjlink::power_command(true), "%1POWR 1");
    assert_eq!(pjlink::shutter_command(false), "%1AVMT 30");
    assert_eq!(pjlink::check_switched("SetPower", "%1POWR=OK"), Ok(true));
    assert_eq!(
        pjlink::check_switched("SetPower", "%1POWR=ERR2"),
        Err("PJLink SetPower error: %1POWR=ERR2".to_string())
    );
}

// Projector extras

#[test]
fn brands_have_their_own_commands() {
    let p = projector_extras::projector_extras_for_brand("panasonic", None);
    assert_eq!(p.transport(), Transport::Panasonic);
    assert_eq!((p.set_test_pattern(true), p.set_test_pattern(false)), ("OTS:01".to_string(), "OTS:00".to_string()));
    assert_eq!((p.get_test_pattern(), p.switch_to_hdmi1()), ("QTS".to_string(), "IIS:HD1".to_string()));
    let e = projector_extras::projector_extras_for_brand("EPSON", Some("pw".to_string()));
    assert_eq!(e.transport(), Transport::Epson(Some("pw".to_string())));
    assert_eq!(e.set_test_pattern(true), "TESTPATTERN+01+06");
    assert_eq!(e.switch_to_hdmi1(), "SOURCE+30");
    assert_eq!(EpsonExtras { password: None }.get_test_pattern(), "TESTPATTERN?");
    assert_eq!(PanasonicExtras.set_test_pattern(false), "OTS:00");
    assert!(projector_extras::epson_pattern_in("TESTPATTERN=01,06"));
    assert!(!projector_extras::epson_pattern_in("TESTPATTERN=00"));
}

#[test]
fn protected_projectors_get_a_hash() {
    assert_eq!(projector_extras::panasonic_payload("NTCONTROL 0", "QTS"), "QTS\r");
    assert_eq!(
        projector_extras::panasonic_material("NTCONTROL 1 23181e1e"),
        Some("admin1:panasonic:23181e1e".to_string())
    );
    let payload = projector_extras::panasonic_payload("NTCONTROL 1 23181e1e\r", "OTS:01");
    assert_eq!(payload, format!("{:x}OTS:01\r", md5::compute("admin1:panasonic:23181e1e")));
    assert_eq!(projector_extras::command_line("p", "c"), "pc\r");
    assert_eq!(projector_extras::panasonic_response("h", "c", " 001\r"), Ok("001".to_string()));
    assert_eq!(
        projector_extras::panasonic_response("h", "c", "ERR401"),
        Err("Panasonic h lehnte Befehl 'c' ab: ERR401".to_string())
    );
}

#[test]
fn challenges_are_read() {
    let m = projector_extras::parse_digest_params("realm=\"r, x\", nonce = \"n\" ,qop=auth");
    assert_eq!(m.get("nonce").map(|s| s.as_str()), Some("n"));
    assert_eq!(m.get("qop").map(|s| s.as_str()), Some("auth"));
    assert_eq!(m.get("realm").map(|s| s.as_str()), Some("\"r"));
    assert_eq!(projector_extras::split_at_equals("a=b=c"), Some(("a".to_string(), "b=c".to_string())));
    assert_eq!(projector_extras::split_at_equals("a"), None);
}

#[test]
fn challenges_are_answered() {
    let challenge = projector_extras::parse_digest_params("realm=\"r\", nonce=\"n\", qop=\"auth\", opaque=\"o\"");
    let header = projector_extras::epson_digest_auth_header("pw", &challenge, "GET", "/u", "00000001", "abcdefgh").unwrap();
    let ha1 = format!("{:x}", md5::compute("EPSONWEB:r:pw"));
    let ha2 = format!("{:x}", md5::compute("GET:/u"));
    let response = format!("{:x}", md5::compute(format!("{}:n:00000001:abcdefgh:auth:{}", ha1, ha2)));
    assert_eq!(
        header,
        format!(
            "Digest username=\"EPSONWEB\", realm=\"r\", nonce=\"n\", uri=\"/u\", response=\"{}\", qop=auth, \
             nc=00000001, cnonce=\"abcdefgh\", opaque=\"o\"",
            response
        )
    );
    let old = projector_extras::parse_digest_params("realm=r, nonce=n");
    let header = projector_extras::epson_digest_auth_header("pw", &old, "GET", "/u", "1", "c").unwrap();
    let response = format!("{:x}", md5::compute(format!("{}:n:{}", ha1, ha2)));
    assert!(header.ends_with(&format!("response=\"{}\"", response)));
    let bad = projector_extras::parse_digest_params("realm=r");
    assert_eq!(projector_extras::epson_digest_auth_header("pw", &bad, "GET", "/u", "1", "c"), None);
    assert_eq!(
        projector_extras::digest_header(&old, "/u", "1", "c", "R"),
        Some("Digest username=\"EPSONWEB\", realm=\"r\", nonce=\"n\", uri=\"/u\", response=\"R\"".to_string())
    );
}

#[test]
fn web_answers_are_judged() {
    let pw = Some("pw".to_string());
    let first = |p: &Option<String>, status: u16, auth: Option<&str>, body: &str| {
        projector_extras::epson_after_first("h", p, "SOURCE+30", "abcdefgh99", status, &auth.map(|s| s.to_string()), body)
    };
    let failed = |s: &str| EpsonStep::Done(Err(s.to_string()));
    assert_eq!(first(&pw, 200, None, " ok "), EpsonStep::Done(Ok("ok".to_string())));
    assert_eq!(
        first(&pw, 403, None, ""),
        failed("Epson h: Web API ist im Projektor-Menue [Network Settings] deaktiviert (HTTP 403)")
    );
    assert_eq!(first(&pw, 500, None, "b"), failed("Epson h HTTP 500: b"));
    assert_eq!(
        first(&None, 401, Some("Digest realm=r, nonce=n"), ""),
        failed("Epson h: API Authentication ist aktiv, aber kein Web-Control-Passwort hinterlegt")
    );
    assert_eq!(first(&pw, 401, None, ""), failed("Epson h: Digest-Challenge fehlt in der 401-Antwort"));
    assert_eq!(
        first(&pw, 401, Some("Digest realm=r"), ""),
        failed("Epson h: Digest-Challenge unvollstaendig (realm/nonce fehlt)")
    );
    match first(&pw, 401, Some("Digest realm=r, nonce=n, qop=auth"), "") {
        EpsonStep::Retry(header) => assert!(header.ends_with("cnonce=\"abcdefgh\"")),
        other => panic!("{:?}", other),
    }
    assert_eq!(projector_extras::epson_after_retry("h", 200, " x "), Ok("x".to_string()));
    assert_eq!(projector_extras::epson_after_retry("h", 401, ""), Err("Epson h: falsches Web-Control-Passwort".to_string()));
    assert!(projector_extras::epson_after_retry("h", 403, "").unwrap_err().ends_with("(HTTP 403)"));
    assert_eq!(projector_extras::epson_after_retry("h", 404, "b"), Err("Epson h HTTP 404: b".to_string()));
}

#[test]
fn web_requests_have_an_address_and_a_nonce() {
    assert_eq!(projector_extras::epson_uri("X"), "/api/v01/control/escvp21?cmd=X");
    assert_eq!(projector_extras::epson_url("h", "X"), "http://h/api/v01/control/escvp21?cmd=X");
    assert_eq!(projector_extras::client_nonce_material(5, "h"), "5:h");
    assert_eq!(projector_extras::client_nonce(5, "h"), format!("{:x}", md5::compute("5:h")));
}

// Cameras

#[test]
fn frames_are_cut_out_of_the_stream() {
    let mut b = FrameBuffer::new();
    assert_eq!(b.feed(&vec![1, 2, 0xff]), None);
    assert_eq!(b.feed(&vec![0xd8, 7, 0xff]), None);
    assert_eq!(b.feed(&vec![0xd9, 9]), Some(vec![0xff, 0xd8, 7, 0xff, 0xd9]));
    assert_eq!(
        b.feed(&vec![0xff, 0xd8, 1, 0xff, 0xd9, 0xff, 0xd8, 2, 0xff, 0xd9]),
        Some(vec![0xff, 0xd8, 2, 0xff, 0xd9])
    );
    assert_eq!(camera::find_jpeg_marker(&[0, 0xff, 0xd8], 0xff, 0xd8), Some(1));
    assert_eq!(camera::find_jpeg_marker(&[0xff], 0xff, 0xd8), None);
}

#[test]
fn pieces_of_a_stream_do_not_matter() {
    let stream = [3u8, 0xff, 0xd8, 5, 6, 0xff, 0xd9, 8];
    let mut whole = FrameBuffer::new();
    let once = whole.feed(&stream.to_vec());
    let mut parts = FrameBuffer::new();
    let mut last = None;
    for x in stream {
        if let Some(f) = parts.feed(&vec![x]) {
            last = Some(f);
        }
    }
    assert_eq!(once, last);
    assert_eq!(whole.bytes, parts.bytes);
}

#[test]
fn images_are_sent_as_data() {
    assert_eq!(camera::data_url(&b"Man".to_vec()), "data:image/jpeg;base64,TWFu");
    assert_eq!(camera::data_url(&b"Ma".to_vec()), "data:image/jpeg;base64,TWE=");
    assert_eq!(camera::data_url(&vec![0xfb, 0xff, 0xfe, 0x00]), "data:image/jpeg;base64,+//+AA==");
    assert_eq!(camera::data_url(&Vec::new()), "data:image/jpeg;base64,");
    assert_eq!(camera::image_url("x"), "data:image/jpeg;base64,x");
}

#[test]
fn streams_are_numbered_from_one_to_four() {
    assert_eq!(camera::stream_number(None), 1);
    assert_eq!(camera::stream_number(Some(0)), 1);
    assert_eq!(camera::stream_number(Some(9)), 4);
    assert_eq!(camera::stream_key("h", 2), "h|2");
    assert_eq!(camera::rtsp_url("h", 2), "rtsp://h/MediaInput/h264/stream_2");
}

#[test]
fn streams_are_restarted_when_they_stall() {
    let s = 1_000_000_000;
    assert!(camera::should_restart(true, true, Some(0)));
    assert!(camera::should_restart(false, true, Some(60 * s + 1)));
    assert!(!camera::should_restart(false, true, Some(60 * s)));
    assert!(camera::should_restart(false, false, Some(25 * s + 1)));
    assert!(!camera::should_restart(false, false, Some(25 * s)));
    assert!(camera::should_restart(false, true, None));
    assert!(camera::is_idle(90 * s + 1) && !camera::is_idle(90 * s));
    assert!(camera::first_frame_overdue(20 * s + 1) && !camera::first_frame_overdue(20 * s));
}

#[test]
fn viewers_name_a_camera() {
    let get = |s: &str| camera::mjpeg_request_of(&s.as_bytes().to_vec());
    assert_eq!(get("GET / HTTP/1.1\r\n"), MjpegRequest::NotFound);
    assert_eq!(get("GET /camera/mjpeg?stream=2 HTTP/1.1\r\n"), MjpegRequest::MissingIp);
    assert_eq!(get("GET /camera/mjpeg?ip=10.0.0.1&stream=9 HTTP/1.1"), MjpegRequest::Stream("10.0.0.1".to_string(), 4));
    assert_eq!(get("GET /camera/mjpeg?ip=h&stream=x HTTP/1.1"), MjpegRequest::Stream("h".to_string(), 1));
    assert_eq!(camera::read_mjpeg_request(""), MjpegRequest::NotFound);
    assert_eq!(camera::parse_query_param("/a?x=1&y", "y"), Some(String::new()));
    assert_eq!(camera::parse_query_param("/a?x=1=2", "x"), Some("1=2".to_string()));
    assert_eq!(camera::parse_query_param("/a?x=1?y=2", "y"), None);
    assert_eq!(camera::parse_query_param("/a", "x"), None);
}

#[test]
fn viewers_get_an_answer() {
    assert_eq!(camera::not_found_response(), "HTTP/1.1 404 Not Found\r\nConnection: close\r\n\r\n");
    assert_eq!(camera::missing_ip_response(), "HTTP/1.1 400 Bad Request\r\nConnection: close\r\n\r\nMissing ip");
    assert_eq!(
        camera::start_failed_response("ü"),
        "HTTP/1.1 503 Service Unavailable\r\nContent-Type: text/plain; charset=utf-8\r\nConnection: close\r\nContent-Length: 23\r\n\r\nStream start failed: ü"
    );
    assert!(camera::no_frames_response().ends_with("Content-Length: 25\r\n\r\nStream timeout: no frames"));
    assert!(camera::stream_headers().contains("boundary=frame\r\n"));
    assert_eq!(
        camera::frame_part(&vec![1, 2]),
        b"--frame\r\nContent-Type: image/jpeg\r\nContent-Length: 2\r\n\r\n\x01\x02\r\n".to_vec()
    );
}

#[test]
fn cameras_are_moved() {
    assert_eq!(
        camera::camera_ptz_request("h", "#R01"),
        "GET /cgi-bin/aw_ptz?cmd=%23R01&res=1 HTTP/1.1\r\nHost: h\r\nConnection: close\r\n\r\n"
    );
    assert_eq!(camera::read_ptz_response("HTTP/1.1 200 OK\r\n\r\ns01\r\nx"), Ok("s01".to_string()));
    assert_eq!(camera::camera_ptz_response(&b"HTTP/1.1 200 OK\r\n\r\n".to_vec()), Ok("OK".to_string()));
    assert_eq!(
        camera::read_ptz_response("HTTP/1.1 500\r\n\r\n"),
        Err("Camera command failed (no HTTP 200 response)".to_string())
    );
}

#[test]
fn programs_get_their_arguments() {
    let stream = camera::ffmpeg_stream_args("U");
    assert_eq!((stream.len(), stream[5].as_str(), stream[14].as_str()), (15, "U", "-"));
    let shot = camera::ffmpeg_snapshot_args("U", "F");
    assert_eq!((shot.len(), shot[6].as_str(), shot[13].as_str()), (14, "U", "F"));
    assert_eq!(camera::snapshot_name("10.0.0.1", 5), "projektil-cam-10_0_0_1-5.jpg");
    assert_eq!(camera::program_failure("W", ""), "W");
    assert_eq!(camera::program_failure_of("W", &b" e\n".to_vec()), "W: e");
    assert_eq!(camera::ffmpeg_names().len(), 6);
    assert_eq!(camera::extended_path("", "d"), Some("d".to_string()));
    assert_eq!(camera::extended_path("a;B", "b"), None);
    assert_eq!(camera::extended_path("a", "b"), Some("b;a".to_string()));
    assert!(camera::download_script("C:\\x").ends_with("-OutFile 'C:\\\\x'"));
    assert!(camera::extract_script("a\\b", "c").contains("-Path 'a\\\\b' -DestinationPath 'c' -Force"));
}

use projektil_control::json;
use projektil_control::json::Json;
use projektil_control::snmp;
use projektil_control::strmap::StrMap;
use projektil_control::ups;
use projektil_control::ups::{ProbeReply, UpsPhase, UpsPoll, UpsThresholds};

fn reply(value: &[u8]) -> Option<Vec<u8>> {
    let mut data = vec![0x06, 0x03, 0x2b, 0x06, 0x01];
    data.extend_from_slice(value);
    Some(data)
}

fn integer(n: u8) -> Option<Vec<u8>> {
    reply(&[0x02, 0x01, n])
}

#[test]
fn silent_device_ends_the_poll_after_two_questions() {
    let mut poll = UpsPoll::new();
    poll.absorb(&None);
    poll.absorb(&None);
    assert_eq!(poll.phase, UpsPhase::Silent);
    assert_eq!(poll.next_oid(), None);
    let t = UpsThresholds { load_warn: 80, v_min: 195, v_max: 253 };
    assert_eq!(
        ups::ups_status(poll, 0, 0, &t, ""),
        Err("UPS antwortet nicht auf SNMP-Abfragen".to_string())
    );
}

#[test]
fn poll_asks_every_row_once() {
    let mut poll = UpsPoll::new();
    let mut asked = 0;
    while let Some(oid) = poll.next_oid() {
        assert_eq!(snmp::validate_snmp_oid(&oid), Ok(()));
        poll.absorb(&integer(2));
        asked += 1;
    }
    assert_eq!(poll.phase, UpsPhase::Done);
    assert_eq!(asked, 23);
    assert_eq!(poll.values.get("bat_temp"), Some(&20));
}

fn values(list: &[(&str, i64)]) -> StrMap<i64> {
    let mut m = StrMap::new();
    for (k, n) in list {
        m.insert(k.to_string(), *n);
    }
    m
}

#[test]
fn load_is_worked_out_of_current_and_voltage() {
    assert_eq!(ups::load_inputs(&values(&[("hp_output_current", 31), ("output_v", 2301)])), (31, 2301));
    assert_eq!(ups::load_inputs(&values(&[("output_current", 4), ("output_v", 229)])), (4, 2290));
    assert_eq!(ups::load_inputs(&values(&[("output_v", 5), ("input_voltage", 231)])), (0, 2310));
    assert_eq!(ups::load_inputs(&values(&[])), (0, 2300));
}

#[test]
fn load_percent_guesses_the_scale() {
    let cases = [(-5, 0), (0, 0), (100, 100), (101, 10), (1000, 100), (1001, 10), (10000, 100), (10001, 1000)];
    for (raw, pct) in cases {
        assert_eq!(ups::normalize_ups_load_percent(raw), pct);
    }
}

#[test]
fn anomalies_are_reported() {
    let t = UpsThresholds { load_warn: 80, v_min: 195, v_max: 253 };
    let calm = values(&[("bat_status", 2), ("bat_ok", 1), ("output_online", 1), ("input_voltage", 230), ("output_load", 20)]);
    assert_eq!(ups::check_ups_anomalies(&calm, &t, ""), Vec::<String>::new());
    let wild = values(&[
        ("bat_status", 3),
        ("bat_ok", 0),
        ("output_online", 2),
        ("input_voltage", 180),
        ("output_load", 85),
        ("runtime_ticks", 12345),
        ("bat_temp", 451),
        ("replace_bat", 2),
    ]);
    assert_eq!(
        ups::check_ups_anomalies(&wild, &t, "45.1"),
        vec![
            "⚠ BATTERIE MODE AKTIVIERT - UPS AUF BATTERIE!".to_string(),
            "BATTERIE NIEDRIG (bat_status=3)".to_string(),
            "bat_ok = 0 (Batterie nicht OK)".to_string(),
            "UPS LAST 85% (Warnschwelle 80%)".to_string(),
            "⚠ OUTPUT nicht online (output_online=2)".to_string(),
            "UPS EINGANGSSPANNUNG 180V ausserhalb Normal (195 - 253V)".to_string(),
            "UPS LAUFZEIT NUR 2min 3sec".to_string(),
            "UPS BATTERIE ÜBERHITZUNG: 45.1°C".to_string(),
            "UPS MELDET: BATTERIE TAUSCHEN!".to_string(),
        ]
    );
    let odd = values(&[("bat_status", 7), ("bat_ok", 1), ("output_online", 1)]);
    assert_eq!(ups::check_ups_anomalies(&odd, &t, ""), vec!["UNBEKANNTER BATTERIE-STATUS: 7".to_string()]);
    let broken = values(&[("bat_status", 4), ("bat_ok", 1), ("output_online", 1)]);
    assert_eq!(ups::check_ups_anomalies(&broken, &t, ""), vec!["🚨 BATTERIE FEHLER (bat_status=4)".to_string()]);
}

#[test]
fn temperature_falls_back() {
    let mut poll = UpsPoll::new();
    poll.absorb(&integer(2));
    poll.absorb(&integer(1));
    while let UpsPhase::Query(i) = poll.phase {
        let (name, _) = ups::query_at(i);
        let answer = match name.as_str() {
            "bat_capacity" => integer(0),
            "bat_temp_basic" => integer(24),
            _ => None,
        };
        poll.absorb(&answer);
    }
    assert_eq!(poll.phase, UpsPhase::Capacity);
    poll.absorb(&integer(99));
    assert_eq!(poll.phase, UpsPhase::Done);
    assert_eq!(poll.values.get("bat_capacity"), Some(&990));
    assert_eq!(poll.values.get("bat_temp"), Some(&240));
}

#[test]
fn status_lists_values_and_warnings() {
    let mut poll = UpsPoll::new();
    poll.absorb(&integer(2));
    poll.absorb(&integer(1));
    while poll.next_oid().is_some() {
        poll.absorb(&None);
    }
    let t = UpsThresholds { load_warn: 80, v_min: 195, v_max: 253 };
    let status = ups::ups_status(poll, 713, 40, &t, "").unwrap();
    assert_eq!(status.integer_field("bat_status"), Some(2));
    assert_eq!(status.integer_field("output_load"), Some(40));
    assert_eq!(status.integer_field("output_load_estimated_watts"), Some(713));
    assert_eq!(status.text_field("output_load_source"), Some("calculated_from_current_voltage"));
    assert_eq!(
        status.get("warnings"),
        Some(&Json::List(vec![json::text("bat_ok = 0 (Batterie nicht OK)")]))
    );
}

#[test]
fn power_mode_prefers_the_output_state() {
    let mode = |b: Option<Vec<u8>>, s: Option<Vec<u8>>, o: Option<Vec<u8>>| {
        ups::ups_power_mode(&b, &s, &o).unwrap().get("on_mains").unwrap().as_bool()
    };
    assert_eq!(mode(integer(2), integer(3), integer(1)), Some(false));
    assert_eq!(mode(None, integer(5), integer(1)), Some(false));
    assert_eq!(mode(integer(3), integer(2), None), Some(true));
    assert_eq!(mode(integer(2), None, None), Some(true));
    assert_eq!(mode(integer(4), None, integer(1)), Some(false));
    assert_eq!(mode(None, None, integer(1)), Some(true));
    assert_eq!(mode(None, None, integer(2)), Some(false));
    assert_eq!(
        ups::ups_power_mode(&None, &None, &None),
        Err("UPS antwortet nicht auf SNMP-Abfragen".to_string())
    );
    for i in 0..3 {
        assert_eq!(snmp::validate_snmp_oid(&ups::power_mode_query(i)), Ok(()));
    }
}

#[test]
fn diagnostics_show_what_came_back() {
    let oid = vec![1u32, 3, 6];
    let d = ups::diagnose("hp_output_load", &oid, &ProbeReply::Bytes(reply(&[0x02, 0x02, 0x01, 0x2c]).unwrap()));
    assert_eq!(d.text_field("oid"), Some("1.3.6"));
    assert_eq!(d.integer_field("bytes"), Some(9));
    assert_eq!(d.text_field("raw_hex"), Some("06 03 2B 06 01 02 02 01 2C"));
    assert_eq!(d.integer_field("value"), Some(300));
    assert_eq!(d.text_field("decoded_kind"), Some("integer-like"));
    assert_eq!(d.integer_field("load_pct_guess"), Some(30));
    let d = ups::diagnose("bat_ok", &oid, &ProbeReply::Bytes(reply(&[0x04, 0x01, b'x']).unwrap()));
    assert_eq!(d.text_field("value"), Some("x"));
    assert_eq!(d.text_field("decoded_kind"), Some("octet-string"));
    let d = ups::diagnose("bat_ok", &oid, &ProbeReply::Bytes(vec![1, 2]));
    assert_eq!(d.text_field("error"), Some("decode failed"));
    assert_eq!(ups::diagnose("x", &oid, &ProbeReply::SendFailed).text_field("error"), Some("send failed"));
    assert_eq!(ups::diagnose("x", &oid, &ProbeReply::NoReply).text_field("error"), Some("timeout/no response"));
    let all = ups::ups_diagnostics("10.0.0.1", &vec![ProbeReply::NoReply, ProbeReply::SendFailed]);
    assert_eq!(all.text_field("community"), Some("projektil"));
    assert_eq!(all.get("results").unwrap().as_array().unwrap().len(), 2);
    assert_eq!(all.get("results").unwrap().as_array().unwrap()[1].text_field("name"), Some("runtime_ticks"));
}

#[test]
fn probes_are_allowed() {
    for i in 0..ups::PROBE_COUNT {
        assert_eq!(snmp::validate_snmp_oid(&ups::probe_at(i).1), Ok(()));
    }
    assert_eq!(ups::probe_at(37).0, "ups_output_percent_load_3");
}

#[test]
fn warning_limit_comes_from_the_settings() {
    let cfg = json::parse_json("{\"thresholds\": {\"ups_load_warn\": 60}}").unwrap();
    assert_eq!(ups::load_warning_limit(&cfg), 60);
    assert_eq!(ups::load_warning_limit(&Json::Null), 80);
}

use projektil_control::json::Json;
use projektil_control::netdevices;
use projektil_control::netdevices::VolumeStep;
use projektil_control::snmp;

fn number(n: u8) -> Option<Vec<u8>> {
    Some(vec![0x06, 0x01, 0x2b, 0x02, 0x01, n])
}

fn words(s: &str) -> Option<Vec<u8>> {
    let mut d = vec![0x06, 0x01, 0x2b, 0x04, s.len() as u8];
    d.extend_from_slice(s.as_bytes());
    Some(d)
}

fn nothing(n: usize) -> Vec<Option<Vec<u8>>> {
    (0..n).map(|_| None).collect()
}

#[test]
fn defaults_for_access() {
    assert_eq!(netdevices::community_or_default(None), "projektil");
    assert_eq!(netdevices::community_or_default(Some("public".to_string())), "public");
    assert_eq!(netdevices::port_or_default(None), 161);
    assert_eq!(netdevices::port_or_default(Some(1161)), 1161);
}

#[test]
fn every_query_is_allowed() {
    for i in 0..netdevices::NAS_QUERY_COUNT {
        assert_eq!(snmp::validate_snmp_oid(&netdevices::nas_query(i)), Ok(()));
    }
    for i in 0..netdevices::POE_QUERY_COUNT {
        assert_eq!(snmp::validate_snmp_oid(&netdevices::poe_query(i)), Ok(()));
    }
    for i in 0..netdevices::ROUTER_TEXT_COUNT {
        assert_eq!(snmp::validate_snmp_oid(&netdevices::router_text_query(i).1), Ok(()));
    }
    for i in 0..netdevices::ROUTER_NUMBER_COUNT {
        assert_eq!(snmp::validate_snmp_oid(&netdevices::router_number_query(i).1), Ok(()));
    }
    assert_eq!(netdevices::nas_query(22), vec![1, 3, 6, 1, 4, 1, 6574, 2, 1, 1, 6, 3]);
    assert_eq!(netdevices::router_text_query(17).0, "modem_ip");
}

#[test]
fn storage_status_collects_what_came_back() {
    let mut replies = nothing(netdevices::NAS_QUERY_COUNT);
    replies[0] = words("nas01");
    replies[3] = number(1);
    replies[7] = words("md2");
    replies[10] = number(11);
    replies[16] = number(35);
    let r = netdevices::nas_status(&replies, Some((4096, 100, 7)), None).unwrap();
    assert_eq!(r.text_field("sys_name"), Some("nas01"));
    assert_eq!(r.integer_field("system_status"), Some(1));
    let raids = r.get("raids").unwrap().as_array().unwrap();
    assert_eq!(raids.len(), 2);
    assert_eq!(raids[0].text_field("name"), Some("md2"));
    assert_eq!(raids[0].integer_field("status"), Some(0));
    assert_eq!(raids[1].text_field("name"), Some("RAID 2"));
    assert_eq!(raids[1].integer_field("status"), Some(11));
    let disks = r.get("disks").unwrap().as_array().unwrap();
    assert_eq!(disks.len(), 1);
    assert_eq!(disks[0].integer_field("index"), Some(1));
    assert_eq!(disks[0].text_field("name"), Some("Disk 2"));
    assert_eq!(disks[0].integer_field("temp_c"), Some(35));
    assert_eq!(r.integer_field("vol1_alloc_units"), Some(4096));
    assert_eq!(r.integer_field("vol1_used_units"), Some(7));
    assert!(r.get("vol2_alloc_units").is_none());
}

#[test]
fn silent_storage_is_an_error() {
    assert_eq!(
        netdevices::nas_status(&nothing(netdevices::NAS_QUERY_COUNT), None, None),
        Err("NAS antwortet nicht auf SNMP-Abfragen".to_string())
    );
}

#[test]
fn volume_search_walks_the_table() {
    let mut step = VolumeStep::start();
    assert_eq!(step.next_oid(), Some(vec![1, 3, 6, 1, 2, 1, 25, 2, 3, 1, 3, 1]));
    step = step.absorb("/volume1", &words("/tmp"));
    step = step.absorb("/volume1", &None);
    step = step.absorb("/volume1", &words(" /volume1 "));
    assert_eq!(step.next_oid(), Some(vec![1, 3, 6, 1, 2, 1, 25, 2, 3, 1, 4, 3]));
    step = step.absorb("/volume1", &number(4));
    step = step.absorb("/volume1", &number(100));
    step = step.absorb("/volume1", &number(60));
    assert_eq!(step, VolumeStep::Found(4, 100, 60));
    assert_eq!(step.usage(), Some((4, 100, 60)));
    assert_eq!(step.next_oid(), None);
}

#[test]
fn volume_search_ends_without_the_mount() {
    let mut step = VolumeStep::start();
    let mut asked = 0;
    while step.next_oid().is_some() {
        step = step.absorb("/volume1", &None);
        asked += 1;
    }
    assert_eq!(asked, 96);
    assert_eq!(step.usage(), None);
    let half = VolumeStep::Alloc(5).absorb("/volume1", &words("x"));
    assert_eq!(half, VolumeStep::Missing);
}

#[test]
fn second_power_group_is_asked_only_where_the_first_is_silent() {
    let mut replies: Vec<Option<Vec<u8>>> = Vec::new();
    for i in 0..netdevices::POE_QUERY_COUNT {
        let asked = netdevices::poe_is_asked(i, &replies);
        assert_eq!(asked, i != 7);
        replies.push(match i {
            4 => number(100),
            8 => number(120),
            _ => None,
        });
    }
    let r = netdevices::poe_switch_status("projektil", &replies);
    assert_eq!(r.integer_field("poe_power_limit_w"), Some(100));
    assert_eq!(r.integer_field("poe_power_used_w"), Some(120));
    assert_eq!(r.integer_field("poe_power_free_w"), Some(0));
    assert!(r.get("poe_oper_status").is_none());
    assert_eq!(r.text_field("detected_model"), Some("Unknown"));
    assert_eq!(r.text_field("snmp_community_used"), Some("projektil"));
}

#[test]
fn switch_models_are_told_by_their_description() {
    let mut replies = nothing(netdevices::POE_QUERY_COUNT);
    replies[0] = words("NETGEAR M4250-40G8F-PoE+ switch");
    let r = netdevices::poe_switch_status("c", &replies);
    assert_eq!(r.text_field("detected_model"), Some("Netgear M4250-40G8F-PoE+"));
    assert_eq!(netdevices::detect_switch_model("m4250-8g2xf-poe+"), "Netgear M4250-8G2XF-PoE+");
    assert_eq!(netdevices::detect_switch_model("m4250-26g4xf-poe+"), "Netgear M4250-26G4XF-PoE+");
    assert_eq!(netdevices::detect_switch_model("gs308"), "Unknown");
}

#[test]
fn router_model_is_told_by_its_description() {
    let mut texts = nothing(netdevices::ROUTER_TEXT_COUNT);
    texts[0] = words("Teltonika RUTX50 5G");
    texts[9] = number(200);
    let numbers = vec![number(7), words("x")];
    let r = netdevices::rutx50_status(&texts, &numbers);
    assert_eq!(r.text_field("detected_model"), Some("Teltonika RUTX50"));
    assert_eq!(r.text_field("signal"), Some("-56"));
    assert_eq!(r.integer_field("sys_uptime_ticks"), Some(7));
    assert!(r.get("mobile_uptime_s").is_none());
    let empty = netdevices::rutx50_status(&nothing(18), &nothing(2));
    assert_eq!(empty.get("detected_model"), Some(&Json::Text("Unknown".to_string())));
}

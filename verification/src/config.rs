//! The configuration: its defaults, how a stored configuration is completed, and the changes
//! that the user interface makes to it.

use vstd::prelude::*;
use vstd::string::*;
use vstd::utf8::*;

use crate::json;
use crate::json::{Json, JsonV};
use crate::numerals;
use crate::strmap::StrMap;
use crate::text;
use crate::ups;

verus! {

// ---------------------------------------------------------------------------
// Defaults
// ---------------------------------------------------------------------------

pub open spec fn falses(n: nat) -> Seq<bool> {
    Seq::new(n, |i: int| false)
}

pub open spec fn unknowns(n: nat) -> Seq<Seq<char>> {
    Seq::new(n, |i: int| "unknown"@)
}

fn all_false(n: usize) -> (r: Vec<bool>)
    ensures
        r@ == falses(n as nat),
{
    let mut v: Vec<bool> = Vec::new();
    let mut i: usize = 0;
    while i < n
        invariant
            i <= n,
            v@.len() == i,
            forall|j: int| 0 <= j < i ==> !(#[trigger] v@[j]),
        decreases n - i,
    {
        v.push(false);
        i += 1;
    }
    proof {
        assert(v@ =~= falses(n as nat));
    }
    v
}

fn all_unknown(n: usize) -> (r: Vec<String>)
    ensures
        text::texts(r@) == unknowns(n as nat),
{
    let mut v: Vec<String> = Vec::new();
    let mut i: usize = 0;
    while i < n
        invariant
            i <= n,
            v@.len() == i,
            forall|j: int| 0 <= j < i ==> (#[trigger] v@[j])@ == "unknown"@,
        decreases n - i,
    {
        v.push("unknown".to_owned());
        i += 1;
    }
    proof {
        assert(text::texts(v@) =~= unknowns(n as nat));
    }
    v
}

/// The mute state of the four channels of each amplifier in the demo mode.
pub open spec fn amp_mutes() -> Map<Seq<char>, JsonV> {
    Map::<Seq<char>, JsonV>::empty().insert("1"@, json::bool_list(falses(4))).insert(
        "2"@,
        json::bool_list(falses(4)),
    ).insert("3"@, json::bool_list(falses(4)))
}

fn amp_mutes_object() -> (m: StrMap<Json>)
    ensures
        json::fields(m) == amp_mutes(),
{
    let mut m = json::empty_object();
    json::put(&mut m, "1", json::bools_to_json(&all_false(4)));
    json::put(&mut m, "2", json::bools_to_json(&all_false(4)));
    json::put(&mut m, "3", json::bools_to_json(&all_false(4)));
    m
}

/// The events that an alert is sent for.
pub open spec fn alert_events() -> Seq<Seq<char>> {
    seq![
        "janitza_offline"@,
        "janitza_asymmetry"@,
        "janitza_overfrequency"@,
        "janitza_underfrequency"@,
        "ups_offline"@,
        "ups_battery"@,
        "nas_offline"@,
        "poe_switch_offline"@,
        "rutx_offline"@,
        "pixera_offline"@,
        "trigger_missed"@,
        "timeline_error"@,
        "emergency"@,
        "panic"@,
        "keyword_match"@,
    ]
}

fn alert_event_names() -> (v: Vec<String>)
    ensures
        text::texts(v@) == alert_events(),
{
    let mut v: Vec<String> = Vec::new();
    ups::note(&mut v, "janitza_offline".to_owned());
    ups::note(&mut v, "janitza_asymmetry".to_owned());
    ups::note(&mut v, "janitza_overfrequency".to_owned());
    ups::note(&mut v, "janitza_underfrequency".to_owned());
    ups::note(&mut v, "ups_offline".to_owned());
    ups::note(&mut v, "ups_battery".to_owned());
    ups::note(&mut v, "nas_offline".to_owned());
    ups::note(&mut v, "poe_switch_offline".to_owned());
    ups::note(&mut v, "rutx_offline".to_owned());
    ups::note(&mut v, "pixera_offline".to_owned());
    ups::note(&mut v, "trigger_missed".to_owned());
    ups::note(&mut v, "timeline_error".to_owned());
    ups::note(&mut v, "emergency".to_owned());
    ups::note(&mut v, "panic".to_owned());
    ups::note(&mut v, "keyword_match".to_owned());
    proof {
        assert(text::texts(v@) =~= alert_events());
    }
    v
}

/// The words that make a message critical.
pub open spec fn alert_keywords() -> Seq<Seq<char>> {
    seq![
        "sofortalarm"@,
        "batteriebetrieb"@,
        "panic"@,
        "emergency"@,
        "offline!"@,
    ]
}

fn alert_keyword_list() -> (v: Vec<String>)
    ensures
        text::texts(v@) == alert_keywords(),
{
    let mut v: Vec<String> = Vec::new();
    ups::note(&mut v, "sofortalarm".to_owned());
    ups::note(&mut v, "batteriebetrieb".to_owned());
    ups::note(&mut v, "panic".to_owned());
    ups::note(&mut v, "emergency".to_owned());
    ups::note(&mut v, "offline!".to_owned());
    proof {
        assert(text::texts(v@) =~= alert_keywords());
    }
    v
}

/// A field that is set only where it is missing.
pub open spec fn filled(m: Map<Seq<char>, JsonV>, key: Seq<char>, value: JsonV) -> Map<
    Seq<char>,
    JsonV,
> {
    if m.dom().contains(key) {
        m
    } else {
        m.insert(key, value)
    }
}

fn fill(m: &mut StrMap<Json>, key: &str, value: Json)
    ensures
        json::fields(*final(m)) == filled(json::fields(*old(m)), key@, value@),
{
    if !json::has_field(m, key) {
        json::put(m, key, value);
    }
}

pub const TELEGRAM_DEFAULT_COUNT: usize = 5;

/// The defaults of the section on alerts.
pub open spec fn telegram_default(i: usize) -> (Seq<char>, JsonV) {
    match i {
        0 => ("enabled"@, JsonV::Bool(false)),
        1 => ("bot_token"@, JsonV::Text(""@)),
        2 => ("chat_id"@, JsonV::Text(""@)),
        3 => ("alert_events"@, json::text_list(alert_events())),
        _ => ("critical_error_keywords"@, json::text_list(alert_keywords())),
    }
}

fn telegram_default_at(i: usize) -> (r: (String, Json))
    ensures
        (r.0@, r.1@) == telegram_default(i),
{
    match i {
        0 => ("enabled".to_owned(), Json::Bool(false)),
        1 => ("bot_token".to_owned(), json::text("")),
        2 => ("chat_id".to_owned(), json::text("")),
        3 => ("alert_events".to_owned(), json::texts_to_json(&alert_event_names())),
        _ => ("critical_error_keywords".to_owned(), json::texts_to_json(&alert_keyword_list())),
    }
}

/// The section on alerts with the first `n` defaults filled in.
pub open spec fn telegram_filled(m: Map<Seq<char>, JsonV>, n: usize) -> Map<Seq<char>, JsonV>
    decreases n,
{
    if n == 0 {
        m
    } else {
        let before = telegram_filled(m, (n - 1) as usize);
        filled(before, telegram_default((n - 1) as usize).0, telegram_default((n - 1) as usize).1)
    }
}

fn fill_telegram(m: &mut StrMap<Json>)
    ensures
        json::fields(*final(m)) == telegram_filled(json::fields(*old(m)), TELEGRAM_DEFAULT_COUNT),
{
    let mut i: usize = 0;
    while i < TELEGRAM_DEFAULT_COUNT
        invariant
            i <= TELEGRAM_DEFAULT_COUNT,
            json::fields(*m) == telegram_filled(json::fields(*old(m)), i),
        decreases TELEGRAM_DEFAULT_COUNT - i,
    {
        let (key, value) = telegram_default_at(i);
        fill(m, key.as_str(), value);
        i += 1;
    }
}

fn telegram_object() -> (m: StrMap<Json>)
    ensures
        json::fields(m) == telegram_filled(Map::empty(), TELEGRAM_DEFAULT_COUNT),
{
    let mut m = json::empty_object();
    fill_telegram(&mut m);
    m
}

pub const THRESHOLD_COUNT: usize = 8;

/// The limits that the power warnings go by.
pub open spec fn threshold(i: usize) -> (Seq<char>, JsonV) {
    match i {
        0 => ("v_min"@, JsonV::Real(0x4068600000000000)),
        1 => ("v_max"@, JsonV::Real(0x406fa00000000000)),
        2 => ("v_imbal"@, JsonV::Real(0x402e000000000000)),
        3 => ("f_min"@, JsonV::Real(0x4048c00000000000)),
        4 => ("f_max"@, JsonV::Real(0x4049400000000000)),
        5 => ("i_max_32"@, JsonV::Real(0x403c000000000000)),
        6 => ("i_max_63"@, JsonV::Real(0x404d000000000000)),
        _ => ("ups_load_warn"@, JsonV::Unsigned(80)),
    }
}

fn threshold_at(i: usize) -> (r: (String, Json))
    ensures
        (r.0@, r.1@) == threshold(i),
{
    match i {
        0 => ("v_min".to_owned(), Json::Real(0x4068600000000000)),
        1 => ("v_max".to_owned(), Json::Real(0x406fa00000000000)),
        2 => ("v_imbal".to_owned(), Json::Real(0x402e000000000000)),
        3 => ("f_min".to_owned(), Json::Real(0x4048c00000000000)),
        4 => ("f_max".to_owned(), Json::Real(0x4049400000000000)),
        5 => ("i_max_32".to_owned(), Json::Real(0x403c000000000000)),
        6 => ("i_max_63".to_owned(), Json::Real(0x404d000000000000)),
        _ => ("ups_load_warn".to_owned(), Json::Unsigned(80)),
    }
}

pub open spec fn thresholds(n: usize) -> Map<Seq<char>, JsonV>
    decreases n,
{
    if n == 0 {
        Map::empty()
    } else {
        thresholds((n - 1) as usize).insert(
            threshold((n - 1) as usize).0,
            threshold((n - 1) as usize).1,
        )
    }
}

fn threshold_object() -> (m: StrMap<Json>)
    ensures
        json::fields(m) == thresholds(THRESHOLD_COUNT),
{
    let mut m = json::empty_object();
    let mut i: usize = 0;
    while i < THRESHOLD_COUNT
        invariant
            i <= THRESHOLD_COUNT,
            json::fields(m) == thresholds(i),
        decreases THRESHOLD_COUNT - i,
    {
        let (key, value) = threshold_at(i);
        json::put(&mut m, key.as_str(), value);
        i += 1;
    }
    m
}

pub const DEFAULT_COUNT: usize = 54;

/// The fields of a fresh configuration.
pub open spec fn default_field(i: usize) -> (Seq<char>, JsonV) {
    match i {
        0 => ("demo_mode"@, JsonV::Bool(false)),
        1 => ("startup_mode"@, JsonV::Text("admin"@)),
        2 => ("language"@, JsonV::Text("de"@)),
        3 => ("camera_view_mode"@, JsonV::Text("snapshot"@)),
        4 => ("demo_amp_mutes"@, JsonV::Object(amp_mutes())),
        5 => ("demo_projector_on"@, json::bool_list(falses(16))),
        6 => ("demo_projector_mute"@, json::bool_list(falses(16))),
        7 => ("projector_control_states"@, json::text_list(unknowns(16))),
        8 => ("projector_status_updated_at"@, JsonV::Unsigned(0)),
        9 => ("pixera_ip"@, JsonV::Text("192.168.1.31"@)),
        10 => ("pixera_port"@, JsonV::Unsigned(1338)),
        11 => ("pixera_octo1_ip"@, JsonV::Text("192.168.1.32"@)),
        12 => ("pixera_octo2_ip"@, JsonV::Text("192.168.1.33"@)),
        13 => ("pixera_octo_port"@, JsonV::Unsigned(4000)),
        14 => ("pixera_octo_count"@, JsonV::Unsigned(2)),
        15 => ("pixera_api_root"@, JsonV::Text(""@)),
        16 => ("pixera_pjlink_module"@, JsonV::Text("PJ_Link__16ch"@)),
        17 => ("pixera_scheduler_module"@, JsonV::Text("Projektil_EventScheduler_V2_7"@)),
        18 => ("d40_01_ip"@, JsonV::Text("192.168.1.51"@)),
        19 => ("d40_02_ip"@, JsonV::Text("192.168.1.52"@)),
        20 => ("d40_03_ip"@, JsonV::Text("192.168.1.53"@)),
        21 => ("amp_count"@, JsonV::Unsigned(2)),
        22 => ("d40_oca_port"@, JsonV::Unsigned(30013)),
        23 => ("nas_ip"@, JsonV::Text("192.168.1.21"@)),
        24 => ("nas_port"@, JsonV::Unsigned(5000)),
        25 => ("nas_snmp_port"@, JsonV::Unsigned(161)),
        26 => ("nas_snmp_community"@, JsonV::Text("projektil"@)),
        27 => ("poe_switch_ip"@, JsonV::Text("192.168.1.11"@)),
        28 => ("poe_switch_name"@, JsonV::Text(""@)),
        29 => ("poe_switch_ping_port"@, JsonV::Unsigned(443)),
        30 => ("poe_switch_snmp_port"@, JsonV::Unsigned(161)),
        31 => ("poe_switch_snmp_community"@, JsonV::Text("projektil"@)),
        32 => ("rutx50_ip"@, JsonV::Text("192.168.1.1"@)),
        33 => ("rutx50_ping_port"@, JsonV::Unsigned(443)),
        34 => ("rutx50_snmp_port"@, JsonV::Unsigned(161)),
        35 => ("rutx50_snmp_community"@, JsonV::Text("public"@)),
        36 => ("ups_ip"@, JsonV::Text("192.168.1.6"@)),
        37 => ("power_disp_ip"@, JsonV::Text("192.168.1.5"@)),
        38 => ("cam_01_ip"@, JsonV::Text("192.168.1.22"@)),
        39 => ("cam_02_ip"@, JsonV::Text("192.168.1.23"@)),
        40 => ("projector_start"@, JsonV::Unsigned(101)),
        41 => ("projector_count"@, JsonV::Unsigned(16)),
        42 => ("interactive_enabled"@, JsonV::Bool(false)),
        43 => ("interactive_scanner_count"@, JsonV::Unsigned(2)),
        44 => ("emergency_switch_enabled"@, JsonV::Bool(false)),
        45 => ("hotline"@, JsonV::Text("+41 44 492 51 69"@)),
        46 => ("location_name"@, JsonV::Text(""@)),
        47 => ("anydesk_address"@, JsonV::Text(""@)),
        48 => ("hub_api_url"@, JsonV::Text(""@)),
        49 => ("hub_api_token"@, JsonV::Text(""@)),
        50 => ("hub_project_id"@, JsonV::Text(""@)),
        51 => ("hub_device_id"@, JsonV::Text(""@)),
        52 => ("telegram"@, JsonV::Object(telegram_filled(Map::empty(), TELEGRAM_DEFAULT_COUNT))),
        _ => ("thresholds"@, JsonV::Object(thresholds(THRESHOLD_COUNT))),
    }
}

fn default_field_at(i: usize) -> (r: (String, Json))
    ensures
        (r.0@, r.1@) == default_field(i),
{
    match i {
        0 => ("demo_mode".to_owned(), Json::Bool(false)),
        1 => ("startup_mode".to_owned(), json::text("admin")),
        2 => ("language".to_owned(), json::text("de")),
        3 => ("camera_view_mode".to_owned(), json::text("snapshot")),
        4 => ("demo_amp_mutes".to_owned(), Json::Object(amp_mutes_object())),
        5 => ("demo_projector_on".to_owned(), json::bools_to_json(&all_false(16))),
        6 => ("demo_projector_mute".to_owned(), json::bools_to_json(&all_false(16))),
        7 => ("projector_control_states".to_owned(), json::texts_to_json(&all_unknown(16))),
        8 => ("projector_status_updated_at".to_owned(), Json::Unsigned(0)),
        9 => ("pixera_ip".to_owned(), json::text("192.168.1.31")),
        10 => ("pixera_port".to_owned(), Json::Unsigned(1338)),
        11 => ("pixera_octo1_ip".to_owned(), json::text("192.168.1.32")),
        12 => ("pixera_octo2_ip".to_owned(), json::text("192.168.1.33")),
        13 => ("pixera_octo_port".to_owned(), Json::Unsigned(4000)),
        14 => ("pixera_octo_count".to_owned(), Json::Unsigned(2)),
        15 => ("pixera_api_root".to_owned(), json::text("")),
        16 => ("pixera_pjlink_module".to_owned(), json::text("PJ_Link__16ch")),
        17 => ("pixera_scheduler_module".to_owned(), json::text("Projektil_EventScheduler_V2_7")),
        18 => ("d40_01_ip".to_owned(), json::text("192.168.1.51")),
        19 => ("d40_02_ip".to_owned(), json::text("192.168.1.52")),
        20 => ("d40_03_ip".to_owned(), json::text("192.168.1.53")),
        21 => ("amp_count".to_owned(), Json::Unsigned(2)),
        22 => ("d40_oca_port".to_owned(), Json::Unsigned(30013)),
        23 => ("nas_ip".to_owned(), json::text("192.168.1.21")),
        24 => ("nas_port".to_owned(), Json::Unsigned(5000)),
        25 => ("nas_snmp_port".to_owned(), Json::Unsigned(161)),
        26 => ("nas_snmp_community".to_owned(), json::text("projektil")),
        27 => ("poe_switch_ip".to_owned(), json::text("192.168.1.11")),
        28 => ("poe_switch_name".to_owned(), json::text("")),
        29 => ("poe_switch_ping_port".to_owned(), Json::Unsigned(443)),
        30 => ("poe_switch_snmp_port".to_owned(), Json::Unsigned(161)),
        31 => ("poe_switch_snmp_community".to_owned(), json::text("projektil")),
        32 => ("rutx50_ip".to_owned(), json::text("192.168.1.1")),
        33 => ("rutx50_ping_port".to_owned(), Json::Unsigned(443)),
        34 => ("rutx50_snmp_port".to_owned(), Json::Unsigned(161)),
        35 => ("rutx50_snmp_community".to_owned(), json::text("public")),
        36 => ("ups_ip".to_owned(), json::text("192.168.1.6")),
        37 => ("power_disp_ip".to_owned(), json::text("192.168.1.5")),
        38 => ("cam_01_ip".to_owned(), json::text("192.168.1.22")),
        39 => ("cam_02_ip".to_owned(), json::text("192.168.1.23")),
        40 => ("projector_start".to_owned(), Json::Unsigned(101)),
        41 => ("projector_count".to_owned(), Json::Unsigned(16)),
        42 => ("interactive_enabled".to_owned(), Json::Bool(false)),
        43 => ("interactive_scanner_count".to_owned(), Json::Unsigned(2)),
        44 => ("emergency_switch_enabled".to_owned(), Json::Bool(false)),
        45 => ("hotline".to_owned(), json::text("+41 44 492 51 69")),
        46 => ("location_name".to_owned(), json::text("")),
        47 => ("anydesk_address".to_owned(), json::text("")),
        48 => ("hub_api_url".to_owned(), json::text("")),
        49 => ("hub_api_token".to_owned(), json::text("")),
        50 => ("hub_project_id".to_owned(), json::text("")),
        51 => ("hub_device_id".to_owned(), json::text("")),
        52 => ("telegram".to_owned(), Json::Object(telegram_object())),
        _ => ("thresholds".to_owned(), Json::Object(threshold_object())),
    }
}

/// The first `n` fields of a fresh configuration.
pub open spec fn default_fields(n: usize) -> Map<Seq<char>, JsonV>
    decreases n,
{
    if n == 0 {
        Map::empty()
    } else {
        default_fields((n - 1) as usize).insert(
            default_field((n - 1) as usize).0,
            default_field((n - 1) as usize).1,
        )
    }
}

pub open spec fn default_config() -> JsonV {
    JsonV::Object(default_fields(DEFAULT_COUNT))
}

/// A fresh configuration.
pub fn default_config_json() -> (r: Json)
    ensures
        r@ == default_config(),
{
    let mut m = json::empty_object();
    let mut i: usize = 0;
    while i < DEFAULT_COUNT
        invariant
            i <= DEFAULT_COUNT,
            json::fields(m) == default_fields(i),
        decreases DEFAULT_COUNT - i,
    {
        let (key, value) = default_field_at(i);
        json::put(&mut m, key.as_str(), value);
        i += 1;
    }
    Json::Object(m)
}

// ---------------------------------------------------------------------------
// Completing a stored configuration
// ---------------------------------------------------------------------------

pub const FILL_COUNT: usize = 23;

/// The fields that a stored configuration gets where it lacks them.
pub open spec fn fill_field(i: usize) -> (Seq<char>, JsonV) {
    match i {
        0 => ("pixera_octo_port"@, JsonV::Unsigned(4000)),
        1 => ("pixera_octo_count"@, JsonV::Unsigned(2)),
        2 => ("amp_count"@, JsonV::Unsigned(2)),
        3 => ("interactive_enabled"@, JsonV::Bool(false)),
        4 => ("interactive_scanner_count"@, JsonV::Unsigned(2)),
        5 => ("emergency_switch_enabled"@, JsonV::Bool(false)),
        6 => ("d40_03_ip"@, JsonV::Text("192.168.1.53"@)),
        7 => ("pixera_api_root"@, JsonV::Text(""@)),
        8 => ("pixera_pjlink_module"@, JsonV::Text("PJ_Link__16ch"@)),
        9 => ("pixera_scheduler_module"@, JsonV::Text("Projektil_EventScheduler_V2_7"@)),
        10 => ("hub_api_url"@, JsonV::Text(""@)),
        11 => ("hub_api_token"@, JsonV::Text(""@)),
        12 => ("hub_project_id"@, JsonV::Text(""@)),
        13 => ("hub_device_id"@, JsonV::Text(""@)),
        14 => ("demo_mode"@, JsonV::Bool(false)),
        15 => ("startup_mode"@, JsonV::Text("admin"@)),
        16 => ("language"@, JsonV::Text("de"@)),
        17 => ("camera_view_mode"@, JsonV::Text("snapshot"@)),
        18 => ("demo_amp_mutes"@, JsonV::Object(amp_mutes())),
        19 => ("demo_projector_on"@, json::bool_list(falses(16))),
        20 => ("demo_projector_mute"@, json::bool_list(falses(16))),
        21 => ("projector_control_states"@, json::text_list(unknowns(16))),
        _ => ("projector_status_updated_at"@, JsonV::Unsigned(0)),
    }
}

fn fill_field_at(i: usize) -> (r: (String, Json))
    ensures
        (r.0@, r.1@) == fill_field(i),
{
    match i {
        0 => ("pixera_octo_port".to_owned(), Json::Unsigned(4000)),
        1 => ("pixera_octo_count".to_owned(), Json::Unsigned(2)),
        2 => ("amp_count".to_owned(), Json::Unsigned(2)),
        3 => ("interactive_enabled".to_owned(), Json::Bool(false)),
        4 => ("interactive_scanner_count".to_owned(), Json::Unsigned(2)),
        5 => ("emergency_switch_enabled".to_owned(), Json::Bool(false)),
        6 => ("d40_03_ip".to_owned(), json::text("192.168.1.53")),
        7 => ("pixera_api_root".to_owned(), json::text("")),
        8 => ("pixera_pjlink_module".to_owned(), json::text("PJ_Link__16ch")),
        9 => ("pixera_scheduler_module".to_owned(), json::text("Projektil_EventScheduler_V2_7")),
        10 => ("hub_api_url".to_owned(), json::text("")),
        11 => ("hub_api_token".to_owned(), json::text("")),
        12 => ("hub_project_id".to_owned(), json::text("")),
        13 => ("hub_device_id".to_owned(), json::text("")),
        14 => ("demo_mode".to_owned(), Json::Bool(false)),
        15 => ("startup_mode".to_owned(), json::text("admin")),
        16 => ("language".to_owned(), json::text("de")),
        17 => ("camera_view_mode".to_owned(), json::text("snapshot")),
        18 => ("demo_amp_mutes".to_owned(), Json::Object(amp_mutes_object())),
        19 => ("demo_projector_on".to_owned(), json::bools_to_json(&all_false(16))),
        20 => ("demo_projector_mute".to_owned(), json::bools_to_json(&all_false(16))),
        21 => ("projector_control_states".to_owned(), json::texts_to_json(&all_unknown(16))),
        _ => ("projector_status_updated_at".to_owned(), Json::Unsigned(0)),
    }
}

/// A configuration with the first `n` of these fields filled in.
pub open spec fn fields_filled(m: Map<Seq<char>, JsonV>, n: usize) -> Map<Seq<char>, JsonV>
    decreases n,
{
    if n == 0 {
        m
    } else {
        let before = fields_filled(m, (n - 1) as usize);
        filled(before, fill_field((n - 1) as usize).0, fill_field((n - 1) as usize).1)
    }
}

/// The section on alerts: an object gets the defaults that it lacks, and anything else stays.
pub open spec fn telegram_section(section: Option<JsonV>) -> JsonV {
    match section {
        None => JsonV::Object(telegram_filled(Map::empty(), TELEGRAM_DEFAULT_COUNT)),
        Some(JsonV::Object(t)) => JsonV::Object(telegram_filled(t, TELEGRAM_DEFAULT_COUNT)),
        Some(other) => other,
    }
}

pub open spec fn under(m: Map<Seq<char>, JsonV>, key: Seq<char>) -> Option<JsonV> {
    if m.dom().contains(key) {
        Some(m[key])
    } else {
        None
    }
}

/// A configuration with all that it lacks.
pub open spec fn completed_fields(m: Map<Seq<char>, JsonV>) -> Map<Seq<char>, JsonV> {
    let all = fields_filled(m, FILL_COUNT);
    all.insert("telegram"@, telegram_section(under(all, "telegram"@)))
}

/// A stored configuration, completed; what is no object is replaced by a fresh one.
pub open spec fn completed(cfg: JsonV) -> JsonV {
    match cfg {
        JsonV::Object(m) => JsonV::Object(completed_fields(m)),
        _ => default_config(),
    }
}

/// Completes a stored configuration.
pub fn ensure_config_defaults(cfg: Json) -> (r: Json)
    ensures
        r@ == completed(cfg@),
{
    let mut m = match cfg {
        Json::Object(m) => m,
        _ => {
            return default_config_json();
        },
    };
    let ghost stored = json::fields(m);
    let mut i: usize = 0;
    while i < FILL_COUNT
        invariant
            i <= FILL_COUNT,
            json::fields(m) == fields_filled(stored, i),
        decreases FILL_COUNT - i,
    {
        let (key, value) = fill_field_at(i);
        fill(&mut m, key.as_str(), value);
        i += 1;
    }
    let all = Json::Object(m);
    let section = match all.get("telegram") {
        None => Json::Object(telegram_object()),
        Some(t) => match t.duplicate() {
            Json::Object(tm) => {
                let mut tm2 = tm;
                fill_telegram(&mut tm2);
                Json::Object(tm2)
            },
            other => other,
        },
    };
    proof {
        assert(all@ == JsonV::Object(fields_filled(stored, FILL_COUNT)));
    }
    with_field(all, "telegram", section)
}

/// A configuration with one field set.
pub open spec fn with_key(cfg: JsonV, key: Seq<char>, value: JsonV) -> JsonV {
    match cfg {
        JsonV::Object(m) => JsonV::Object(m.insert(key, value)),
        other => other,
    }
}

fn with_field(cfg: Json, key: &str, value: Json) -> (r: Json)
    ensures
        r@ == with_key(cfg@, key@, value@),
{
    match cfg {
        Json::Object(m) => {
            let mut m2 = m;
            json::put(&mut m2, key, value);
            Json::Object(m2)
        },
        other => other,
    }
}

/// What was read from the disk, completed; a fresh configuration where nothing was.
pub open spec fn stored_config(read: Option<JsonV>) -> JsonV {
    completed(
        match read {
            Some(j) => j,
            None => default_config(),
        },
    )
}

pub open spec fn view_read(read: Option<Json>) -> Option<JsonV> {
    match read {
        Some(j) => Some(j@),
        None => None,
    }
}

/// The configuration to change.
pub fn load_config(read: Option<Json>) -> (r: Json)
    ensures
        r@ == stored_config(view_read(read)),
{
    match read {
        Some(j) => ensure_config_defaults(j),
        None => ensure_config_defaults(default_config_json()),
    }
}

proof fn fields_filled_keeps(m: Map<Seq<char>, JsonV>, n: usize, key: Seq<char>)
    requires
        m.dom().contains(key),
    ensures
        fields_filled(m, n).dom().contains(key),
        fields_filled(m, n)[key] == m[key],
    decreases n,
{
    if n > 0 {
        fields_filled_keeps(m, (n - 1) as usize, key);
    }
}

proof fn fields_filled_has(m: Map<Seq<char>, JsonV>, n: usize, i: usize)
    requires
        i < n,
    ensures
        fields_filled(m, n).dom().contains(fill_field(i).0),
    decreases n,
{
    if i < n - 1 {
        fields_filled_has(m, (n - 1) as usize, i);
    }
}

proof fn telegram_filled_keeps(m: Map<Seq<char>, JsonV>, n: usize, key: Seq<char>)
    requires
        m.dom().contains(key),
    ensures
        telegram_filled(m, n).dom().contains(key),
        telegram_filled(m, n)[key] == m[key],
    decreases n,
{
    if n > 0 {
        telegram_filled_keeps(m, (n - 1) as usize, key);
    }
}

proof fn telegram_filled_has(m: Map<Seq<char>, JsonV>, n: usize, i: usize)
    requires
        i < n,
    ensures
        telegram_filled(m, n).dom().contains(telegram_default(i).0),
    decreases n,
{
    if i < n - 1 {
        telegram_filled_has(m, (n - 1) as usize, i);
    }
}

/// Completing a configuration never changes a field that it has; only the section on alerts,
/// where it is an object, may get further fields.
pub proof fn completing_keeps(m: Map<Seq<char>, JsonV>, key: Seq<char>)
    requires
        m.dom().contains(key),
    ensures
        completed_fields(m).dom().contains(key),
        !(key == "telegram"@ && m[key] is Object) ==> completed_fields(m)[key] == m[key],
{
    fields_filled_keeps(m, FILL_COUNT, key);
}

/// Completing a configuration never changes a field of the section on alerts.
pub proof fn completing_keeps_alerts(m: Map<Seq<char>, JsonV>, key: Seq<char>)
    requires
        m.dom().contains("telegram"@),
        m["telegram"@] is Object,
        (m["telegram"@]->Object_0).dom().contains(key),
    ensures
        completed_fields(m)["telegram"@].get(key) == Some((m["telegram"@]->Object_0)[key]),
{
    fields_filled_keeps(m, FILL_COUNT, "telegram"@);
    telegram_filled_keeps(m["telegram"@]->Object_0, TELEGRAM_DEFAULT_COUNT, key);
}

/// A completed configuration has every field that is filled in, and a section on alerts.
pub proof fn completing_fills(m: Map<Seq<char>, JsonV>, i: usize)
    requires
        i < FILL_COUNT,
    ensures
        completed_fields(m).dom().contains(fill_field(i).0),
        completed_fields(m).dom().contains("telegram"@),
{
    fields_filled_has(m, FILL_COUNT, i);
}

proof fn fields_filled_fixed(m: Map<Seq<char>, JsonV>, n: usize)
    requires
        n <= FILL_COUNT,
        forall|i: usize| i < FILL_COUNT ==> m.dom().contains(#[trigger] fill_field(i).0),
    ensures
        fields_filled(m, n) == m,
    decreases n,
{
    if n > 0 {
        fields_filled_fixed(m, (n - 1) as usize);
        assert(m.dom().contains(fill_field((n - 1) as usize).0));
    }
}

proof fn telegram_filled_fixed(m: Map<Seq<char>, JsonV>, n: usize)
    requires
        n <= TELEGRAM_DEFAULT_COUNT,
        forall|i: usize|
            i < TELEGRAM_DEFAULT_COUNT ==> m.dom().contains(#[trigger] telegram_default(i).0),
    ensures
        telegram_filled(m, n) == m,
    decreases n,
{
    if n > 0 {
        telegram_filled_fixed(m, (n - 1) as usize);
        assert(m.dom().contains(telegram_default((n - 1) as usize).0));
    }
}

proof fn section_fixed(section: Option<JsonV>)
    ensures
        telegram_section(Some(telegram_section(section))) == telegram_section(section),
{
    let t = match section {
        None => Map::<Seq<char>, JsonV>::empty(),
        Some(JsonV::Object(t)) => t,
        Some(_) => Map::<Seq<char>, JsonV>::empty(),
    };
    let done = telegram_filled(t, TELEGRAM_DEFAULT_COUNT);
    assert forall|i: usize| i < TELEGRAM_DEFAULT_COUNT implies done.dom().contains(
        #[trigger] telegram_default(i).0,
    ) by {
        telegram_filled_has(t, TELEGRAM_DEFAULT_COUNT, i);
    }
    telegram_filled_fixed(done, TELEGRAM_DEFAULT_COUNT);
}

/// Completing a completed configuration changes nothing.
pub proof fn completing_is_idempotent(m: Map<Seq<char>, JsonV>)
    ensures
        completed_fields(completed_fields(m)) == completed_fields(m),
{
    let done = completed_fields(m);
    let all = fields_filled(m, FILL_COUNT);
    assert forall|i: usize| i < FILL_COUNT implies done.dom().contains(
        #[trigger] fill_field(i).0,
    ) by {
        completing_fills(m, i);
    }
    fields_filled_fixed(done, FILL_COUNT);
    section_fixed(under(all, "telegram"@));
    assert(completed_fields(done) =~= done);
}

proof fn default_fields_has(n: usize, i: usize)
    requires
        i < n,
    ensures
        default_fields(n).dom().contains(default_field(i).0),
    decreases n,
{
    if i < n - 1 {
        default_fields_has((n - 1) as usize, i);
    }
}

/// Where a field that is filled in stands in a fresh configuration.
spec fn place_of_fill(i: usize) -> usize {
    match i {
        0 => 13,
        1 => 14,
        2 => 21,
        3 => 42,
        4 => 43,
        5 => 44,
        6 => 20,
        7 => 15,
        8 => 16,
        9 => 17,
        10 => 48,
        11 => 49,
        12 => 50,
        13 => 51,
        14 => 0,
        15 => 1,
        16 => 2,
        17 => 3,
        18 => 4,
        19 => 5,
        20 => 6,
        21 => 7,
        _ => 8,
    }
}

/// Where no settings are stored, they are the defaults: a fresh configuration is complete.
pub proof fn fresh_settings_are_complete()
    ensures
        completed(default_config()) == default_config(),
        stored_config(None) == default_config(),
{
    let m = default_fields(DEFAULT_COUNT);
    assert forall|i: usize| i < FILL_COUNT implies m.dom().contains(#[trigger] fill_field(i).0) by {
        default_fields_has(DEFAULT_COUNT, place_of_fill(i));
        assert(fill_field(i).0 == default_field(place_of_fill(i)).0);
    }
    fields_filled_fixed(m, FILL_COUNT);
    reveal_strlit("telegram");
    reveal_strlit("thresholds");
    assert("telegram"@.len() != "thresholds"@.len());
    assert(default_fields(53).dom().contains("telegram"@));
    assert(default_fields(53)["telegram"@] == default_field(52).1);
    assert(m == default_fields(53).insert(default_field(53).0, default_field(53).1));
    assert(under(m, "telegram"@) == Some(default_field(52).1));
    section_fixed(None);
    assert(completed_fields(m) =~= m);
}

/// A number by which the names of the fields of a fresh configuration are told apart.
spec fn name_mark(name: Seq<char>) -> int {
    ((name.len() * 128 + name[0] as int) * 128 + name[name.len() - 4] as int) * 128
        + name[name.len() - 6] as int
}

spec fn mark_at(i: usize) -> int {
    match i {
        0 => 20526831,
        1 => 27064048,
        2 => 18561774,
        3 => 35190519,
        4 => 31013599,
        5 => 37304692,
        6 => 41498354,
        7 => 52179187,
        8 => 58471028,
        9 => 20721893,
        10 => 24918113,
        11 => 33298676,
        12 => 33298804,
        13 => 35403887,
        14 => 37500895,
        15 => 33306985,
        16 => 43790957,
        17 => 50082413,
        18 => 20519135,
        19 => 20519263,
        20 => 20519391,
        21 => 20477919,
        22 => 26818657,
        23 => 14399982,
        24 => 18593907,
        25 => 29079664,
        26 => 39565165,
        27 => 29111412,
        28 => 33306472,
        29 => 43792487,
        30 => 43792496,
        31 => 54277997,
        32 => 20748408,
        33 => 35436647,
        34 => 35436656,
        35 => 45922157,
        36 => 14514677,
        37 => 29112425,
        38 => 20502751,
        39 => 20502879,
        40 => 33307231,
        41 => 33306591,
        42 => 41578862,
        43 => 54163423,
        44 => 51999086,
        45 => 16397935,
        46 => 29046638,
        47 => 33061220,
        48 => 24784880,
        49 => 28981215,
        50 => 31079013,
        51 => 28979945,
        52 => 18691052,
        _ => 22886387,
    }
}

proof fn marks_are_right(i: usize)
    requires
        i < DEFAULT_COUNT,
    ensures
        name_mark(default_field(i).0) == mark_at(i),
{
    match i {
        0 => {
            reveal_strlit("demo_mode");
        },
        1 => {
            reveal_strlit("startup_mode");
        },
        2 => {
            reveal_strlit("language");
        },
        3 => {
            reveal_strlit("camera_view_mode");
        },
        4 => {
            reveal_strlit("demo_amp_mutes");
        },
        5 => {
            reveal_strlit("demo_projector_on");
        },
        6 => {
            reveal_strlit("demo_projector_mute");
        },
        7 => {
            reveal_strlit("projector_control_states");
        },
        8 => {
            reveal_strlit("projector_status_updated_at");
        },
        9 => {
            reveal_strlit("pixera_ip");
        },
        10 => {
            reveal_strlit("pixera_port");
        },
        11 => {
            reveal_strlit("pixera_octo1_ip");
        },
        12 => {
            reveal_strlit("pixera_octo2_ip");
        },
        13 => {
            reveal_strlit("pixera_octo_port");
        },
        14 => {
            reveal_strlit("pixera_octo_count");
        },
        15 => {
            reveal_strlit("pixera_api_root");
        },
        16 => {
            reveal_strlit("pixera_pjlink_module");
        },
        17 => {
            reveal_strlit("pixera_scheduler_module");
        },
        18 => {
            reveal_strlit("d40_01_ip");
        },
        19 => {
            reveal_strlit("d40_02_ip");
        },
        20 => {
            reveal_strlit("d40_03_ip");
        },
        21 => {
            reveal_strlit("amp_count");
        },
        22 => {
            reveal_strlit("d40_oca_port");
        },
        23 => {
            reveal_strlit("nas_ip");
        },
        24 => {
            reveal_strlit("nas_port");
        },
        25 => {
            reveal_strlit("nas_snmp_port");
        },
        26 => {
            reveal_strlit("nas_snmp_community");
        },
        27 => {
            reveal_strlit("poe_switch_ip");
        },
        28 => {
            reveal_strlit("poe_switch_name");
        },
        29 => {
            reveal_strlit("poe_switch_ping_port");
        },
        30 => {
            reveal_strlit("poe_switch_snmp_port");
        },
        31 => {
            reveal_strlit("poe_switch_snmp_community");
        },
        32 => {
            reveal_strlit("rutx50_ip");
        },
        33 => {
            reveal_strlit("rutx50_ping_port");
        },
        34 => {
            reveal_strlit("rutx50_snmp_port");
        },
        35 => {
            reveal_strlit("rutx50_snmp_community");
        },
        36 => {
            reveal_strlit("ups_ip");
        },
        37 => {
            reveal_strlit("power_disp_ip");
        },
        38 => {
            reveal_strlit("cam_01_ip");
        },
        39 => {
            reveal_strlit("cam_02_ip");
        },
        40 => {
            reveal_strlit("projector_start");
        },
        41 => {
            reveal_strlit("projector_count");
        },
        42 => {
            reveal_strlit("interactive_enabled");
        },
        43 => {
            reveal_strlit("interactive_scanner_count");
        },
        44 => {
            reveal_strlit("emergency_switch_enabled");
        },
        45 => {
            reveal_strlit("hotline");
        },
        46 => {
            reveal_strlit("location_name");
        },
        47 => {
            reveal_strlit("anydesk_address");
        },
        48 => {
            reveal_strlit("hub_api_url");
        },
        49 => {
            reveal_strlit("hub_api_token");
        },
        50 => {
            reveal_strlit("hub_project_id");
        },
        51 => {
            reveal_strlit("hub_device_id");
        },
        52 => {
            reveal_strlit("telegram");
        },
        _ => {
            reveal_strlit("thresholds");
        },
    }
}

proof fn marks_are_distinct(i: usize, j: usize)
    requires
        i < j < DEFAULT_COUNT,
    ensures
        mark_at(i) != mark_at(j),
{
}

proof fn default_fields_hold(n: usize, i: usize)
    requires
        i < n <= DEFAULT_COUNT,
    ensures
        default_fields(n).dom().contains(default_field(i).0),
        default_fields(n)[default_field(i).0] == default_field(i).1,
    decreases n,
{
    if i < n - 1 {
        let last = (n - 1) as usize;
        default_fields_hold(last, i);
        marks_are_right(i);
        marks_are_right(last);
        marks_are_distinct(i, last);
    }
}

/// Every default is found in a fresh configuration under its name.
pub proof fn defaults_are_found(i: usize)
    requires
        i < DEFAULT_COUNT,
    ensures
        default_config().get(default_field(i).0) == Some(default_field(i).1),
{
    default_fields_hold(DEFAULT_COUNT, i);
}

proof fn added_field(m: Map<Seq<char>, JsonV>, n: usize, key: Seq<char>) -> (i: usize)
    requires
        n <= FILL_COUNT,
        fields_filled(m, n).dom().contains(key),
        !m.dom().contains(key),
    ensures
        i < n,
        fill_field(i) == (key, fields_filled(m, n)[key]),
    decreases n,
{
    let last = (n - 1) as usize;
    if fields_filled(m, last).dom().contains(key) {
        added_field(m, last, key)
    } else {
        last
    }
}

/// Every field that completing adds to a configuration has the value that it has in a fresh
/// one.
pub proof fn added_fields_have_their_defaults(m: Map<Seq<char>, JsonV>, key: Seq<char>)
    requires
        completed_fields(m).dom().contains(key),
        !m.dom().contains(key),
    ensures
        default_config().get(key) == Some(completed_fields(m)[key]),
{
    let all = fields_filled(m, FILL_COUNT);
    if key == "telegram"@ {
        defaults_are_found(52);
        if all.dom().contains(key) {
            let i = added_field(m, FILL_COUNT, key);
            let p = place_of_fill(i);
            assert(default_field(p).0 == fill_field(i).0);
            marks_are_right(p);
            marks_are_right(52);
            marks_are_distinct(p, 52);
        }
    } else {
        let i = added_field(m, FILL_COUNT, key);
        assert(default_field(place_of_fill(i)) == fill_field(i));
        defaults_are_found(place_of_fill(i));
    }
}

proof fn alerts_filled_alike(m: Map<Seq<char>, JsonV>, n: usize, key: Seq<char>)
    requires
        !m.dom().contains(key),
    ensures
        telegram_filled(m, n).dom().contains(key) == telegram_filled(Map::empty(), n).dom().contains(
            key,
        ),
        telegram_filled(m, n).dom().contains(key) ==> telegram_filled(m, n)[key]
            == telegram_filled(Map::empty(), n)[key],
    decreases n,
{
    if n > 0 {
        alerts_filled_alike(m, (n - 1) as usize, key);
    }
}

/// Every field that completing adds to the section on alerts has the value that it has in a
/// fresh configuration.
pub proof fn added_alert_fields_have_their_defaults(m: Map<Seq<char>, JsonV>, key: Seq<char>)
    requires
        m.dom().contains("telegram"@),
        m["telegram"@] is Object,
        !(m["telegram"@]->Object_0).dom().contains(key),
        completed_fields(m)["telegram"@].get(key) is Some,
    ensures
        default_config().get2("telegram"@, key) == completed_fields(m)["telegram"@].get(key),
{
    defaults_are_found(52);
    fields_filled_keeps(m, FILL_COUNT, "telegram"@);
    alerts_filled_alike(m["telegram"@]->Object_0, TELEGRAM_DEFAULT_COUNT, key);
}

// ---------------------------------------------------------------------------
// Changes
// ---------------------------------------------------------------------------

pub open spec fn with_site(cfg: JsonV, location_name: Seq<char>, anydesk_address: Seq<char>) -> JsonV {
    with_key(
        with_key(cfg, "location_name"@, JsonV::Text(text::trimmed(location_name))),
        "anydesk_address"@,
        JsonV::Text(text::trimmed(anydesk_address)),
    )
}

/// Sets the name of the site and its remote address.
pub fn site_metadata_config(read: Option<Json>, location_name: &str, anydesk_address: &str) -> (r:
    Json)
    ensures
        r@ == with_site(stored_config(view_read(read)), location_name@, anydesk_address@),
{
    let cfg = load_config(read);
    let named = with_field(cfg, "location_name", Json::Text(text::trim(location_name)));
    with_field(named, "anydesk_address", Json::Text(text::trim(anydesk_address)))
}

/// Why the access data of the hub are refused.
pub open spec fn hub_config_fault(
    api_url: Seq<char>,
    project_id: Seq<char>,
    device_id: Seq<char>,
) -> Option<Seq<char>> {
    let url = text::trimmed(api_url);
    if url.len() > 0 && !text::begins(url, "https://"@) {
        Some("Hub API muss eine HTTPS-URL verwenden"@)
    } else if encode_utf8(text::trimmed(project_id)).len() > 120 || encode_utf8(
        text::trimmed(device_id),
    ).len() > 120 {
        Some("Projekt-ID oder Geräte-ID ist zu lang"@)
    } else {
        None
    }
}

/// A configuration with the access data of the hub.
pub open spec fn with_hub(
    cfg: JsonV,
    api_url: Seq<char>,
    api_token: Seq<char>,
    project_id: Seq<char>,
    device_id: Seq<char>,
) -> JsonV {
    let c1 = with_key(cfg, "hub_api_url"@, JsonV::Text(text::trimmed(api_url)));
    let c2 = with_key(c1, "hub_api_token"@, JsonV::Text(text::trimmed(api_token)));
    let c3 = with_key(c2, "hub_project_id"@, JsonV::Text(text::trimmed(project_id)));
    with_key(c3, "hub_device_id"@, JsonV::Text(text::trimmed(device_id)))
}

/// Sets the access data of the hub: an HTTPS address or none, and identifiers of at most 120
/// bytes.
pub fn hub_config(
    read: Option<Json>,
    api_url: &str,
    api_token: &str,
    project_id: &str,
    device_id: &str,
) -> (r: Result<Json, String>)
    ensures
        json::view_result(r) == match hub_config_fault(api_url@, project_id@, device_id@) {
            Some(e) => Err(e),
            None => Ok(
                with_hub(
                    stored_config(view_read(read)),
                    api_url@,
                    api_token@,
                    project_id@,
                    device_id@,
                ),
            ),
        },
{
    let url = text::trim(api_url);
    if !url.as_str().is_empty() && !text::starts_with(url.as_str(), "https://") {
        return Err("Hub API muss eine HTTPS-URL verwenden".to_owned());
    }
    let project = text::trim(project_id);
    let device = text::trim(device_id);
    if numerals::byte_len(project.as_str()) > 120 || numerals::byte_len(device.as_str()) > 120 {
        return Err("Projekt-ID oder Geräte-ID ist zu lang".to_owned());
    }
    let c0 = load_config(read);
    let c1 = with_field(c0, "hub_api_url", Json::Text(url));
    let c2 = with_field(c1, "hub_api_token", Json::Text(text::trim(api_token)));
    let c3 = with_field(c2, "hub_project_id", Json::Text(project));
    Ok(with_field(c3, "hub_device_id", Json::Text(device)))
}

/// Events as they are stored: trimmed, in small letters, without empty ones, and each only
/// where it comes first.
pub open spec fn cleaned_events(list: Seq<Seq<char>>) -> Seq<Seq<char>>
    decreases list.len(),
{
    if list.len() == 0 {
        Seq::empty()
    } else {
        let before = cleaned_events(list.drop_last());
        let v = text::lowered(text::trimmed(list.last()));
        if v.len() == 0 || before.contains(v) {
            before
        } else {
            before.push(v)
        }
    }
}

/// Whether a text stands in a list.
pub fn listed(list: &Vec<String>, s: &str) -> (r: bool)
    ensures
        r == text::texts(list@).contains(s@),
{
    let mut i: usize = 0;
    while i < list.len()
        invariant
            i <= list@.len(),
            forall|j: int| 0 <= j < i ==> (#[trigger] text::texts(list@)[j]) != s@,
        decreases list@.len() - i,
    {
        if text::same(list[i].as_str(), s) {
            proof {
                assert(text::texts(list@)[i as int] == s@);
            }
            return true;
        }
        i += 1;
    }
    false
}

/// Cleans a list of events.
pub fn clean_events(events: &Vec<String>) -> (r: Vec<String>)
    ensures
        text::texts(r@) == cleaned_events(text::texts(events@)),
{
    let ghost all = text::texts(events@);
    let mut out: Vec<String> = Vec::new();
    let mut i: usize = 0;
    proof {
        assert(text::texts(out@) =~= cleaned_events(all.take(0)));
    }
    while i < events.len()
        invariant
            i <= events@.len(),
            all == text::texts(events@),
            text::texts(out@) == cleaned_events(all.take(i as int)),
        decreases events@.len() - i,
    {
        let v = text::to_ascii_lowercase(text::trim(events[i].as_str()).as_str());
        proof {
            assert(all.take(i + 1).drop_last() =~= all.take(i as int));
        }
        if !v.as_str().is_empty() && !listed(&out, v.as_str()) {
            ups::note(&mut out, v);
        }
        i += 1;
    }
    proof {
        assert(all.take(i as int) =~= all);
    }
    out
}

/// No event is stored twice, and no empty one is.
pub proof fn cleaned_events_are_distinct(list: Seq<Seq<char>>)
    ensures
        cleaned_events(list).no_duplicates(),
        !cleaned_events(list).contains(Seq::<char>::empty()),
    decreases list.len(),
{
    if list.len() > 0 {
        cleaned_events_are_distinct(list.drop_last());
        let v = text::lowered(text::trimmed(list.last()));
        let before = cleaned_events(list.drop_last());
        if v.len() > 0 && !before.contains(v) {
            let now = before.push(v);
            assert forall|i: int, j: int|
                0 <= i < now.len() && 0 <= j < now.len() && i != j implies now[i] != now[j] by {
                if i == before.len() {
                    assert(before.contains(before[j]));
                }
                if j == before.len() {
                    assert(before.contains(before[i]));
                }
            }
            if now.contains(Seq::<char>::empty()) {
                let i = choose|i: int| 0 <= i < now.len() && now[i] == Seq::<char>::empty();
                if i < before.len() {
                    assert(before[i] == Seq::<char>::empty());
                    assert(before.contains(Seq::<char>::empty()));
                }
            }
        }
    }
}

/// The settings of the alerts.
pub struct TelegramSettings {
    pub enabled: bool,
    pub bot_token: String,
    pub chat_id: String,
    pub channel_id: Option<String>,
    pub alert_events: Option<Vec<String>>,
}

/// The section on alerts with new settings.
pub open spec fn telegram_with(t: Map<Seq<char>, JsonV>, s: TelegramSettings) -> Map<
    Seq<char>,
    JsonV,
> {
    let t1 = t.insert("enabled"@, JsonV::Bool(s.enabled)).insert(
        "bot_token"@,
        JsonV::Text(text::trimmed(s.bot_token@)),
    ).insert("chat_id"@, JsonV::Text(text::trimmed(s.chat_id@)));
    let t2 = match s.channel_id {
        Some(c) => t1.insert("channel_id"@, JsonV::Text(text::trimmed(c@))),
        None => t1,
    };
    match s.alert_events {
        Some(events) => t2.insert(
            "alert_events"@,
            json::text_list(cleaned_events(text::texts(events@))),
        ),
        None => t2,
    }
}

/// A configuration with new settings of the alerts; a section that is no object stays.
pub open spec fn with_telegram(cfg: JsonV, s: TelegramSettings) -> JsonV {
    match cfg.get("telegram"@) {
        Some(JsonV::Object(t)) => with_key(
            cfg,
            "telegram"@,
            JsonV::Object(telegram_with(t, s)),
        ),
        _ => cfg,
    }
}

/// Sets the settings of the alerts.
pub fn telegram_config(read: Option<Json>, s: &TelegramSettings) -> (r: Json)
    ensures
        r@ == with_telegram(stored_config(view_read(read)), *s),
{
    let cfg = load_config(read);
    let section = match cfg.get("telegram") {
        Some(t) => t.duplicate(),
        None => Json::Null,
    };
    match section {
        Json::Object(t) => {
            let mut m = t;
            json::put(&mut m, "enabled", Json::Bool(s.enabled));
            json::put(&mut m, "bot_token", Json::Text(text::trim(s.bot_token.as_str())));
            json::put(&mut m, "chat_id", Json::Text(text::trim(s.chat_id.as_str())));
            if let Some(c) = &s.channel_id {
                json::put(&mut m, "channel_id", Json::Text(text::trim(c.as_str())));
            }
            if let Some(events) = &s.alert_events {
                let cleaned = clean_events(events);
                json::put(&mut m, "alert_events", json::texts_to_json(&cleaned));
            }
            with_field(cfg, "telegram", Json::Object(m))
        },
        _ => cfg,
    }
}

/// The state of the user interface; what is absent stays as it is.
pub struct UiState {
    pub demo_mode: Option<bool>,
    pub startup_mode: Option<String>,
    pub language: Option<String>,
    pub camera_view_mode: Option<String>,
    pub projector_count: Option<u8>,
    pub pixera_octo_count: Option<u8>,
    pub amp_count: Option<u8>,
    pub interactive_enabled: Option<bool>,
    pub interactive_scanner_count: Option<u8>,
    pub emergency_switch_enabled: Option<bool>,
    pub demo_amp1_mutes: Option<Vec<bool>>,
    pub demo_amp2_mutes: Option<Vec<bool>>,
    pub demo_amp3_mutes: Option<Vec<bool>>,
    pub demo_projector_on: Option<Vec<bool>>,
    pub demo_projector_mute: Option<Vec<bool>>,
    pub projector_control_states: Option<Vec<String>>,
    pub projector_status_updated_at: Option<u64>,
}

pub open spec fn maybe_bool(m: Map<Seq<char>, JsonV>, key: Seq<char>, v: Option<bool>) -> Map<
    Seq<char>,
    JsonV,
> {
    match v {
        Some(b) => m.insert(key, JsonV::Bool(b)),
        None => m,
    }
}

/// One of two values: `other` if the given text is that one, in any letter case and with white
/// space around it, and else `usual`.
pub open spec fn maybe_mode(
    m: Map<Seq<char>, JsonV>,
    key: Seq<char>,
    v: Option<String>,
    other: Seq<char>,
    usual: Seq<char>,
) -> Map<Seq<char>, JsonV> {
    match v {
        Some(s) => m.insert(
            key,
            JsonV::Text(
                if text::lowered(text::trimmed(s@)) == other {
                    other
                } else {
                    usual
                },
            ),
        ),
        None => m,
    }
}

pub open spec fn clamped(n: int, low: int, high: int) -> int {
    if n < low {
        low
    } else if n > high {
        high
    } else {
        n
    }
}

pub open spec fn maybe_count(
    m: Map<Seq<char>, JsonV>,
    key: Seq<char>,
    v: Option<u8>,
    low: u8,
    high: u8,
) -> Map<Seq<char>, JsonV> {
    match v {
        Some(n) => m.insert(
            key,
            JsonV::Unsigned(clamped(n as int, low as int, high as int) as u64),
        ),
        None => m,
    }
}

/// The first `n` values of a list, made up to `n` with false.
pub open spec fn padded(list: Seq<bool>, n: nat) -> Seq<bool> {
    Seq::new(n, |i: int| i < list.len() && list[i])
}

pub open spec fn maybe_flags(
    m: Map<Seq<char>, JsonV>,
    key: Seq<char>,
    v: Option<Vec<bool>>,
    n: nat,
) -> Map<Seq<char>, JsonV> {
    match v {
        Some(list) => m.insert(key, json::bool_list(padded(list@, n))),
        None => m,
    }
}

/// The mute states of the amplifiers: set in the object of mute states, or in the usual one
/// where there is none; what is no object stays.
pub open spec fn with_amp_mutes(
    m: Map<Seq<char>, JsonV>,
    one: Option<Vec<bool>>,
    two: Option<Vec<bool>>,
    three: Option<Vec<bool>>,
) -> Map<Seq<char>, JsonV> {
    if one is None && two is None && three is None {
        m
    } else {
        let entry = match under(m, "demo_amp_mutes"@) {
            Some(j) => j,
            None => JsonV::Object(amp_mutes()),
        };
        m.insert(
            "demo_amp_mutes"@,
            match entry {
                JsonV::Object(amp) => JsonV::Object(
                    maybe_flags(
                        maybe_flags(maybe_flags(amp, "1"@, one, 4), "2"@, two, 4),
                        "3"@,
                        three,
                        4,
                    ),
                ),
                other => other,
            },
        )
    }
}

/// A state of a projector: one of the known ones, or unknown.
pub open spec fn projector_state(s: Seq<char>) -> Seq<char> {
    let v = text::lowered(text::trimmed(s));
    if v == "online"@ || v == "startup"@ || v == "cooldown"@ || v == "standby"@ || v == "offline"@
        || v == "error"@ {
        v
    } else {
        "unknown"@
    }
}

/// The states of 16 projectors; those that are not given are unknown.
pub open spec fn projector_states(list: Seq<Seq<char>>) -> Seq<Seq<char>> {
    Seq::new(
        16,
        |i: int|
            if i < list.len() {
                projector_state(list[i])
            } else {
                "unknown"@
            },
    )
}

/// A configuration with a new state of the user interface.
pub open spec fn ui_fields(m: Map<Seq<char>, JsonV>, s: UiState) -> Map<Seq<char>, JsonV> {
    let m1 = maybe_bool(m, "demo_mode"@, s.demo_mode);
    let m2 = maybe_mode(m1, "startup_mode"@, s.startup_mode, "viewer"@, "admin"@);
    let m3 = maybe_mode(m2, "language"@, s.language, "en"@, "de"@);
    let m4 = maybe_mode(m3, "camera_view_mode"@, s.camera_view_mode, "stream"@, "snapshot"@);
    let m5 = maybe_count(m4, "projector_count"@, s.projector_count, 1, 16);
    let m6 = maybe_count(m5, "pixera_octo_count"@, s.pixera_octo_count, 0, 2);
    let m7 = maybe_count(m6, "amp_count"@, s.amp_count, 1, 3);
    let m8 = maybe_bool(m7, "interactive_enabled"@, s.interactive_enabled);
    let m9 = maybe_count(m8, "interactive_scanner_count"@, s.interactive_scanner_count, 1, 2);
    let m10 = maybe_bool(m9, "emergency_switch_enabled"@, s.emergency_switch_enabled);
    let m11 = with_amp_mutes(m10, s.demo_amp1_mutes, s.demo_amp2_mutes, s.demo_amp3_mutes);
    let m12 = maybe_flags(m11, "demo_projector_on"@, s.demo_projector_on, 16);
    let m13 = maybe_flags(m12, "demo_projector_mute"@, s.demo_projector_mute, 16);
    let m14 = match s.projector_control_states {
        Some(list) => m13.insert(
            "projector_control_states"@,
            json::text_list(projector_states(text::texts(list@))),
        ),
        None => m13,
    };
    match s.projector_status_updated_at {
        Some(t) => m14.insert("projector_status_updated_at"@, JsonV::Unsigned(t)),
        None => m14,
    }
}

pub open spec fn with_ui(cfg: JsonV, s: UiState) -> JsonV {
    match cfg {
        JsonV::Object(m) => JsonV::Object(ui_fields(m, s)),
        other => other,
    }
}

fn put_bool(m: &mut StrMap<Json>, key: &str, v: Option<bool>)
    ensures
        json::fields(*final(m)) == maybe_bool(json::fields(*old(m)), key@, v),
{
    if let Some(b) = v {
        json::put(m, key, Json::Bool(b));
    }
}

fn put_mode(m: &mut StrMap<Json>, key: &str, v: &Option<String>, other: &str, usual: &str)
    ensures
        json::fields(*final(m)) == maybe_mode(json::fields(*old(m)), key@, *v, other@, usual@),
{
    if let Some(s) = v {
        let normalized = text::to_ascii_lowercase(text::trim(s.as_str()).as_str());
        if text::same(normalized.as_str(), other) {
            json::put(m, key, json::text(other));
        } else {
            json::put(m, key, json::text(usual));
        }
    }
}

fn put_count(m: &mut StrMap<Json>, key: &str, v: Option<u8>, low: u8, high: u8)
    requires
        low <= high,
    ensures
        json::fields(*final(m)) == maybe_count(json::fields(*old(m)), key@, v, low, high),
{
    if let Some(n) = v {
        let c: u8 = if n < low {
            low
        } else if n > high {
            high
        } else {
            n
        };
        json::put(m, key, Json::Unsigned(c as u64));
    }
}

/// Pads a list of flags with false, or cuts it, to a length.
pub fn pad_flags(list: &Vec<bool>, n: usize) -> (r: Vec<bool>)
    ensures
        r@ == padded(list@, n as nat),
{
    let mut out: Vec<bool> = Vec::new();
    let mut i: usize = 0;
    while i < n
        invariant
            i <= n,
            out@.len() == i,
            forall|j: int| 0 <= j < i ==> #[trigger] out@[j] == (j < list@.len() && list@[j]),
        decreases n - i,
    {
        out.push(i < list.len() && list[i]);
        i += 1;
    }
    proof {
        assert(out@ =~= padded(list@, n as nat));
    }
    out
}

fn put_flags(m: &mut StrMap<Json>, key: &str, v: &Option<Vec<bool>>, n: usize)
    ensures
        json::fields(*final(m)) == maybe_flags(json::fields(*old(m)), key@, *v, n as nat),
{
    if let Some(list) = v {
        json::put(m, key, json::bools_to_json(&pad_flags(list, n)));
    }
}

/// Normalizes a state of a projector.
pub fn normalize_projector_state(s: &str) -> (r: String)
    ensures
        r@ == projector_state(s@),
{
    let v = text::to_ascii_lowercase(text::trim(s).as_str());
    let known = text::same(v.as_str(), "online") || text::same(v.as_str(), "startup")
        || text::same(v.as_str(), "cooldown") || text::same(v.as_str(), "standby") || text::same(
        v.as_str(),
        "offline",
    ) || text::same(v.as_str(), "error");
    if known {
        v
    } else {
        "unknown".to_owned()
    }
}

fn states_of(list: &Vec<String>) -> (r: Vec<String>)
    ensures
        text::texts(r@) == projector_states(text::texts(list@)),
{
    let mut out: Vec<String> = Vec::new();
    let mut i: usize = 0;
    while i < 16
        invariant
            i <= 16,
            out@.len() == i,
            forall|j: int|
                0 <= j < i ==> (#[trigger] out@[j])@ == projector_states(text::texts(list@))[j],
        decreases 16 - i,
    {
        if i < list.len() {
            out.push(normalize_projector_state(list[i].as_str()));
        } else {
            out.push("unknown".to_owned());
        }
        i += 1;
    }
    proof {
        assert(text::texts(out@) =~= projector_states(text::texts(list@)));
    }
    out
}

fn put_amp_mutes(m: StrMap<Json>, s: &UiState) -> (r: StrMap<Json>)
    ensures
        json::fields(r) == with_amp_mutes(
            json::fields(m),
            s.demo_amp1_mutes,
            s.demo_amp2_mutes,
            s.demo_amp3_mutes,
        ),
{
    if s.demo_amp1_mutes.is_none() && s.demo_amp2_mutes.is_none() && s.demo_amp3_mutes.is_none() {
        return m;
    }
    let whole = Json::Object(m);
    let entry = match whole.get("demo_amp_mutes") {
        Some(j) => j.duplicate(),
        None => Json::Object(amp_mutes_object()),
    };
    let changed = match entry {
        Json::Object(amp) => {
            let mut a = amp;
            put_flags(&mut a, "1", &s.demo_amp1_mutes, 4);
            put_flags(&mut a, "2", &s.demo_amp2_mutes, 4);
            put_flags(&mut a, "3", &s.demo_amp3_mutes, 4);
            Json::Object(a)
        },
        other => other,
    };
    match whole {
        Json::Object(m2) => {
            let mut m3 = m2;
            json::put(&mut m3, "demo_amp_mutes", changed);
            m3
        },
        _ => json::empty_object(),
    }
}

/// Sets the state of the user interface. Counts are clamped to their ranges, modes and states
/// of projectors are normalized, and lists are cut or padded to their lengths.
pub fn ui_state_config(read: Option<Json>, s: &UiState) -> (r: Json)
    ensures
        r@ == with_ui(stored_config(view_read(read)), *s),
{
    match load_config(read) {
        Json::Object(m) => {
            let mut a = m;
            put_bool(&mut a, "demo_mode", s.demo_mode);
            put_mode(&mut a, "startup_mode", &s.startup_mode, "viewer", "admin");
            put_mode(&mut a, "language", &s.language, "en", "de");
            put_mode(&mut a, "camera_view_mode", &s.camera_view_mode, "stream", "snapshot");
            put_count(&mut a, "projector_count", s.projector_count, 1, 16);
            put_count(&mut a, "pixera_octo_count", s.pixera_octo_count, 0, 2);
            put_count(&mut a, "amp_count", s.amp_count, 1, 3);
            put_bool(&mut a, "interactive_enabled", s.interactive_enabled);
            put_count(&mut a, "interactive_scanner_count", s.interactive_scanner_count, 1, 2);
            put_bool(&mut a, "emergency_switch_enabled", s.emergency_switch_enabled);
            let mut b = put_amp_mutes(a, s);
            put_flags(&mut b, "demo_projector_on", &s.demo_projector_on, 16);
            put_flags(&mut b, "demo_projector_mute", &s.demo_projector_mute, 16);
            if let Some(list) = &s.projector_control_states {
                let states = states_of(list);
                json::put(&mut b, "projector_control_states", json::texts_to_json(&states));
            }
            if let Some(t) = s.projector_status_updated_at {
                json::put(&mut b, "projector_status_updated_at", Json::Unsigned(t));
            }
            Json::Object(b)
        },
        other => other,
    }
}

/// An empty state changes nothing.
pub proof fn empty_ui_state_changes_nothing(m: Map<Seq<char>, JsonV>, s: UiState)
    requires
        s.demo_mode is None && s.startup_mode is None && s.language is None && s.camera_view_mode
            is None,
        s.projector_count is None && s.pixera_octo_count is None && s.amp_count is None,
        s.interactive_enabled is None && s.interactive_scanner_count is None
            && s.emergency_switch_enabled is None,
        s.demo_amp1_mutes is None && s.demo_amp2_mutes is None && s.demo_amp3_mutes is None,
        s.demo_projector_on is None && s.demo_projector_mute is None,
        s.projector_control_states is None && s.projector_status_updated_at is None,
    ensures
        ui_fields(m, s) == m,
{
}

/// The settings that belong to the state of the user interface.
pub open spec fn is_ui_setting(key: Seq<char>) -> bool {
    ||| key == "demo_mode"@ || key == "startup_mode"@ || key == "language"@
    ||| key == "camera_view_mode"@ || key == "projector_count"@ || key == "pixera_octo_count"@
    ||| key == "amp_count"@ || key == "interactive_enabled"@
    ||| key == "interactive_scanner_count"@ || key == "emergency_switch_enabled"@
    ||| key == "demo_amp_mutes"@ || key == "demo_projector_on"@ || key == "demo_projector_mute"@
    ||| key == "projector_control_states"@ || key == "projector_status_updated_at"@
}

/// Saving the state of the user interface leaves every other setting as it is.
#[verifier::spinoff_prover]
pub proof fn saving_the_interface_keeps_the_rest(cfg: JsonV, s: UiState, key: Seq<char>)
    requires
        !is_ui_setting(key),
    ensures
        with_ui(cfg, s).get(key) == cfg.get(key),
{
    if let JsonV::Object(m) = cfg {
        let m1 = maybe_bool(m, "demo_mode"@, s.demo_mode);
        assert(under(m1, key) == under(m, key));
        let m2 = maybe_mode(m1, "startup_mode"@, s.startup_mode, "viewer"@, "admin"@);
        assert(under(m2, key) == under(m, key));
        let m3 = maybe_mode(m2, "language"@, s.language, "en"@, "de"@);
        assert(under(m3, key) == under(m, key));
        let m4 = maybe_mode(m3, "camera_view_mode"@, s.camera_view_mode, "stream"@, "snapshot"@);
        assert(under(m4, key) == under(m, key));
        let m5 = maybe_count(m4, "projector_count"@, s.projector_count, 1, 16);
        assert(under(m5, key) == under(m, key));
        let m6 = maybe_count(m5, "pixera_octo_count"@, s.pixera_octo_count, 0, 2);
        assert(under(m6, key) == under(m, key));
        let m7 = maybe_count(m6, "amp_count"@, s.amp_count, 1, 3);
        assert(under(m7, key) == under(m, key));
        let m8 = maybe_bool(m7, "interactive_enabled"@, s.interactive_enabled);
        assert(under(m8, key) == under(m, key));
        let m9 = maybe_count(m8, "interactive_scanner_count"@, s.interactive_scanner_count, 1, 2);
        assert(under(m9, key) == under(m, key));
        let m10 = maybe_bool(m9, "emergency_switch_enabled"@, s.emergency_switch_enabled);
        assert(under(m10, key) == under(m, key));
        amp_mutes_keep_the_rest(m10, s.demo_amp1_mutes, s.demo_amp2_mutes, s.demo_amp3_mutes, key);
        let m11 = with_amp_mutes(m10, s.demo_amp1_mutes, s.demo_amp2_mutes, s.demo_amp3_mutes);
        assert(under(m11, key) == under(m, key));
        let m12 = maybe_flags(m11, "demo_projector_on"@, s.demo_projector_on, 16);
        assert(under(m12, key) == under(m, key));
        let m13 = maybe_flags(m12, "demo_projector_mute"@, s.demo_projector_mute, 16);
        assert(under(m13, key) == under(m, key));
        assert(under(ui_fields(m, s), key) == under(m, key));
    }
}

proof fn amp_mutes_keep_the_rest(
    m: Map<Seq<char>, JsonV>,
    one: Option<Vec<bool>>,
    two: Option<Vec<bool>>,
    three: Option<Vec<bool>>,
    key: Seq<char>,
)
    requires
        key != "demo_amp_mutes"@,
    ensures
        under(with_amp_mutes(m, one, two, three), key) == under(m, key),
{
}

/// Saving the data of the site, the access to the hub or the alerts leaves every other setting
/// as it is.
pub proof fn saving_access_keeps_the_rest(
    cfg: JsonV,
    a: Seq<char>,
    b: Seq<char>,
    c: Seq<char>,
    d: Seq<char>,
    t: TelegramSettings,
    key: Seq<char>,
)
    ensures
        key != "location_name"@ && key != "anydesk_address"@ ==> with_site(cfg, a, b).get(key)
            == cfg.get(key),
        key != "hub_api_url"@ && key != "hub_api_token"@ && key != "hub_project_id"@ && key
            != "hub_device_id"@ ==> with_hub(cfg, a, b, c, d).get(key) == cfg.get(key),
        key != "telegram"@ ==> with_telegram(cfg, t).get(key) == cfg.get(key),
{
}

pub open spec fn is_known_state(s: Seq<char>) -> bool {
    s == "online"@ || s == "startup"@ || s == "cooldown"@ || s == "standby"@ || s == "offline"@
        || s == "error"@ || s == "unknown"@
}

/// The states that are saved of the projectors are 16, each of them a known one, and a known
/// one is saved as it is.
pub proof fn saved_states_are_known(list: Seq<Seq<char>>, i: int)
    requires
        0 <= i < 16,
    ensures
        projector_states(list).len() == 16,
        is_known_state(projector_states(list)[i]),
        i < list.len() && is_known_state(text::lowered(text::trimmed(list[i])))
            ==> projector_states(list)[i] == text::lowered(text::trimmed(list[i])),
{
}

pub open spec fn offline_enabled(cfg: JsonV) -> bool {
    match cfg.get("offline_mode_enabled"@) {
        Some(JsonV::Bool(b)) => b,
        _ => false,
    }
}

/// Whether the offline mode is on.
pub fn offline_mode_enabled(cfg: &Json) -> (r: bool)
    ensures
        r == offline_enabled(cfg@),
{
    match cfg.get("offline_mode_enabled") {
        Some(v) => match v.as_bool() {
            Some(b) => b,
            None => false,
        },
        None => false,
    }
}

/// Sets the offline mode.
pub fn with_offline_mode(cfg: Json, enabled: bool) -> (r: Json)
    ensures
        r@ == with_key(cfg@, "offline_mode_enabled"@, JsonV::Bool(enabled)),
        cfg@ is Object ==> offline_enabled(r@) == enabled,
{
    with_field(cfg, "offline_mode_enabled", Json::Bool(enabled))
}

// ---------------------------------------------------------------------------
// Files and addresses
// ---------------------------------------------------------------------------

pub open spec fn alike_option(name: Option<Seq<char>>, s: Seq<char>) -> bool {
    match name {
        Some(n) => text::alike(n, s),
        None => false,
    }
}

fn is_alike(name: &Option<String>, s: &str) -> (r: bool)
    ensures
        r == alike_option(text::view_option(*name), s@),
{
    match name {
        Some(n) => text::eq_ignore_ascii_case(n.as_str(), s),
        None => false,
    }
}

/// Whether a path names the configuration of the source tree, given the name of the file and
/// of its directory. That file is never taken for the stored configuration.
pub fn is_src_tauri_config_path(file_name: &Option<String>, parent_name: &Option<String>) -> (r:
    bool)
    ensures
        r == (alike_option(text::view_option(*file_name), "config.json"@) && alike_option(
            text::view_option(*parent_name),
            "src-tauri"@,
        )),
{
    is_alike(file_name, "config.json") && is_alike(parent_name, "src-tauri")
}

/// The places that a configuration may stand at, each only once, in the order given.
pub open spec fn distinct(list: Seq<Seq<char>>) -> Seq<Seq<char>>
    decreases list.len(),
{
    if list.len() == 0 {
        Seq::empty()
    } else {
        let before = distinct(list.drop_last());
        if before.contains(list.last()) {
            before
        } else {
            before.push(list.last())
        }
    }
}

/// Drops the repetitions from a list of paths.
pub fn distinct_paths(list: &Vec<String>) -> (r: Vec<String>)
    ensures
        text::texts(r@) == distinct(text::texts(list@)),
{
    let ghost all = text::texts(list@);
    let mut out: Vec<String> = Vec::new();
    let mut i: usize = 0;
    proof {
        assert(text::texts(out@) =~= distinct(all.take(0)));
    }
    while i < list.len()
        invariant
            i <= list@.len(),
            all == text::texts(list@),
            text::texts(out@) == distinct(all.take(i as int)),
        decreases list@.len() - i,
    {
        proof {
            assert(all.take(i + 1).drop_last() =~= all.take(i as int));
            assert(all.take(i + 1).last() == list@[i as int]@);
        }
        if !listed(&out, list[i].as_str()) {
            ups::note(&mut out, list[i].clone());
        }
        i += 1;
    }
    proof {
        assert(all.take(i as int) =~= all);
    }
    out
}

/// No path is tried twice, and none is left out.
pub proof fn paths_are_distinct(list: Seq<Seq<char>>, path: Seq<char>)
    ensures
        distinct(list).no_duplicates(),
        distinct(list).contains(path) <==> list.contains(path),
    decreases list.len(),
{
    if list.len() > 0 {
        paths_are_distinct(list.drop_last(), path);
        paths_are_distinct(list.drop_last(), list.last());
        let before = distinct(list.drop_last());
        let v = list.last();
        assert(list.contains(path) <==> list.drop_last().contains(path) || path == v) by {
            if list.contains(path) {
                let i = choose|i: int| 0 <= i < list.len() && list[i] == path;
                if i < list.len() - 1 {
                    assert(list.drop_last()[i] == path);
                }
            }
            if list.drop_last().contains(path) {
                let i = choose|i: int| 0 <= i < list.len() - 1 && list.drop_last()[i] == path;
                assert(list[i] == path);
            }
            assert(list[list.len() - 1] == v);
        }
        if !before.contains(v) {
            let now = before.push(v);
            assert forall|i: int, j: int|
                0 <= i < now.len() && 0 <= j < now.len() && i != j implies now[i] != now[j] by {
                if i == before.len() {
                    assert(before.contains(before[j]));
                }
                if j == before.len() {
                    assert(before.contains(before[i]));
                }
            }
            assert(now.contains(path) <==> before.contains(path) || path == v) by {
                assert(now[before.len() as int] == v);
                if before.contains(path) {
                    let i = choose|i: int| 0 <= i < before.len() && before[i] == path;
                    assert(now[i] == path);
                }
                if now.contains(path) {
                    let i = choose|i: int| 0 <= i < now.len() && now[i] == path;
                    if i < before.len() {
                        assert(before[i] == path);
                    }
                }
            }
        }
    }
}

/// Why a request to the hub is refused.
pub open spec fn hub_request_fault(url: Seq<char>, api_token: Seq<char>) -> Option<Seq<char>> {
    if !text::begins(text::trimmed(url), "https://"@) {
        Some("Hub API muss eine HTTPS-URL verwenden"@)
    } else if text::is_blank(api_token) {
        Some("Hub API-Token fehlt"@)
    } else {
        None
    }
}

/// The address and the token of a request to the hub.
pub fn hub_request(url: &str, api_token: &str) -> (r: Result<(String, String), String>)
    ensures
        match r {
            Ok((endpoint, token)) => hub_request_fault(url@, api_token@) is None && endpoint@
                == text::trimmed(url@) && token@ == text::trimmed(api_token@),
            Err(e) => hub_request_fault(url@, api_token@) == Some(e@),
        },
{
    let endpoint = text::trim(url);
    if !text::starts_with(endpoint.as_str(), "https://") {
        return Err("Hub API muss eine HTTPS-URL verwenden".to_owned());
    }
    let token = text::trim(api_token);
    if token.as_str().is_empty() {
        return Err("Hub API-Token fehlt".to_owned());
    }
    Ok((endpoint, token))
}

/// The value of a reply of the hub: what its text reads as, or the text itself under `raw`.
pub open spec fn body_value(parsed: Result<JsonV, Seq<char>>, body: Seq<char>) -> JsonV {
    match parsed {
        Ok(j) => j,
        Err(_) => JsonV::Object(
            Map::<Seq<char>, JsonV>::empty().insert("raw"@, JsonV::Text(body)),
        ),
    }
}

/// The value of a reply of the hub, given what came of reading its text.
pub fn body_or_raw(parsed: Result<Json, String>, body: &str) -> (r: Json)
    ensures
        r@ == body_value(json::view_result(parsed), body@),
{
    match parsed {
        Ok(j) => j,
        Err(_) => {
            let mut m = json::empty_object();
            json::put(&mut m, "raw", json::text(body));
            Json::Object(m)
        },
    }
}

/// Reads the reply of the hub.
pub fn hub_body(body: &str) -> (r: Json)
    ensures
        r@ == body_value(json::json_of_text(body@), body@),
{
    body_or_raw(json::parse_json(body), body)
}

/// What a reply of the hub means. `status` and `shown` are its status line and its value as
/// text.
pub fn hub_outcome(success: bool, status: &str, value: Json, shown: &str) -> (r: Result<
    Json,
    String,
>)
    ensures
        json::view_result(r) == if success {
            Ok(value@)
        } else {
            Err("Hub API Fehler "@ + status@ + ": "@ + shown@)
        },
{
    if !success {
        let mut e = text::glue3("Hub API Fehler ", status, ": ");
        e.append(shown);
        return Err(e);
    }
    Ok(value)
}

/// The address that presses the emergency button: the given one, or the usual one where that
/// is blank.
pub fn companion_target(url: &str) -> (r: String)
    ensures
        r@ == if text::is_blank(url@) {
            "http://192.168.1.42:8000/api/location/1/2/0/press"@
        } else {
            url@
        },
{
    if text::blank(url) {
        "http://192.168.1.42:8000/api/location/1/2/0/press".to_owned()
    } else {
        url.to_owned()
    }
}

// ---------------------------------------------------------------------------
// What settings are after a change
// ---------------------------------------------------------------------------

proof fn interface_names_differ()
    ensures
        "demo_mode"@.len() == 9 && "demo_mode"@[0] == 'd',
        "startup_mode"@.len() == 12 && "startup_mode"@[0] == 's',
        "language"@.len() == 8 && "language"@[0] == 'l',
        "camera_view_mode"@.len() == 16 && "camera_view_mode"@[0] == 'c',
        "projector_count"@.len() == 15 && "projector_count"@[0] == 'p',
        "pixera_octo_count"@.len() == 17 && "pixera_octo_count"@[0] == 'p',
        "amp_count"@.len() == 9 && "amp_count"@[0] == 'a',
        "interactive_enabled"@.len() == 19 && "interactive_enabled"@[0] == 'i',
        "interactive_scanner_count"@.len() == 25 && "interactive_scanner_count"@[0] == 'i',
        "emergency_switch_enabled"@.len() == 24 && "emergency_switch_enabled"@[0] == 'e',
        "demo_amp_mutes"@.len() == 14 && "demo_amp_mutes"@[0] == 'd',
        "demo_projector_on"@.len() == 17 && "demo_projector_on"@[0] == 'd',
        "demo_projector_mute"@.len() == 19 && "demo_projector_mute"@[0] == 'd',
        "projector_control_states"@.len() == 24 && "projector_control_states"@[0] == 'p',
        "projector_status_updated_at"@.len() == 27 && "projector_status_updated_at"@[0] == 'p',
{
    reveal_strlit("demo_mode");
    reveal_strlit("startup_mode");
    reveal_strlit("language");
    reveal_strlit("camera_view_mode");
    reveal_strlit("projector_count");
    reveal_strlit("pixera_octo_count");
    reveal_strlit("amp_count");
    reveal_strlit("interactive_enabled");
    reveal_strlit("interactive_scanner_count");
    reveal_strlit("emergency_switch_enabled");
    reveal_strlit("demo_amp_mutes");
    reveal_strlit("demo_projector_on");
    reveal_strlit("demo_projector_mute");
    reveal_strlit("projector_control_states");
    reveal_strlit("projector_status_updated_at");
}

#[verifier::spinoff_prover]
proof fn saved_demo_mode(m: Map<Seq<char>, JsonV>, s: UiState)
    ensures
        under(ui_fields(m, s), "demo_mode"@) == under(maybe_bool(m, "demo_mode"@, s.demo_mode), "demo_mode"@),
{
    interface_names_differ();
    let key = "demo_mode"@;
    let m1 = maybe_bool(m, "demo_mode"@, s.demo_mode);
    let m2 = maybe_mode(m1, "startup_mode"@, s.startup_mode, "viewer"@, "admin"@);
    assert(under(m2, key) == under(m1, key));
    let m3 = maybe_mode(m2, "language"@, s.language, "en"@, "de"@);
    assert(under(m3, key) == under(m1, key));
    let m4 = maybe_mode(m3, "camera_view_mode"@, s.camera_view_mode, "stream"@, "snapshot"@);
    assert(under(m4, key) == under(m1, key));
    let m5 = maybe_count(m4, "projector_count"@, s.projector_count, 1, 16);
    assert(under(m5, key) == under(m1, key));
    let m6 = maybe_count(m5, "pixera_octo_count"@, s.pixera_octo_count, 0, 2);
    assert(under(m6, key) == under(m1, key));
    let m7 = maybe_count(m6, "amp_count"@, s.amp_count, 1, 3);
    assert(under(m7, key) == under(m1, key));
    let m8 = maybe_bool(m7, "interactive_enabled"@, s.interactive_enabled);
    assert(under(m8, key) == under(m1, key));
    let m9 = maybe_count(m8, "interactive_scanner_count"@, s.interactive_scanner_count, 1, 2);
    assert(under(m9, key) == under(m1, key));
    let m10 = maybe_bool(m9, "emergency_switch_enabled"@, s.emergency_switch_enabled);
    assert(under(m10, key) == under(m1, key));
    let m11 = with_amp_mutes(m10, s.demo_amp1_mutes, s.demo_amp2_mutes, s.demo_amp3_mutes);
    assert(under(m11, key) == under(m1, key));
    let m12 = maybe_flags(m11, "demo_projector_on"@, s.demo_projector_on, 16);
    assert(under(m12, key) == under(m1, key));
    let m13 = maybe_flags(m12, "demo_projector_mute"@, s.demo_projector_mute, 16);
    assert(under(m13, key) == under(m1, key));
    let m14 = match s.projector_control_states {
        Some(list) => m13.insert(
            "projector_control_states"@,
            json::text_list(projector_states(text::texts(list@))),
        ),
        None => m13,
    };
    assert(under(m14, key) == under(m1, key));
    let m15 = match s.projector_status_updated_at {
        Some(t) => m14.insert("projector_status_updated_at"@, JsonV::Unsigned(t)),
        None => m14,
    };
    assert(under(m15, key) == under(m1, key));
}

#[verifier::spinoff_prover]
proof fn saved_startup_mode(m: Map<Seq<char>, JsonV>, s: UiState)
    ensures
        under(ui_fields(m, s), "startup_mode"@) == under(maybe_mode(m, "startup_mode"@, s.startup_mode, "viewer"@, "admin"@), "startup_mode"@),
{
    interface_names_differ();
    let key = "startup_mode"@;
    let m1 = maybe_bool(m, "demo_mode"@, s.demo_mode);
    assert(under(m1, key) == under(m, key));
    let m2 = maybe_mode(m1, "startup_mode"@, s.startup_mode, "viewer"@, "admin"@);
    let m3 = maybe_mode(m2, "language"@, s.language, "en"@, "de"@);
    assert(under(m3, key) == under(m2, key));
    let m4 = maybe_mode(m3, "camera_view_mode"@, s.camera_view_mode, "stream"@, "snapshot"@);
    assert(under(m4, key) == under(m2, key));
    let m5 = maybe_count(m4, "projector_count"@, s.projector_count, 1, 16);
    assert(under(m5, key) == under(m2, key));
    let m6 = maybe_count(m5, "pixera_octo_count"@, s.pixera_octo_count, 0, 2);
    assert(under(m6, key) == under(m2, key));
    let m7 = maybe_count(m6, "amp_count"@, s.amp_count, 1, 3);
    assert(under(m7, key) == under(m2, key));
    let m8 = maybe_bool(m7, "interactive_enabled"@, s.interactive_enabled);
    assert(under(m8, key) == under(m2, key));
    let m9 = maybe_count(m8, "interactive_scanner_count"@, s.interactive_scanner_count, 1, 2);
    assert(under(m9, key) == under(m2, key));
    let m10 = maybe_bool(m9, "emergency_switch_enabled"@, s.emergency_switch_enabled);
    assert(under(m10, key) == under(m2, key));
    let m11 = with_amp_mutes(m10, s.demo_amp1_mutes, s.demo_amp2_mutes, s.demo_amp3_mutes);
    assert(under(m11, key) == under(m2, key));
    let m12 = maybe_flags(m11, "demo_projector_on"@, s.demo_projector_on, 16);
    assert(under(m12, key) == under(m2, key));
    let m13 = maybe_flags(m12, "demo_projector_mute"@, s.demo_projector_mute, 16);
    assert(under(m13, key) == under(m2, key));
    let m14 = match s.projector_control_states {
        Some(list) => m13.insert(
            "projector_control_states"@,
            json::text_list(projector_states(text::texts(list@))),
        ),
        None => m13,
    };
    assert(under(m14, key) == under(m2, key));
    let m15 = match s.projector_status_updated_at {
        Some(t) => m14.insert("projector_status_updated_at"@, JsonV::Unsigned(t)),
        None => m14,
    };
    assert(under(m15, key) == under(m2, key));
}

#[verifier::spinoff_prover]
proof fn saved_language(m: Map<Seq<char>, JsonV>, s: UiState)
    ensures
        under(ui_fields(m, s), "language"@) == under(maybe_mode(m, "language"@, s.language, "en"@, "de"@), "language"@),
{
    interface_names_differ();
    let key = "language"@;
    let m1 = maybe_bool(m, "demo_mode"@, s.demo_mode);
    assert(under(m1, key) == under(m, key));
    let m2 = maybe_mode(m1, "startup_mode"@, s.startup_mode, "viewer"@, "admin"@);
    assert(under(m2, key) == under(m, key));
    let m3 = maybe_mode(m2, "language"@, s.language, "en"@, "de"@);
    let m4 = maybe_mode(m3, "camera_view_mode"@, s.camera_view_mode, "stream"@, "snapshot"@);
    assert(under(m4, key) == under(m3, key));
    let m5 = maybe_count(m4, "projector_count"@, s.projector_count, 1, 16);
    assert(under(m5, key) == under(m3, key));
    let m6 = maybe_count(m5, "pixera_octo_count"@, s.pixera_octo_count, 0, 2);
    assert(under(m6, key) == under(m3, key));
    let m7 = maybe_count(m6, "amp_count"@, s.amp_count, 1, 3);
    assert(under(m7, key) == under(m3, key));
    let m8 = maybe_bool(m7, "interactive_enabled"@, s.interactive_enabled);
    assert(under(m8, key) == under(m3, key));
    let m9 = maybe_count(m8, "interactive_scanner_count"@, s.interactive_scanner_count, 1, 2);
    assert(under(m9, key) == under(m3, key));
    let m10 = maybe_bool(m9, "emergency_switch_enabled"@, s.emergency_switch_enabled);
    assert(under(m10, key) == under(m3, key));
    let m11 = with_amp_mutes(m10, s.demo_amp1_mutes, s.demo_amp2_mutes, s.demo_amp3_mutes);
    assert(under(m11, key) == under(m3, key));
    let m12 = maybe_flags(m11, "demo_projector_on"@, s.demo_projector_on, 16);
    assert(under(m12, key) == under(m3, key));
    let m13 = maybe_flags(m12, "demo_projector_mute"@, s.demo_projector_mute, 16);
    assert(under(m13, key) == under(m3, key));
    let m14 = match s.projector_control_states {
        Some(list) => m13.insert(
            "projector_control_states"@,
            json::text_list(projector_states(text::texts(list@))),
        ),
        None => m13,
    };
    assert(under(m14, key) == under(m3, key));
    let m15 = match s.projector_status_updated_at {
        Some(t) => m14.insert("projector_status_updated_at"@, JsonV::Unsigned(t)),
        None => m14,
    };
    assert(under(m15, key) == under(m3, key));
}

#[verifier::spinoff_prover]
proof fn saved_camera_view_mode(m: Map<Seq<char>, JsonV>, s: UiState)
    ensures
        under(ui_fields(m, s), "camera_view_mode"@) == under(maybe_mode(m, "camera_view_mode"@, s.camera_view_mode, "stream"@, "snapshot"@), "camera_view_mode"@),
{
    interface_names_differ();
    let key = "camera_view_mode"@;
    let m1 = maybe_bool(m, "demo_mode"@, s.demo_mode);
    assert(under(m1, key) == under(m, key));
    let m2 = maybe_mode(m1, "startup_mode"@, s.startup_mode, "viewer"@, "admin"@);
    assert(under(m2, key) == under(m, key));
    let m3 = maybe_mode(m2, "language"@, s.language, "en"@, "de"@);
    assert(under(m3, key) == under(m, key));
    let m4 = maybe_mode(m3, "camera_view_mode"@, s.camera_view_mode, "stream"@, "snapshot"@);
    let m5 = maybe_count(m4, "projector_count"@, s.projector_count, 1, 16);
    assert(under(m5, key) == under(m4, key));
    let m6 = maybe_count(m5, "pixera_octo_count"@, s.pixera_octo_count, 0, 2);
    assert(under(m6, key) == under(m4, key));
    let m7 = maybe_count(m6, "amp_count"@, s.amp_count, 1, 3);
    assert(under(m7, key) == under(m4, key));
    let m8 = maybe_bool(m7, "interactive_enabled"@, s.interactive_enabled);
    assert(under(m8, key) == under(m4, key));
    let m9 = maybe_count(m8, "interactive_scanner_count"@, s.interactive_scanner_count, 1, 2);
    assert(under(m9, key) == under(m4, key));
    let m10 = maybe_bool(m9, "emergency_switch_enabled"@, s.emergency_switch_enabled);
    assert(under(m10, key) == under(m4, key));
    let m11 = with_amp_mutes(m10, s.demo_amp1_mutes, s.demo_amp2_mutes, s.demo_amp3_mutes);
    assert(under(m11, key) == under(m4, key));
    let m12 = maybe_flags(m11, "demo_projector_on"@, s.demo_projector_on, 16);
    assert(under(m12, key) == under(m4, key));
    let m13 = maybe_flags(m12, "demo_projector_mute"@, s.demo_projector_mute, 16);
    assert(under(m13, key) == under(m4, key));
    let m14 = match s.projector_control_states {
        Some(list) => m13.insert(
            "projector_control_states"@,
            json::text_list(projector_states(text::texts(list@))),
        ),
        None => m13,
    };
    assert(under(m14, key) == under(m4, key));
    let m15 = match s.projector_status_updated_at {
        Some(t) => m14.insert("projector_status_updated_at"@, JsonV::Unsigned(t)),
        None => m14,
    };
    assert(under(m15, key) == under(m4, key));
}

#[verifier::spinoff_prover]
proof fn saved_projector_count(m: Map<Seq<char>, JsonV>, s: UiState)
    ensures
        under(ui_fields(m, s), "projector_count"@) == under(maybe_count(m, "projector_count"@, s.projector_count, 1, 16), "projector_count"@),
{
    interface_names_differ();
    let key = "projector_count"@;
    let m1 = maybe_bool(m, "demo_mode"@, s.demo_mode);
    assert(under(m1, key) == under(m, key));
    let m2 = maybe_mode(m1, "startup_mode"@, s.startup_mode, "viewer"@, "admin"@);
    assert(under(m2, key) == under(m, key));
    let m3 = maybe_mode(m2, "language"@, s.language, "en"@, "de"@);
    assert(under(m3, key) == under(m, key));
    let m4 = maybe_mode(m3, "camera_view_mode"@, s.camera_view_mode, "stream"@, "snapshot"@);
    assert(under(m4, key) == under(m, key));
    let m5 = maybe_count(m4, "projector_count"@, s.projector_count, 1, 16);
    let m6 = maybe_count(m5, "pixera_octo_count"@, s.pixera_octo_count, 0, 2);
    assert(under(m6, key) == under(m5, key));
    let m7 = maybe_count(m6, "amp_count"@, s.amp_count, 1, 3);
    assert(under(m7, key) == under(m5, key));
    let m8 = maybe_bool(m7, "interactive_enabled"@, s.interactive_enabled);
    assert(under(m8, key) == under(m5, key));
    let m9 = maybe_count(m8, "interactive_scanner_count"@, s.interactive_scanner_count, 1, 2);
    assert(under(m9, key) == under(m5, key));
    let m10 = maybe_bool(m9, "emergency_switch_enabled"@, s.emergency_switch_enabled);
    assert(under(m10, key) == under(m5, key));
    let m11 = with_amp_mutes(m10, s.demo_amp1_mutes, s.demo_amp2_mutes, s.demo_amp3_mutes);
    assert(under(m11, key) == under(m5, key));
    let m12 = maybe_flags(m11, "demo_projector_on"@, s.demo_projector_on, 16);
    assert(under(m12, key) == under(m5, key));
    let m13 = maybe_flags(m12, "demo_projector_mute"@, s.demo_projector_mute, 16);
    assert(under(m13, key) == under(m5, key));
    let m14 = match s.projector_control_states {
        Some(list) => m13.insert(
            "projector_control_states"@,
            json::text_list(projector_states(text::texts(list@))),
        ),
        None => m13,
    };
    assert(under(m14, key) == under(m5, key));
    let m15 = match s.projector_status_updated_at {
        Some(t) => m14.insert("projector_status_updated_at"@, JsonV::Unsigned(t)),
        None => m14,
    };
    assert(under(m15, key) == under(m5, key));
}

#[verifier::spinoff_prover]
proof fn saved_pixera_octo_count(m: Map<Seq<char>, JsonV>, s: UiState)
    ensures
        under(ui_fields(m, s), "pixera_octo_count"@) == under(maybe_count(m, "pixera_octo_count"@, s.pixera_octo_count, 0, 2), "pixera_octo_count"@),
{
    interface_names_differ();
    let key = "pixera_octo_count"@;
    let m1 = maybe_bool(m, "demo_mode"@, s.demo_mode);
    assert(under(m1, key) == under(m, key));
    let m2 = maybe_mode(m1, "startup_mode"@, s.startup_mode, "viewer"@, "admin"@);
    assert(under(m2, key) == under(m, key));
    let m3 = maybe_mode(m2, "language"@, s.language, "en"@, "de"@);
    assert(under(m3, key) == under(m, key));
    let m4 = maybe_mode(m3, "camera_view_mode"@, s.camera_view_mode, "stream"@, "snapshot"@);
    assert(under(m4, key) == under(m, key));
    let m5 = maybe_count(m4, "projector_count"@, s.projector_count, 1, 16);
    assert(under(m5, key) == under(m, key));
    let m6 = maybe_count(m5, "pixera_octo_count"@, s.pixera_octo_count, 0, 2);
    let m7 = maybe_count(m6, "amp_count"@, s.amp_count, 1, 3);
    assert(under(m7, key) == under(m6, key));
    let m8 = maybe_bool(m7, "interactive_enabled"@, s.interactive_enabled);
    assert(under(m8, key) == under(m6, key));
    let m9 = maybe_count(m8, "interactive_scanner_count"@, s.interactive_scanner_count, 1, 2);
    assert(under(m9, key) == under(m6, key));
    let m10 = maybe_bool(m9, "emergency_switch_enabled"@, s.emergency_switch_enabled);
    assert(under(m10, key) == under(m6, key));
    let m11 = with_amp_mutes(m10, s.demo_amp1_mutes, s.demo_amp2_mutes, s.demo_amp3_mutes);
    assert(under(m11, key) == under(m6, key));
    let m12 = maybe_flags(m11, "demo_projector_on"@, s.demo_projector_on, 16);
    assert(under(m12, key) == under(m6, key));
    let m13 = maybe_flags(m12, "demo_projector_mute"@, s.demo_projector_mute, 16);
    assert(under(m13, key) == under(m6, key));
    let m14 = match s.projector_control_states {
        Some(list) => m13.insert(
            "projector_control_states"@,
            json::text_list(projector_states(text::texts(list@))),
        ),
        None => m13,
    };
    assert(under(m14, key) == under(m6, key));
    let m15 = match s.projector_status_updated_at {
        Some(t) => m14.insert("projector_status_updated_at"@, JsonV::Unsigned(t)),
        None => m14,
    };
    assert(under(m15, key) == under(m6, key));
}

#[verifier::spinoff_prover]
proof fn saved_amp_count(m: Map<Seq<char>, JsonV>, s: UiState)
    ensures
        under(ui_fields(m, s), "amp_count"@) == under(maybe_count(m, "amp_count"@, s.amp_count, 1, 3), "amp_count"@),
{
    interface_names_differ();
    let key = "amp_count"@;
    let m1 = maybe_bool(m, "demo_mode"@, s.demo_mode);
    assert(under(m1, key) == under(m, key));
    let m2 = maybe_mode(m1, "startup_mode"@, s.startup_mode, "viewer"@, "admin"@);
    assert(under(m2, key) == under(m, key));
    let m3 = maybe_mode(m2, "language"@, s.language, "en"@, "de"@);
    assert(under(m3, key) == under(m, key));
    let m4 = maybe_mode(m3, "camera_view_mode"@, s.camera_view_mode, "stream"@, "snapshot"@);
    assert(under(m4, key) == under(m, key));
    let m5 = maybe_count(m4, "projector_count"@, s.projector_count, 1, 16);
    assert(under(m5, key) == under(m, key));
    let m6 = maybe_count(m5, "pixera_octo_count"@, s.pixera_octo_count, 0, 2);
    assert(under(m6, key) == under(m, key));
    let m7 = maybe_count(m6, "amp_count"@, s.amp_count, 1, 3);
    let m8 = maybe_bool(m7, "interactive_enabled"@, s.interactive_enabled);
    assert(under(m8, key) == under(m7, key));
    let m9 = maybe_count(m8, "interactive_scanner_count"@, s.interactive_scanner_count, 1, 2);
    assert(under(m9, key) == under(m7, key));
    let m10 = maybe_bool(m9, "emergency_switch_enabled"@, s.emergency_switch_enabled);
    assert(under(m10, key) == under(m7, key));
    let m11 = with_amp_mutes(m10, s.demo_amp1_mutes, s.demo_amp2_mutes, s.demo_amp3_mutes);
    assert(under(m11, key) == under(m7, key));
    let m12 = maybe_flags(m11, "demo_projector_on"@, s.demo_projector_on, 16);
    assert(under(m12, key) == under(m7, key));
    let m13 = maybe_flags(m12, "demo_projector_mute"@, s.demo_projector_mute, 16);
    assert(under(m13, key) == under(m7, key));
    let m14 = match s.projector_control_states {
        Some(list) => m13.insert(
            "projector_control_states"@,
            json::text_list(projector_states(text::texts(list@))),
        ),
        None => m13,
    };
    assert(under(m14, key) == under(m7, key));
    let m15 = match s.projector_status_updated_at {
        Some(t) => m14.insert("projector_status_updated_at"@, JsonV::Unsigned(t)),
        None => m14,
    };
    assert(under(m15, key) == under(m7, key));
}

#[verifier::spinoff_prover]
proof fn saved_interactive_enabled(m: Map<Seq<char>, JsonV>, s: UiState)
    ensures
        under(ui_fields(m, s), "interactive_enabled"@) == under(maybe_bool(m, "interactive_enabled"@, s.interactive_enabled), "interactive_enabled"@),
{
    interface_names_differ();
    let key = "interactive_enabled"@;
    let m1 = maybe_bool(m, "demo_mode"@, s.demo_mode);
    assert(under(m1, key) == under(m, key));
    let m2 = maybe_mode(m1, "startup_mode"@, s.startup_mode, "viewer"@, "admin"@);
    assert(under(m2, key) == under(m, key));
    let m3 = maybe_mode(m2, "language"@, s.language, "en"@, "de"@);
    assert(under(m3, key) == under(m, key));
    let m4 = maybe_mode(m3, "camera_view_mode"@, s.camera_view_mode, "stream"@, "snapshot"@);
    assert(under(m4, key) == under(m, key));
    let m5 = maybe_count(m4, "projector_count"@, s.projector_count, 1, 16);
    assert(under(m5, key) == under(m, key));
    let m6 = maybe_count(m5, "pixera_octo_count"@, s.pixera_octo_count, 0, 2);
    assert(under(m6, key) == under(m, key));
    let m7 = maybe_count(m6, "amp_count"@, s.amp_count, 1, 3);
    assert(under(m7, key) == under(m, key));
    let m8 = maybe_bool(m7, "interactive_enabled"@, s.interactive_enabled);
    let m9 = maybe_count(m8, "interactive_scanner_count"@, s.interactive_scanner_count, 1, 2);
    assert(under(m9, key) == under(m8, key));
    let m10 = maybe_bool(m9, "emergency_switch_enabled"@, s.emergency_switch_enabled);
    assert(under(m10, key) == under(m8, key));
    let m11 = with_amp_mutes(m10, s.demo_amp1_mutes, s.demo_amp2_mutes, s.demo_amp3_mutes);
    assert(under(m11, key) == under(m8, key));
    let m12 = maybe_flags(m11, "demo_projector_on"@, s.demo_projector_on, 16);
    assert(under(m12, key) == under(m8, key));
    let m13 = maybe_flags(m12, "demo_projector_mute"@, s.demo_projector_mute, 16);
    assert(under(m13, key) == under(m8, key));
    let m14 = match s.projector_control_states {
        Some(list) => m13.insert(
            "projector_control_states"@,
            json::text_list(projector_states(text::texts(list@))),
        ),
        None => m13,
    };
    assert(under(m14, key) == under(m8, key));
    let m15 = match s.projector_status_updated_at {
        Some(t) => m14.insert("projector_status_updated_at"@, JsonV::Unsigned(t)),
        None => m14,
    };
    assert(under(m15, key) == under(m8, key));
}

#[verifier::spinoff_prover]
proof fn saved_interactive_scanner_count(m: Map<Seq<char>, JsonV>, s: UiState)
    ensures
        under(ui_fields(m, s), "interactive_scanner_count"@) == under(maybe_count(m, "interactive_scanner_count"@, s.interactive_scanner_count, 1, 2), "interactive_scanner_count"@),
{
    interface_names_differ();
    let key = "interactive_scanner_count"@;
    let m1 = maybe_bool(m, "demo_mode"@, s.demo_mode);
    assert(under(m1, key) == under(m, key));
    let m2 = maybe_mode(m1, "startup_mode"@, s.startup_mode, "viewer"@, "admin"@);
    assert(under(m2, key) == under(m, key));
    let m3 = maybe_mode(m2, "language"@, s.language, "en"@, "de"@);
    assert(under(m3, key) == under(m, key));
    let m4 = maybe_mode(m3, "camera_view_mode"@, s.camera_view_mode, "stream"@, "snapshot"@);
    assert(under(m4, key) == under(m, key));
    let m5 = maybe_count(m4, "projector_count"@, s.projector_count, 1, 16);
    assert(under(m5, key) == under(m, key));
    let m6 = maybe_count(m5, "pixera_octo_count"@, s.pixera_octo_count, 0, 2);
    assert(under(m6, key) == under(m, key));
    let m7 = maybe_count(m6, "amp_count"@, s.amp_count, 1, 3);
    assert(under(m7, key) == under(m, key));
    let m8 = maybe_bool(m7, "interactive_enabled"@, s.interactive_enabled);
    assert(under(m8, key) == under(m, key));
    let m9 = maybe_count(m8, "interactive_scanner_count"@, s.interactive_scanner_count, 1, 2);
    let m10 = maybe_bool(m9, "emergency_switch_enabled"@, s.emergency_switch_enabled);
    assert(under(m10, key) == under(m9, key));
    let m11 = with_amp_mutes(m10, s.demo_amp1_mutes, s.demo_amp2_mutes, s.demo_amp3_mutes);
    assert(under(m11, key) == under(m9, key));
    let m12 = maybe_flags(m11, "demo_projector_on"@, s.demo_projector_on, 16);
    assert(under(m12, key) == under(m9, key));
    let m13 = maybe_flags(m12, "demo_projector_mute"@, s.demo_projector_mute, 16);
    assert(under(m13, key) == under(m9, key));
    let m14 = match s.projector_control_states {
        Some(list) => m13.insert(
            "projector_control_states"@,
            json::text_list(projector_states(text::texts(list@))),
        ),
        None => m13,
    };
    assert(under(m14, key) == under(m9, key));
    let m15 = match s.projector_status_updated_at {
        Some(t) => m14.insert("projector_status_updated_at"@, JsonV::Unsigned(t)),
        None => m14,
    };
    assert(under(m15, key) == under(m9, key));
}

#[verifier::spinoff_prover]
proof fn saved_emergency_switch_enabled(m: Map<Seq<char>, JsonV>, s: UiState)
    ensures
        under(ui_fields(m, s), "emergency_switch_enabled"@) == under(maybe_bool(m, "emergency_switch_enabled"@, s.emergency_switch_enabled), "emergency_switch_enabled"@),
{
    interface_names_differ();
    let key = "emergency_switch_enabled"@;
    let m1 = maybe_bool(m, "demo_mode"@, s.demo_mode);
    assert(under(m1, key) == under(m, key));
    let m2 = maybe_mode(m1, "startup_mode"@, s.startup_mode, "viewer"@, "admin"@);
    assert(under(m2, key) == under(m, key));
    let m3 = maybe_mode(m2, "language"@, s.language, "en"@, "de"@);
    assert(under(m3, key) == under(m, key));
    let m4 = maybe_mode(m3, "camera_view_mode"@, s.camera_view_mode, "stream"@, "snapshot"@);
    assert(under(m4, key) == under(m, key));
    let m5 = maybe_count(m4, "projector_count"@, s.projector_count, 1, 16);
    assert(under(m5, key) == under(m, key));
    let m6 = maybe_count(m5, "pixera_octo_count"@, s.pixera_octo_count, 0, 2);
    assert(under(m6, key) == under(m, key));
    let m7 = maybe_count(m6, "amp_count"@, s.amp_count, 1, 3);
    assert(under(m7, key) == under(m, key));
    let m8 = maybe_bool(m7, "interactive_enabled"@, s.interactive_enabled);
    assert(under(m8, key) == under(m, key));
    let m9 = maybe_count(m8, "interactive_scanner_count"@, s.interactive_scanner_count, 1, 2);
    assert(under(m9, key) == under(m, key));
    let m10 = maybe_bool(m9, "emergency_switch_enabled"@, s.emergency_switch_enabled);
    let m11 = with_amp_mutes(m10, s.demo_amp1_mutes, s.demo_amp2_mutes, s.demo_amp3_mutes);
    assert(under(m11, key) == under(m10, key));
    let m12 = maybe_flags(m11, "demo_projector_on"@, s.demo_projector_on, 16);
    assert(under(m12, key) == under(m10, key));
    let m13 = maybe_flags(m12, "demo_projector_mute"@, s.demo_projector_mute, 16);
    assert(under(m13, key) == under(m10, key));
    let m14 = match s.projector_control_states {
        Some(list) => m13.insert(
            "projector_control_states"@,
            json::text_list(projector_states(text::texts(list@))),
        ),
        None => m13,
    };
    assert(under(m14, key) == under(m10, key));
    let m15 = match s.projector_status_updated_at {
        Some(t) => m14.insert("projector_status_updated_at"@, JsonV::Unsigned(t)),
        None => m14,
    };
    assert(under(m15, key) == under(m10, key));
}

#[verifier::spinoff_prover]
proof fn saved_demo_amp_mutes(m: Map<Seq<char>, JsonV>, s: UiState)
    ensures
        under(ui_fields(m, s), "demo_amp_mutes"@) == under(with_amp_mutes(m, s.demo_amp1_mutes, s.demo_amp2_mutes, s.demo_amp3_mutes), "demo_amp_mutes"@),
{
    interface_names_differ();
    let key = "demo_amp_mutes"@;
    let m1 = maybe_bool(m, "demo_mode"@, s.demo_mode);
    assert(under(m1, key) == under(m, key));
    let m2 = maybe_mode(m1, "startup_mode"@, s.startup_mode, "viewer"@, "admin"@);
    assert(under(m2, key) == under(m, key));
    let m3 = maybe_mode(m2, "language"@, s.language, "en"@, "de"@);
    assert(under(m3, key) == under(m, key));
    let m4 = maybe_mode(m3, "camera_view_mode"@, s.camera_view_mode, "stream"@, "snapshot"@);
    assert(under(m4, key) == under(m, key));
    let m5 = maybe_count(m4, "projector_count"@, s.projector_count, 1, 16);
    assert(under(m5, key) == under(m, key));
    let m6 = maybe_count(m5, "pixera_octo_count"@, s.pixera_octo_count, 0, 2);
    assert(under(m6, key) == under(m, key));
    let m7 = maybe_count(m6, "amp_count"@, s.amp_count, 1, 3);
    assert(under(m7, key) == under(m, key));
    let m8 = maybe_bool(m7, "interactive_enabled"@, s.interactive_enabled);
    assert(under(m8, key) == under(m, key));
    let m9 = maybe_count(m8, "interactive_scanner_count"@, s.interactive_scanner_count, 1, 2);
    assert(under(m9, key) == under(m, key));
    let m10 = maybe_bool(m9, "emergency_switch_enabled"@, s.emergency_switch_enabled);
    assert(under(m10, key) == under(m, key));
    let m11 = with_amp_mutes(m10, s.demo_amp1_mutes, s.demo_amp2_mutes, s.demo_amp3_mutes);
    let m12 = maybe_flags(m11, "demo_projector_on"@, s.demo_projector_on, 16);
    assert(under(m12, key) == under(m11, key));
    let m13 = maybe_flags(m12, "demo_projector_mute"@, s.demo_projector_mute, 16);
    assert(under(m13, key) == under(m11, key));
    let m14 = match s.projector_control_states {
        Some(list) => m13.insert(
            "projector_control_states"@,
            json::text_list(projector_states(text::texts(list@))),
        ),
        None => m13,
    };
    assert(under(m14, key) == under(m11, key));
    let m15 = match s.projector_status_updated_at {
        Some(t) => m14.insert("projector_status_updated_at"@, JsonV::Unsigned(t)),
        None => m14,
    };
    assert(under(m15, key) == under(m11, key));
}

#[verifier::spinoff_prover]
proof fn saved_demo_projector_on(m: Map<Seq<char>, JsonV>, s: UiState)
    ensures
        under(ui_fields(m, s), "demo_projector_on"@) == under(maybe_flags(m, "demo_projector_on"@, s.demo_projector_on, 16), "demo_projector_on"@),
{
    interface_names_differ();
    let key = "demo_projector_on"@;
    let m1 = maybe_bool(m, "demo_mode"@, s.demo_mode);
    assert(under(m1, key) == under(m, key));
    let m2 = maybe_mode(m1, "startup_mode"@, s.startup_mode, "viewer"@, "admin"@);
    assert(under(m2, key) == under(m, key));
    let m3 = maybe_mode(m2, "language"@, s.language, "en"@, "de"@);
    assert(under(m3, key) == under(m, key));
    let m4 = maybe_mode(m3, "camera_view_mode"@, s.camera_view_mode, "stream"@, "snapshot"@);
    assert(under(m4, key) == under(m, key));
    let m5 = maybe_count(m4, "projector_count"@, s.projector_count, 1, 16);
    assert(under(m5, key) == under(m, key));
    let m6 = maybe_count(m5, "pixera_octo_count"@, s.pixera_octo_count, 0, 2);
    assert(under(m6, key) == under(m, key));
    let m7 = maybe_count(m6, "amp_count"@, s.amp_count, 1, 3);
    assert(under(m7, key) == under(m, key));
    let m8 = maybe_bool(m7, "interactive_enabled"@, s.interactive_enabled);
    assert(under(m8, key) == under(m, key));
    let m9 = maybe_count(m8, "interactive_scanner_count"@, s.interactive_scanner_count, 1, 2);
    assert(under(m9, key) == under(m, key));
    let m10 = maybe_bool(m9, "emergency_switch_enabled"@, s.emergency_switch_enabled);
    assert(under(m10, key) == under(m, key));
    let m11 = with_amp_mutes(m10, s.demo_amp1_mutes, s.demo_amp2_mutes, s.demo_amp3_mutes);
    assert(under(m11, key) == under(m, key));
    let m12 = maybe_flags(m11, "demo_projector_on"@, s.demo_projector_on, 16);
    let m13 = maybe_flags(m12, "demo_projector_mute"@, s.demo_projector_mute, 16);
    assert(under(m13, key) == under(m12, key));
    let m14 = match s.projector_control_states {
        Some(list) => m13.insert(
            "projector_control_states"@,
            json::text_list(projector_states(text::texts(list@))),
        ),
        None => m13,
    };
    assert(under(m14, key) == under(m12, key));
    let m15 = match s.projector_status_updated_at {
        Some(t) => m14.insert("projector_status_updated_at"@, JsonV::Unsigned(t)),
        None => m14,
    };
    assert(under(m15, key) == under(m12, key));
}

#[verifier::spinoff_prover]
proof fn saved_demo_projector_mute(m: Map<Seq<char>, JsonV>, s: UiState)
    ensures
        under(ui_fields(m, s), "demo_projector_mute"@) == under(maybe_flags(m, "demo_projector_mute"@, s.demo_projector_mute, 16), "demo_projector_mute"@),
{
    interface_names_differ();
    let key = "demo_projector_mute"@;
    let m1 = maybe_bool(m, "demo_mode"@, s.demo_mode);
    assert(under(m1, key) == under(m, key));
    let m2 = maybe_mode(m1, "startup_mode"@, s.startup_mode, "viewer"@, "admin"@);
    assert(under(m2, key) == under(m, key));
    let m3 = maybe_mode(m2, "language"@, s.language, "en"@, "de"@);
    assert(under(m3, key) == under(m, key));
    let m4 = maybe_mode(m3, "camera_view_mode"@, s.camera_view_mode, "stream"@, "snapshot"@);
    assert(under(m4, key) == under(m, key));
    let m5 = maybe_count(m4, "projector_count"@, s.projector_count, 1, 16);
    assert(under(m5, key) == under(m, key));
    let m6 = maybe_count(m5, "pixera_octo_count"@, s.pixera_octo_count, 0, 2);
    assert(under(m6, key) == under(m, key));
    let m7 = maybe_count(m6, "amp_count"@, s.amp_count, 1, 3);
    assert(under(m7, key) == under(m, key));
    let m8 = maybe_bool(m7, "interactive_enabled"@, s.interactive_enabled);
    assert(under(m8, key) == under(m, key));
    let m9 = maybe_count(m8, "interactive_scanner_count"@, s.interactive_scanner_count, 1, 2);
    assert(under(m9, key) == under(m, key));
    let m10 = maybe_bool(m9, "emergency_switch_enabled"@, s.emergency_switch_enabled);
    assert(under(m10, key) == under(m, key));
    let m11 = with_amp_mutes(m10, s.demo_amp1_mutes, s.demo_amp2_mutes, s.demo_amp3_mutes);
    assert(under(m11, key) == under(m, key));
    let m12 = maybe_flags(m11, "demo_projector_on"@, s.demo_projector_on, 16);
    assert(under(m12, key) == under(m, key));
    let m13 = maybe_flags(m12, "demo_projector_mute"@, s.demo_projector_mute, 16);
    let m14 = match s.projector_control_states {
        Some(list) => m13.insert(
            "projector_control_states"@,
            json::text_list(projector_states(text::texts(list@))),
        ),
        None => m13,
    };
    assert(under(m14, key) == under(m13, key));
    let m15 = match s.projector_status_updated_at {
        Some(t) => m14.insert("projector_status_updated_at"@, JsonV::Unsigned(t)),
        None => m14,
    };
    assert(under(m15, key) == under(m13, key));
}

#[verifier::spinoff_prover]
proof fn saved_projector_control_states(m: Map<Seq<char>, JsonV>, s: UiState)
    ensures
        under(ui_fields(m, s), "projector_control_states"@) == under((match s.projector_control_states {
            Some(list) => m.insert(
                "projector_control_states"@,
                json::text_list(projector_states(text::texts(list@))),
            ),
            None => m,
        }), "projector_control_states"@),
{
    interface_names_differ();
    let key = "projector_control_states"@;
    let m1 = maybe_bool(m, "demo_mode"@, s.demo_mode);
    assert(under(m1, key) == under(m, key));
    let m2 = maybe_mode(m1, "startup_mode"@, s.startup_mode, "viewer"@, "admin"@);
    assert(under(m2, key) == under(m, key));
    let m3 = maybe_mode(m2, "language"@, s.language, "en"@, "de"@);
    assert(under(m3, key) == under(m, key));
    let m4 = maybe_mode(m3, "camera_view_mode"@, s.camera_view_mode, "stream"@, "snapshot"@);
    assert(under(m4, key) == under(m, key));
    let m5 = maybe_count(m4, "projector_count"@, s.projector_count, 1, 16);
    assert(under(m5, key) == under(m, key));
    let m6 = maybe_count(m5, "pixera_octo_count"@, s.pixera_octo_count, 0, 2);
    assert(under(m6, key) == under(m, key));
    let m7 = maybe_count(m6, "amp_count"@, s.amp_count, 1, 3);
    assert(under(m7, key) == under(m, key));
    let m8 = maybe_bool(m7, "interactive_enabled"@, s.interactive_enabled);
    assert(under(m8, key) == under(m, key));
    let m9 = maybe_count(m8, "interactive_scanner_count"@, s.interactive_scanner_count, 1, 2);
    assert(under(m9, key) == under(m, key));
    let m10 = maybe_bool(m9, "emergency_switch_enabled"@, s.emergency_switch_enabled);
    assert(under(m10, key) == under(m, key));
    let m11 = with_amp_mutes(m10, s.demo_amp1_mutes, s.demo_amp2_mutes, s.demo_amp3_mutes);
    assert(under(m11, key) == under(m, key));
    let m12 = maybe_flags(m11, "demo_projector_on"@, s.demo_projector_on, 16);
    assert(under(m12, key) == under(m, key));
    let m13 = maybe_flags(m12, "demo_projector_mute"@, s.demo_projector_mute, 16);
    assert(under(m13, key) == under(m, key));
    let m14 = match s.projector_control_states {
        Some(list) => m13.insert(
            "projector_control_states"@,
            json::text_list(projector_states(text::texts(list@))),
        ),
        None => m13,
    };
    let m15 = match s.projector_status_updated_at {
        Some(t) => m14.insert("projector_status_updated_at"@, JsonV::Unsigned(t)),
        None => m14,
    };
    assert(under(m15, key) == under(m14, key));
}

#[verifier::spinoff_prover]
proof fn saved_projector_status_updated_at(m: Map<Seq<char>, JsonV>, s: UiState)
    ensures
        under(ui_fields(m, s), "projector_status_updated_at"@) == under((match s.projector_status_updated_at {
            Some(t) => m.insert("projector_status_updated_at"@, JsonV::Unsigned(t)),
            None => m,
        }), "projector_status_updated_at"@),
{
    interface_names_differ();
    let key = "projector_status_updated_at"@;
    let m1 = maybe_bool(m, "demo_mode"@, s.demo_mode);
    assert(under(m1, key) == under(m, key));
    let m2 = maybe_mode(m1, "startup_mode"@, s.startup_mode, "viewer"@, "admin"@);
    assert(under(m2, key) == under(m, key));
    let m3 = maybe_mode(m2, "language"@, s.language, "en"@, "de"@);
    assert(under(m3, key) == under(m, key));
    let m4 = maybe_mode(m3, "camera_view_mode"@, s.camera_view_mode, "stream"@, "snapshot"@);
    assert(under(m4, key) == under(m, key));
    let m5 = maybe_count(m4, "projector_count"@, s.projector_count, 1, 16);
    assert(under(m5, key) == under(m, key));
    let m6 = maybe_count(m5, "pixera_octo_count"@, s.pixera_octo_count, 0, 2);
    assert(under(m6, key) == under(m, key));
    let m7 = maybe_count(m6, "amp_count"@, s.amp_count, 1, 3);
    assert(under(m7, key) == under(m, key));
    let m8 = maybe_bool(m7, "interactive_enabled"@, s.interactive_enabled);
    assert(under(m8, key) == under(m, key));
    let m9 = maybe_count(m8, "interactive_scanner_count"@, s.interactive_scanner_count, 1, 2);
    assert(under(m9, key) == under(m, key));
    let m10 = maybe_bool(m9, "emergency_switch_enabled"@, s.emergency_switch_enabled);
    assert(under(m10, key) == under(m, key));
    let m11 = with_amp_mutes(m10, s.demo_amp1_mutes, s.demo_amp2_mutes, s.demo_amp3_mutes);
    assert(under(m11, key) == under(m, key));
    let m12 = maybe_flags(m11, "demo_projector_on"@, s.demo_projector_on, 16);
    assert(under(m12, key) == under(m, key));
    let m13 = maybe_flags(m12, "demo_projector_mute"@, s.demo_projector_mute, 16);
    assert(under(m13, key) == under(m, key));
    let m14 = match s.projector_control_states {
        Some(list) => m13.insert(
            "projector_control_states"@,
            json::text_list(projector_states(text::texts(list@))),
        ),
        None => m13,
    };
    assert(under(m14, key) == under(m, key));
    let m15 = match s.projector_status_updated_at {
        Some(t) => m14.insert("projector_status_updated_at"@, JsonV::Unsigned(t)),
        None => m14,
    };
}

/// The state of a projector that is written plainly is kept.
proof fn plain_states_are_kept(s: Seq<char>)
    ensures
        s == "online"@ || s == "offline"@ || s == "startup"@ || s == "cooldown"@
            || s == "standby"@ || s
            == "error"@ ==> projector_state(s) == s,
{
    reveal_strlit("online");
    reveal_strlit("offline");
    reveal_strlit("startup");
    reveal_strlit("cooldown");
    reveal_strlit("standby");
    reveal_strlit("error");
    if s == "online"@ || s == "offline"@ || s == "startup"@ || s == "cooldown"@ || s == "standby"@
        || s
        == "error"@ {
        let e = Seq::<char>::empty();
        text::trimming_takes_off_white_space(e, s, e);
        assert(e + s + e =~= s);
        assert(text::lowered(s) =~= s);
    }
}

/// A switch of the user interface is saved as it is set, and else stays.
#[verifier::spinoff_prover]
pub proof fn switches_are_saved(
    read: Option<Json>,
    before: Json,
    s: &UiState,
    r: Json,
)
    requires
        call_ensures(load_config, (read,), before),
        call_ensures(ui_state_config, (read, s), r),
    ensures
        s.demo_mode is None ==> r@.get("demo_mode"@) == before@.get("demo_mode"@),
        s.demo_mode is Some ==> r@.get("demo_mode"@) == Some(JsonV::Bool(s.demo_mode->0)),
        s.interactive_enabled is None
            ==> r@.get("interactive_enabled"@) == before@.get("interactive_enabled"@),
        s.interactive_enabled is Some
            ==> r@.get("interactive_enabled"@) == Some(JsonV::Bool(s.interactive_enabled->0)),
        s.emergency_switch_enabled is None
            ==> r@.get("emergency_switch_enabled"@) == before@.get("emergency_switch_enabled"@),
        s.emergency_switch_enabled is Some
            ==> r@.get("emergency_switch_enabled"@) == Some(JsonV::Bool(s.emergency_switch_enabled->0)),
        s.projector_status_updated_at is None
            ==> r@.get("projector_status_updated_at"@) == before@.get("projector_status_updated_at"@),
        s.projector_status_updated_at is Some
            ==> r@.get("projector_status_updated_at"@) == Some(JsonV::Unsigned(s.projector_status_updated_at->0)),
{
    assert(before@ is Object);
    let m = before@->Object_0;
    assert(r@.get("demo_mode"@) == under(ui_fields(m, *s), "demo_mode"@));
    assert(before@.get("demo_mode"@) == under(m, "demo_mode"@));
    assert(r@.get("interactive_enabled"@) == under(ui_fields(m, *s), "interactive_enabled"@));
    assert(before@.get("interactive_enabled"@) == under(m, "interactive_enabled"@));
    assert(r@.get("emergency_switch_enabled"@) == under(ui_fields(m, *s), "emergency_switch_enabled"@));
    assert(before@.get("emergency_switch_enabled"@) == under(m, "emergency_switch_enabled"@));
    assert(r@.get("projector_status_updated_at"@) == under(ui_fields(m, *s), "projector_status_updated_at"@));
    assert(before@.get("projector_status_updated_at"@) == under(m, "projector_status_updated_at"@));
    saved_demo_mode(before@->Object_0, *s);
    saved_interactive_enabled(before@->Object_0, *s);
    saved_emergency_switch_enabled(before@->Object_0, *s);
    saved_projector_status_updated_at(before@->Object_0, *s);
}

/// A mode is saved by its name, in any letter case; every other text means the usual mode.
#[verifier::spinoff_prover]
pub proof fn modes_are_saved(
    read: Option<Json>,
    before: Json,
    s: &UiState,
    r: Json,
)
    requires
        call_ensures(load_config, (read,), before),
        call_ensures(ui_state_config, (read, s), r),
    ensures
        s.startup_mode is None ==> r@.get("startup_mode"@) == before@.get("startup_mode"@),
        s.startup_mode is Some && text::lowered(text::trimmed((s.startup_mode->0)@)) == "viewer"@
            ==> r@.get("startup_mode"@) == Some(
            JsonV::Text("viewer"@),
        ),
        s.startup_mode is Some && text::lowered(text::trimmed((s.startup_mode->0)@)) != "viewer"@
            ==> r@.get("startup_mode"@) == Some(
            JsonV::Text("admin"@),
        ),
        s.language is None ==> r@.get("language"@) == before@.get("language"@),
        s.language is Some && text::lowered(text::trimmed((s.language->0)@)) == "en"@
            ==> r@.get("language"@) == Some(
            JsonV::Text("en"@),
        ),
        s.language is Some && text::lowered(text::trimmed((s.language->0)@)) != "en"@
            ==> r@.get("language"@) == Some(
            JsonV::Text("de"@),
        ),
        s.camera_view_mode is None
            ==> r@.get("camera_view_mode"@) == before@.get("camera_view_mode"@),
        s.camera_view_mode is Some
            && text::lowered(text::trimmed((s.camera_view_mode->0)@)) == "stream"@
            ==> r@.get("camera_view_mode"@) == Some(
            JsonV::Text("stream"@),
        ),
        s.camera_view_mode is Some
            && text::lowered(text::trimmed((s.camera_view_mode->0)@)) != "stream"@
            ==> r@.get("camera_view_mode"@) == Some(
            JsonV::Text("snapshot"@),
        ),
{
    assert(before@ is Object);
    let m = before@->Object_0;
    assert(r@.get("startup_mode"@) == under(ui_fields(m, *s), "startup_mode"@));
    assert(before@.get("startup_mode"@) == under(m, "startup_mode"@));
    assert(r@.get("language"@) == under(ui_fields(m, *s), "language"@));
    assert(before@.get("language"@) == under(m, "language"@));
    assert(r@.get("camera_view_mode"@) == under(ui_fields(m, *s), "camera_view_mode"@));
    assert(before@.get("camera_view_mode"@) == under(m, "camera_view_mode"@));
    saved_startup_mode(before@->Object_0, *s);
    saved_language(before@->Object_0, *s);
    saved_camera_view_mode(before@->Object_0, *s);
}

/// A count is saved as it is within its bounds, and else as the nearest bound.
#[verifier::spinoff_prover]
pub proof fn counts_are_saved(
    read: Option<Json>,
    before: Json,
    s: &UiState,
    r: Json,
)
    requires
        call_ensures(load_config, (read,), before),
        call_ensures(ui_state_config, (read, s), r),
    ensures
        s.projector_count is None ==> r@.get("projector_count"@) == before@.get("projector_count"@),
        s.projector_count is Some && 1 <= s.projector_count->0 <= 16
            ==> r@.get("projector_count"@) == Some(JsonV::Unsigned(s.projector_count->0 as u64)),
        s.projector_count is Some && s.projector_count->0 < 1
            ==> r@.get("projector_count"@) == Some(JsonV::Unsigned(1)),
        s.projector_count is Some && s.projector_count->0 > 16
            ==> r@.get("projector_count"@) == Some(JsonV::Unsigned(16)),
        s.pixera_octo_count is None
            ==> r@.get("pixera_octo_count"@) == before@.get("pixera_octo_count"@),
        s.pixera_octo_count is Some && 0 <= s.pixera_octo_count->0 <= 2
            ==> r@.get("pixera_octo_count"@) == Some(JsonV::Unsigned(s.pixera_octo_count->0 as u64)),
        s.pixera_octo_count is Some && s.pixera_octo_count->0 > 2
            ==> r@.get("pixera_octo_count"@) == Some(JsonV::Unsigned(2)),
        s.amp_count is None ==> r@.get("amp_count"@) == before@.get("amp_count"@),
        s.amp_count is Some && 1 <= s.amp_count->0 <= 3
            ==> r@.get("amp_count"@) == Some(JsonV::Unsigned(s.amp_count->0 as u64)),
        s.amp_count is Some && s.amp_count->0 < 1
            ==> r@.get("amp_count"@) == Some(JsonV::Unsigned(1)),
        s.amp_count is Some && s.amp_count->0 > 3
            ==> r@.get("amp_count"@) == Some(JsonV::Unsigned(3)),
        s.interactive_scanner_count is None
            ==> r@.get("interactive_scanner_count"@) == before@.get("interactive_scanner_count"@),
        s.interactive_scanner_count is Some && 1 <= s.interactive_scanner_count->0 <= 2
            ==> r@.get("interactive_scanner_count"@) == Some(JsonV::Unsigned(s.interactive_scanner_count->0 as u64)),
        s.interactive_scanner_count is Some && s.interactive_scanner_count->0 < 1
            ==> r@.get("interactive_scanner_count"@) == Some(JsonV::Unsigned(1)),
        s.interactive_scanner_count is Some && s.interactive_scanner_count->0 > 2
            ==> r@.get("interactive_scanner_count"@) == Some(JsonV::Unsigned(2)),
{
    assert(before@ is Object);
    let m = before@->Object_0;
    assert(r@.get("projector_count"@) == under(ui_fields(m, *s), "projector_count"@));
    assert(before@.get("projector_count"@) == under(m, "projector_count"@));
    assert(r@.get("pixera_octo_count"@) == under(ui_fields(m, *s), "pixera_octo_count"@));
    assert(before@.get("pixera_octo_count"@) == under(m, "pixera_octo_count"@));
    assert(r@.get("amp_count"@) == under(ui_fields(m, *s), "amp_count"@));
    assert(before@.get("amp_count"@) == under(m, "amp_count"@));
    assert(r@.get("interactive_scanner_count"@) == under(ui_fields(m, *s), "interactive_scanner_count"@));
    assert(before@.get("interactive_scanner_count"@) == under(m, "interactive_scanner_count"@));
    saved_projector_count(before@->Object_0, *s);
    saved_pixera_octo_count(before@->Object_0, *s);
    saved_amp_count(before@->Object_0, *s);
    saved_interactive_scanner_count(before@->Object_0, *s);
}

/// Flags and states of projectors are saved for sixteen projectors, made up with what is usual.
#[verifier::spinoff_prover]
pub proof fn lists_are_saved(
    read: Option<Json>,
    before: Json,
    s: &UiState,
    i: int,
    r: Json,
)
    requires
        call_ensures(load_config, (read,), before),
        call_ensures(ui_state_config, (read, s), r),
    ensures
        s.demo_projector_on is None
            ==> r@.get("demo_projector_on"@) == before@.get("demo_projector_on"@),
        s.demo_projector_on is Some ==> r@.get("demo_projector_on"@) is Some
            && r@.get("demo_projector_on"@)->0 is List
            && (r@.get("demo_projector_on"@)->0->List_0).len() == 16,
        s.demo_projector_on is Some && 0 <= i < 16
            ==> (r@.get("demo_projector_on"@)->0->List_0)[i] == JsonV::Bool(
            i < (s.demo_projector_on->0)@.len() && (s.demo_projector_on->0)@[i],
        ),
        s.demo_projector_mute is None
            ==> r@.get("demo_projector_mute"@) == before@.get("demo_projector_mute"@),
        s.demo_projector_mute is Some ==> r@.get("demo_projector_mute"@) is Some
            && r@.get("demo_projector_mute"@)->0 is List
            && (r@.get("demo_projector_mute"@)->0->List_0).len() == 16,
        s.demo_projector_mute is Some && 0 <= i < 16
            ==> (r@.get("demo_projector_mute"@)->0->List_0)[i] == JsonV::Bool(
            i < (s.demo_projector_mute->0)@.len() && (s.demo_projector_mute->0)@[i],
        ),
        s.projector_control_states is None
            ==> r@.get("projector_control_states"@) == before@.get("projector_control_states"@),
        s.projector_control_states is Some ==> r@.get("projector_control_states"@) is Some
            && r@.get("projector_control_states"@)->0 is List
            && (r@.get("projector_control_states"@)->0->List_0).len() == 16,
        s.projector_control_states is Some && (s.projector_control_states->0)@.len() <= i < 16
            ==> (r@.get("projector_control_states"@)->0->List_0)[i] == JsonV::Text("unknown"@),
        s.projector_control_states is Some && 0 <= i < 16
            && i < (s.projector_control_states->0)@.len()
            && (s.projector_control_states->0)@[i]@ == "online"@
            ==> (r@.get("projector_control_states"@)->0->List_0)[i] == JsonV::Text(
            "online"@,
        ),
        s.projector_control_states is Some && 0 <= i < 16
            && i < (s.projector_control_states->0)@.len()
            && (s.projector_control_states->0)@[i]@ == "offline"@
            ==> (r@.get("projector_control_states"@)->0->List_0)[i] == JsonV::Text(
            "offline"@,
        ),
{
    assert(before@ is Object);
    let m = before@->Object_0;
    assert(r@.get("demo_projector_on"@) == under(ui_fields(m, *s), "demo_projector_on"@));
    assert(before@.get("demo_projector_on"@) == under(m, "demo_projector_on"@));
    assert(r@.get("demo_projector_mute"@) == under(ui_fields(m, *s), "demo_projector_mute"@));
    assert(before@.get("demo_projector_mute"@) == under(m, "demo_projector_mute"@));
    assert(r@.get("projector_control_states"@) == under(ui_fields(m, *s), "projector_control_states"@));
    assert(before@.get("projector_control_states"@) == under(m, "projector_control_states"@));
    saved_demo_projector_on(before@->Object_0, *s);
    saved_demo_projector_mute(before@->Object_0, *s);
    saved_projector_control_states(before@->Object_0, *s);
    if s.projector_control_states is Some && 0 <= i < 16 {
        let list = (s.projector_control_states->0)@;
        let states = projector_states(text::texts(list));
        assert(json::text_list(states)->List_0[i] == JsonV::Text(states[i]));
        if i < list.len() {
            assert(text::texts(list)[i] == list[i]@);
            plain_states_are_kept(list[i]@);
        }
    }
    if s.demo_projector_on is Some && 0 <= i < 16 {
        let list = padded((s.demo_projector_on->0)@, 16);
        assert(json::bool_list(list)->List_0[i] == JsonV::Bool(list[i]));
    }
    if s.demo_projector_mute is Some && 0 <= i < 16 {
        let list = padded((s.demo_projector_mute->0)@, 16);
        assert(json::bool_list(list)->List_0[i] == JsonV::Bool(list[i]));
    }
}

/// The mute states of an amplifier are saved under its number, for four channels, and those of
/// the others stay.
pub proof fn mute_states_are_saved(read: Option<Json>, before: Json, s: &UiState, i: int, r: Json)
    requires
        0 <= i < 4,
        call_ensures(load_config, (read,), before),
        call_ensures(ui_state_config, (read, s), r),
        before@.get("demo_amp_mutes"@) is Some,
        before@.get("demo_amp_mutes"@)->0 is Object,
    ensures
        s.demo_amp1_mutes is Some
            ==> (r@.get2("demo_amp_mutes"@, "1"@)->0->List_0)[i] == JsonV::Bool(
            i < (s.demo_amp1_mutes->0)@.len() && (s.demo_amp1_mutes->0)@[i],
        ),
        s.demo_amp2_mutes is Some
            ==> (r@.get2("demo_amp_mutes"@, "2"@)->0->List_0)[i] == JsonV::Bool(
            i < (s.demo_amp2_mutes->0)@.len() && (s.demo_amp2_mutes->0)@[i],
        ),
        s.demo_amp3_mutes is Some
            ==> (r@.get2("demo_amp_mutes"@, "3"@)->0->List_0)[i] == JsonV::Bool(
            i < (s.demo_amp3_mutes->0)@.len() && (s.demo_amp3_mutes->0)@[i],
        ),
        s.demo_amp1_mutes is None ==> r@.get2("demo_amp_mutes"@, "1"@) == before@.get2(
            "demo_amp_mutes"@,
            "1"@,
        ),
        s.demo_amp2_mutes is None ==> r@.get2("demo_amp_mutes"@, "2"@) == before@.get2(
            "demo_amp_mutes"@,
            "2"@,
        ),
        s.demo_amp3_mutes is None ==> r@.get2("demo_amp_mutes"@, "3"@) == before@.get2(
            "demo_amp_mutes"@,
            "3"@,
        ),
{
    let m = before@->Object_0;
    saved_demo_amp_mutes(m, *s);
    assert(r@.get("demo_amp_mutes"@) == under(ui_fields(m, *s), "demo_amp_mutes"@));
    reveal_strlit("1");
    reveal_strlit("2");
    reveal_strlit("3");
    assert("1"@[0] == '1' && "2"@[0] == '2' && "3"@[0] == '3');
    if s.demo_amp1_mutes is Some {
        let list = padded((s.demo_amp1_mutes->0)@, 4);
        assert(json::bool_list(list)->List_0[i] == JsonV::Bool(list[i]));
    }
    if s.demo_amp2_mutes is Some {
        let list = padded((s.demo_amp2_mutes->0)@, 4);
        assert(json::bool_list(list)->List_0[i] == JsonV::Bool(list[i]));
    }
    if s.demo_amp3_mutes is Some {
        let list = padded((s.demo_amp3_mutes->0)@, 4);
        assert(json::bool_list(list)->List_0[i] == JsonV::Bool(list[i]));
    }
}

/// Flags are cut or made up with false.
pub proof fn flags_are_cut_or_made_up(list: &Vec<bool>, n: usize, i: int, r: Vec<bool>)
    requires
        call_ensures(pad_flags, (list, n), r),
    ensures
        r@.len() == n,
        0 <= i < n && i < list@.len() ==> r@[i] == list@[i],
        list@.len() <= i < n ==> !r@[i],
{
}

/// The name of the site and its remote address are saved without the white space around them.
pub proof fn the_site_is_saved(
    read: Option<Json>,
    location_name: &str,
    anydesk_address: &str,
    r: Json,
)
    requires
        call_ensures(site_metadata_config, (read, location_name, anydesk_address), r),
    ensures
        r@.get("location_name"@) == Some(JsonV::Text(text::trimmed(location_name@))),
        r@.get("anydesk_address"@) == Some(JsonV::Text(text::trimmed(anydesk_address@))),
{
    reveal_strlit("location_name");
    reveal_strlit("anydesk_address");
    assert("location_name"@.len() != "anydesk_address"@.len());
}

/// The access data of the hub are saved without the white space around them, each under its
/// name; an address must be an HTTPS address or none, and identifiers hold up to 120 bytes.
pub proof fn the_hub_is_saved(
    read: Option<Json>,
    api_url: &str,
    api_token: &str,
    project_id: &str,
    device_id: &str,
    rest: Seq<char>,
    r: Result<Json, String>,
)
    requires
        call_ensures(hub_config, (read, api_url, api_token, project_id, device_id), r),
    ensures
        r is Ok ==> (r->Ok_0)@.get("hub_api_url"@) == Some(JsonV::Text(text::trimmed(api_url@))),
        r is Ok
            ==> (r->Ok_0)@.get("hub_api_token"@) == Some(JsonV::Text(text::trimmed(api_token@))),
        r is Ok ==> (r->Ok_0)@.get("hub_project_id"@) == Some(
            JsonV::Text(text::trimmed(project_id@)),
        ),
        r is Ok
            ==> (r->Ok_0)@.get("hub_device_id"@) == Some(JsonV::Text(text::trimmed(device_id@))),
        encode_utf8(text::trimmed(project_id@)).len() > 120 ==> r is Err,
        encode_utf8(text::trimmed(device_id@)).len() > 120 ==> r is Err,
        text::trimmed(api_url@) == "http://"@ + rest ==> r is Err,
        (text::trimmed(api_url@) == "https://"@ + rest || text::trimmed(api_url@).len() == 0)
            && encode_utf8(text::trimmed(project_id@)).len() <= 120 && encode_utf8(
            text::trimmed(device_id@),
        ).len() <= 120 ==> r is Ok,
{
    reveal_strlit("hub_api_url");
    reveal_strlit("hub_api_token");
    reveal_strlit("hub_project_id");
    reveal_strlit("hub_device_id");
    assert("hub_api_url"@.len() == 11 && "hub_project_id"@.len() == 14);
    assert("hub_api_token"@.len() == 13 && "hub_api_token"@[4] == 'a');
    assert("hub_device_id"@.len() == 13 && "hub_device_id"@[4] == 'd');
    reveal_strlit("https://");
    reveal_strlit("http://");
    let url = text::trimmed(api_url@);
    if url == "http://"@ + rest {
        assert(url[4] == ':' && "https://"@[4] == 's');
        text::found_parts_are_there(url, "https://"@, 4);
    }
    if url == "https://"@ + rest {
        assert(url.take(8) =~= "https://"@);
    }
}

/// The settings of the alerts are saved in their section, each under its name; a channel and
/// events that are not given stay as they are.
pub proof fn the_alerts_are_saved(read: Option<Json>, before: Json, s: &TelegramSettings, r: Json)
    requires
        call_ensures(load_config, (read,), before),
        call_ensures(telegram_config, (read, s), r),
        before@.get("telegram"@) is Some,
        before@.get("telegram"@)->0 is Object,
    ensures
        r@.get2("telegram"@, "enabled"@) == Some(JsonV::Bool(s.enabled)),
        r@.get2("telegram"@, "bot_token"@) == Some(JsonV::Text(text::trimmed(s.bot_token@))),
        r@.get2("telegram"@, "chat_id"@) == Some(JsonV::Text(text::trimmed(s.chat_id@))),
        s.channel_id is Some ==> r@.get2("telegram"@, "channel_id"@) == Some(
            JsonV::Text(text::trimmed((s.channel_id->0)@)),
        ),
        s.channel_id is None ==> r@.get2("telegram"@, "channel_id"@) == before@.get2(
            "telegram"@,
            "channel_id"@,
        ),
        s.alert_events is Some ==> r@.get2("telegram"@, "alert_events"@) == Some(
            json::text_list(cleaned_events(text::texts((s.alert_events->0)@))),
        ),
        s.alert_events is None ==> r@.get2("telegram"@, "alert_events"@) == before@.get2(
            "telegram"@,
            "alert_events"@,
        ),
        r@.get2("telegram"@, "critical_error_keywords"@) == before@.get2(
            "telegram"@,
            "critical_error_keywords"@,
        ),
{
    reveal_strlit("enabled");
    reveal_strlit("bot_token");
    reveal_strlit("chat_id");
    reveal_strlit("channel_id");
    reveal_strlit("alert_events");
    reveal_strlit("critical_error_keywords");
    assert("enabled"@.len() == 7 && "enabled"@[0] == 'e');
    assert("chat_id"@.len() == 7 && "chat_id"@[0] == 'c');
    assert("bot_token"@.len() == 9 && "channel_id"@.len() == 10 && "alert_events"@.len() == 12);
    assert("critical_error_keywords"@.len() == 23);
    let t = before@.get("telegram"@)->0->Object_0;
    assert(r@.get("telegram"@) == Some(JsonV::Object(telegram_with(t, *s))));
}

/// Every event that is given and is not blank is stored, in small letters and without the white
/// space around it, and no other is.
pub proof fn given_events_are_stored(list: Seq<Seq<char>>, e: Seq<char>)
    ensures
        cleaned_events(list).contains(e) <==> e.len() > 0 && exists|i: int|
            0 <= i < list.len() && text::lowered(text::trimmed(#[trigger] list[i])) == e,
    decreases list.len(),
{
    if list.len() > 0 {
        let init = list.drop_last();
        given_events_are_stored(init, e);
        let before = cleaned_events(init);
        let v = text::lowered(text::trimmed(list.last()));
        let last = list.len() - 1;
        assert(list[last] == list.last());
        given_events_are_stored(init, v);
        let all = cleaned_events(list);
        if e == v && v.len() > 0 {
            if !before.contains(v) {
                assert(all[before.len() as int] == v);
            }
            assert(all.contains(e));
            assert(text::lowered(text::trimmed(list[last])) == e);
        }
        if before.contains(e) {
            let k = choose|k: int| 0 <= k < before.len() && before[k] == e;
            assert(all[k] == e);
            let i = choose|i: int|
                0 <= i < init.len() && text::lowered(text::trimmed(#[trigger] init[i])) == e;
            assert(list[i] == init[i]);
        }
        if all.contains(e) && !before.contains(e) {
            let k = choose|k: int| 0 <= k < all.len() && all[k] == e;
            if k < before.len() {
                assert(before[k] == e);
            }
            assert(e == v);
        }
        if e.len() > 0 && (exists|i: int|
            0 <= i < list.len() && text::lowered(text::trimmed(#[trigger] list[i])) == e) {
            let i = choose|i: int|
                0 <= i < list.len() && text::lowered(text::trimmed(#[trigger] list[i])) == e;
            if i < last {
                assert(init[i] == list[i]);
            }
        }
    }
}

/// The offline mode reads back as it was set.
pub proof fn the_offline_mode_reads_back(cfg: Json, enabled: bool, changed: &Json, r: bool)
    requires
        cfg@ is Object,
        call_ensures(with_offline_mode, (cfg, enabled), *changed),
        call_ensures(offline_mode_enabled, (changed,), r),
    ensures
        r == enabled,
{
}

/// Requests go to the hub over HTTPS and with a token only, and both go without the white space
/// around them.
pub proof fn hub_requests_are_safe(
    url: &str,
    api_token: &str,
    rest: Seq<char>,
    r: Result<(String, String), String>,
)
    requires
        call_ensures(hub_request, (url, api_token), r),
    ensures
        r is Ok ==> text::begins((r->Ok_0).0@, "https://"@) && (r->Ok_0).0@ == text::trimmed(url@),
        r is Ok ==> (r->Ok_0).1@ == text::trimmed(api_token@) && !text::is_blank(api_token@),
        text::trimmed(url@) == "https://"@ + rest && !text::is_blank(api_token@) ==> r is Ok,
        text::trimmed(url@) == "http://"@ + rest ==> r is Err,
{
    reveal_strlit("https://");
    reveal_strlit("http://");
    let u = text::trimmed(url@);
    if u == "http://"@ + rest {
        assert(u[4] == ':' && "https://"@[4] == 's');
        text::found_parts_are_there(u, "https://"@, 4);
    }
    if u == "https://"@ + rest {
        assert(u.take(8) =~= "https://"@);
    }
}

/// A reply of the hub is handed on where it succeeded, and is an error with its status where it
/// did not; a reply that is no JSON is kept as a text.
pub proof fn hub_replies_are_told_apart(
    status: &str,
    value: Json,
    shown: &str,
    good: Result<Json, String>,
    bad: Result<Json, String>,
    error: String,
    body: &str,
    raw: Json,
)
    requires
        call_ensures(hub_outcome, (true, status, value, shown), good),
        call_ensures(hub_outcome, (false, status, value, shown), bad),
        call_ensures(body_or_raw, (Err::<Json, String>(error), body), raw),
    ensures
        good is Ok && (good->Ok_0)@ == value@,
        bad is Err && text::ends((bad->Err_0)@, status@ + ": "@ + shown@),
        raw@.get("raw"@) == Some(JsonV::Text(body@)),
{
    let e = (bad->Err_0)@;
    let tail = status@ + ": "@ + shown@;
    assert(e.skip(e.len() - tail.len()) =~= tail);
}

/// The emergency button is pressed at the given address, and at the usual one where none is
/// given.
pub proof fn the_emergency_button_has_an_address(url: &str, r: String)
    requires
        call_ensures(companion_target, (url,), r),
    ensures
        !text::is_blank(url@) ==> r@ == url@,
        text::is_blank(url@) ==> text::begins(r@, "http://192.168.1.42:8000/"@)
            && text::ends(r@, "/press"@),
{
    reveal_strlit("http://192.168.1.42:8000/api/location/1/2/0/press");
    reveal_strlit("http://192.168.1.42:8000/");
    reveal_strlit("/press");
    let usual = "http://192.168.1.42:8000/api/location/1/2/0/press"@;
    assert(usual.take(25) =~= "http://192.168.1.42:8000/"@);
    assert(usual.skip(usual.len() - 6) =~= "/press"@);
}

/// Only a file of that name in a directory of that name is the one of the source tree.
pub proof fn the_source_tree_is_known(
    file: String,
    parent: String,
    r: bool,
    f: &Option<String>,
    p: &Option<String>,
)
    requires
        call_ensures(is_src_tauri_config_path, (f, p), r),
    ensures
        *f is None || *p is None ==> !r,
        *f == Some(file) && *p == Some(parent) ==> (r <==> text::alike(file@, "config.json"@)
            && text::alike(
            parent@,
            "src-tauri"@,
        )),
{
}

/// A stored setting is read as it was stored.
pub proof fn stored_settings_are_read(stored: Json, r: Json, key: Seq<char>, value: JsonV)
    requires
        call_ensures(load_config, (Some(stored),), r),
        stored@.get(key) == Some(value),
        !(key == "telegram"@ && value is Object),
    ensures
        r@.get(key) == Some(value),
{
    completing_keeps(stored@->Object_0, key);
}

/// Nothing but an object is taken for stored settings.
pub proof fn other_values_are_no_settings(stored: Json, r: Json, fresh: Json)
    requires
        !(stored@ is Object),
        call_ensures(load_config, (Some(stored),), r),
        call_ensures(default_config_json, (), fresh),
    ensures
        r@ == fresh@,
{
}

/// Fresh settings name the devices of the usual network and the ports that they listen at.
pub proof fn fresh_settings_are_usual(r: Json)
    requires
        call_ensures(default_config_json, (), r),
    ensures
        r@.get("demo_mode"@) == Some(JsonV::Bool(false)),
        r@.get("startup_mode"@) == Some(JsonV::Text("admin"@)),
        r@.get("language"@) == Some(JsonV::Text("de"@)),
        r@.get("camera_view_mode"@) == Some(JsonV::Text("snapshot"@)),
        r@.get("projector_status_updated_at"@) == Some(JsonV::Unsigned(0)),
        r@.get("pixera_ip"@) == Some(JsonV::Text("192.168.1.31"@)),
        r@.get("pixera_port"@) == Some(JsonV::Unsigned(1338)),
        r@.get("pixera_octo1_ip"@) == Some(JsonV::Text("192.168.1.32"@)),
        r@.get("pixera_octo2_ip"@) == Some(JsonV::Text("192.168.1.33"@)),
        r@.get("pixera_octo_port"@) == Some(JsonV::Unsigned(4000)),
        r@.get("pixera_octo_count"@) == Some(JsonV::Unsigned(2)),
        r@.get("pixera_api_root"@) == Some(JsonV::Text(""@)),
        r@.get("pixera_pjlink_module"@) == Some(JsonV::Text("PJ_Link__16ch"@)),
        r@.get("pixera_scheduler_module"@) == Some(JsonV::Text("Projektil_EventScheduler_V2_7"@)),
        r@.get("d40_01_ip"@) == Some(JsonV::Text("192.168.1.51"@)),
        r@.get("d40_02_ip"@) == Some(JsonV::Text("192.168.1.52"@)),
        r@.get("d40_03_ip"@) == Some(JsonV::Text("192.168.1.53"@)),
        r@.get("amp_count"@) == Some(JsonV::Unsigned(2)),
        r@.get("d40_oca_port"@) == Some(JsonV::Unsigned(30013)),
        r@.get("nas_ip"@) == Some(JsonV::Text("192.168.1.21"@)),
        r@.get("nas_port"@) == Some(JsonV::Unsigned(5000)),
        r@.get("nas_snmp_port"@) == Some(JsonV::Unsigned(161)),
        r@.get("nas_snmp_community"@) == Some(JsonV::Text("projektil"@)),
        r@.get("poe_switch_ip"@) == Some(JsonV::Text("192.168.1.11"@)),
        r@.get("poe_switch_name"@) == Some(JsonV::Text(""@)),
        r@.get("poe_switch_ping_port"@) == Some(JsonV::Unsigned(443)),
        r@.get("poe_switch_snmp_port"@) == Some(JsonV::Unsigned(161)),
        r@.get("poe_switch_snmp_community"@) == Some(JsonV::Text("projektil"@)),
        r@.get("rutx50_ip"@) == Some(JsonV::Text("192.168.1.1"@)),
        r@.get("rutx50_ping_port"@) == Some(JsonV::Unsigned(443)),
        r@.get("rutx50_snmp_port"@) == Some(JsonV::Unsigned(161)),
        r@.get("rutx50_snmp_community"@) == Some(JsonV::Text("public"@)),
        r@.get("ups_ip"@) == Some(JsonV::Text("192.168.1.6"@)),
        r@.get("power_disp_ip"@) == Some(JsonV::Text("192.168.1.5"@)),
        r@.get("cam_01_ip"@) == Some(JsonV::Text("192.168.1.22"@)),
        r@.get("cam_02_ip"@) == Some(JsonV::Text("192.168.1.23"@)),
        r@.get("projector_start"@) == Some(JsonV::Unsigned(101)),
        r@.get("projector_count"@) == Some(JsonV::Unsigned(16)),
        r@.get("interactive_enabled"@) == Some(JsonV::Bool(false)),
        r@.get("interactive_scanner_count"@) == Some(JsonV::Unsigned(2)),
        r@.get("emergency_switch_enabled"@) == Some(JsonV::Bool(false)),
        r@.get("hotline"@) == Some(JsonV::Text("+41 44 492 51 69"@)),
        r@.get("location_name"@) == Some(JsonV::Text(""@)),
        r@.get("anydesk_address"@) == Some(JsonV::Text(""@)),
        r@.get("hub_api_url"@) == Some(JsonV::Text(""@)),
        r@.get("hub_api_token"@) == Some(JsonV::Text(""@)),
        r@.get("hub_project_id"@) == Some(JsonV::Text(""@)),
        r@.get("hub_device_id"@) == Some(JsonV::Text(""@)),
{
    defaults_are_found(0);
    defaults_are_found(1);
    defaults_are_found(2);
    defaults_are_found(3);
    defaults_are_found(8);
    defaults_are_found(9);
    defaults_are_found(10);
    defaults_are_found(11);
    defaults_are_found(12);
    defaults_are_found(13);
    defaults_are_found(14);
    defaults_are_found(15);
    defaults_are_found(16);
    defaults_are_found(17);
    defaults_are_found(18);
    defaults_are_found(19);
    defaults_are_found(20);
    defaults_are_found(21);
    defaults_are_found(22);
    defaults_are_found(23);
    defaults_are_found(24);
    defaults_are_found(25);
    defaults_are_found(26);
    defaults_are_found(27);
    defaults_are_found(28);
    defaults_are_found(29);
    defaults_are_found(30);
    defaults_are_found(31);
    defaults_are_found(32);
    defaults_are_found(33);
    defaults_are_found(34);
    defaults_are_found(35);
    defaults_are_found(36);
    defaults_are_found(37);
    defaults_are_found(38);
    defaults_are_found(39);
    defaults_are_found(40);
    defaults_are_found(41);
    defaults_are_found(42);
    defaults_are_found(43);
    defaults_are_found(44);
    defaults_are_found(45);
    defaults_are_found(46);
    defaults_are_found(47);
    defaults_are_found(48);
    defaults_are_found(49);
    defaults_are_found(50);
    defaults_are_found(51);
}

} // verus!

//! Small duties around the machine and the power meter: what a failed ping means, the battery
//! of the machine, and Modbus registers.

use vstd::prelude::*;
use vstd::string::*;

use crate::alerts;
use crate::json;
use crate::json::{Json, JsonV};
use crate::numerals;
use crate::text;

verus! {

// ---------------------------------------------------------------------------
// Ping
// ---------------------------------------------------------------------------

/// What a failed connection means, by the text of its error in lower case.
pub open spec fn ping_verdict(error: Seq<char>) -> Seq<char> {
    if alerts::has_any(error, seq!["10061"@, "connection refused"@, "verweigerte"@]) {
        "REFUSED"@
    } else if alerts::has_any(error, seq!["timed out"@, "timeout"@]) {
        "TIMEOUT"@
    } else if alerts::has_any(error, seq!["host"@, "network"@, "unreachable"@, "erreichbar"@]) {
        "UNREACHABLE"@
    } else {
        "REFUSED"@
    }
}

/// Tells what a failed connection means, by the text of its error in lower case.
pub fn judge_ping_error(error: &str) -> (r: &'static str)
    ensures
        r@ == ping_verdict(error@),
{
    let refused = vec!["10061", "connection refused", "verweigerte"];
    let late = vec!["timed out", "timeout"];
    let away = vec!["host", "network", "unreachable", "erreichbar"];
    proof {
        assert(alerts::slices(refused@) =~= seq!["10061"@, "connection refused"@, "verweigerte"@]);
        assert(alerts::slices(late@) =~= seq!["timed out"@, "timeout"@]);
        assert(alerts::slices(away@) =~= seq!["host"@, "network"@, "unreachable"@, "erreichbar"@]);
    }
    if alerts::contains_any(error, &refused) {
        "REFUSED"
    } else if alerts::contains_any(error, &late) {
        "TIMEOUT"
    } else if alerts::contains_any(error, &away) {
        "UNREACHABLE"
    } else {
        "REFUSED"
    }
}

/// A failed connection was refused, took too long, or did not reach the device.
pub proof fn failed_pings_have_one_of_three_reasons(error: Seq<char>)
    ensures
        ping_verdict(error) == "REFUSED"@ || ping_verdict(error) == "TIMEOUT"@ || ping_verdict(
            error,
        ) == "UNREACHABLE"@,
{
}

/// Tells what a failed connection means, by the text of its error.
pub fn ping_error(error: &str) -> (r: &'static str)
    ensures
        r@ == ping_verdict(text::unicode_lowercase(error@)),
        text::is_ascii_text(error@) ==> r@ == ping_verdict(text::lowered(error@)),
{
    judge_ping_error(text::to_lowercase(error).as_str())
}

// ---------------------------------------------------------------------------
// Battery of the machine
// ---------------------------------------------------------------------------

pub open spec fn no_battery() -> JsonV {
    JsonV::Object(Map::<Seq<char>, JsonV>::empty().insert("available"@, JsonV::Bool(false)))
}

/// The battery that a description names: the description itself, or the first of a list.
pub open spec fn first_battery(v: JsonV) -> JsonV {
    match v {
        JsonV::List(l) => if l.len() > 0 {
            l[0]
        } else {
            JsonV::Null
        },
        other => other,
    }
}

pub open spec fn integer_or(v: JsonV, key: Seq<char>, usual: i64) -> i64 {
    match json::integer_at(v, key) {
        Some(n) => n,
        None => usual,
    }
}

/// The state of the battery out of its description.
pub open spec fn battery_state(v: JsonV) -> JsonV {
    let b = first_battery(v);
    if b == JsonV::Null {
        no_battery()
    } else {
        JsonV::Object(
            Map::<Seq<char>, JsonV>::empty().insert("available"@, JsonV::Bool(true)).insert(
                "percent"@,
                json::integer(integer_or(b, "EstimatedChargeRemaining"@, -1i64)),
            ).insert("status"@, json::integer(integer_or(b, "BatteryStatus"@, -1i64))),
        )
    }
}

fn no_battery_object() -> (r: Json)
    ensures
        r@ == no_battery(),
{
    let mut m = json::empty_object();
    json::put(&mut m, "available", Json::Bool(false));
    Json::Object(m)
}

fn battery_object(b: &Json) -> (r: Json)
    ensures
        r@ == if b@ == JsonV::Null {
            no_battery()
        } else {
            JsonV::Object(
                Map::<Seq<char>, JsonV>::empty().insert("available"@, JsonV::Bool(true)).insert(
                    "percent"@,
                    json::integer(integer_or(b@, "EstimatedChargeRemaining"@, -1i64)),
                ).insert("status"@, json::integer(integer_or(b@, "BatteryStatus"@, -1i64))),
            )
        },
{
    if b.is_null() {
        return no_battery_object();
    }
    let percent: i64 = match b.integer_field("EstimatedChargeRemaining") {
        Some(n) => n,
        None => -1,
    };
    let status: i64 = match b.integer_field("BatteryStatus") {
        Some(n) => n,
        None => -1,
    };
    let mut m = json::empty_object();
    json::put(&mut m, "available", Json::Bool(true));
    json::put(&mut m, "percent", json::number(percent));
    json::put(&mut m, "status", json::number(status));
    Json::Object(m)
}

/// The state of the battery, given what came of reading its description.
pub fn battery_from(parsed: Result<Json, String>) -> (r: Result<Json, String>)
    ensures
        json::view_result(r) == match json::view_result(parsed) {
            Ok(v) => Ok(battery_state(v)),
            Err(e) => Err(e),
        },
{
    match parsed {
        Ok(v) => match v.as_array() {
            Some(list) => {
                proof {
                    json::list_view_index(list@);
                }
                if list.len() > 0 {
                    Ok(battery_object(&list[0]))
                } else {
                    Ok(no_battery_object())
                }
            },
            None => Ok(battery_object(&v)),
        },
        Err(e) => Err(e),
    }
}

/// The state of the battery out of what the query for it printed.
pub open spec fn battery_outcome(printed: Seq<char>) -> Result<JsonV, Seq<char>> {
    let s = text::trimmed(printed);
    if s.len() == 0 || s == "null"@ {
        Ok(no_battery())
    } else {
        match json::json_of_text(s) {
            Ok(v) => Ok(battery_state(v)),
            Err(e) => Err(e),
        }
    }
}

/// The state of the battery. `success` tells whether the query for it succeeded, and `printed`
/// is what it printed.
pub fn battery_status(success: bool, printed: &Vec<u8>) -> (r: Result<Json, String>)
    ensures
        json::view_result(r) == if success {
            battery_outcome(numerals::utf8_lossy(printed@))
        } else {
            Err("Battery query failed"@)
        },
{
    if !success {
        return Err("Battery query failed".to_owned());
    }
    let s = text::trim(numerals::lossy_text(printed).as_str());
    if s.as_str().is_empty() || text::same(s.as_str(), "null") {
        return Ok(no_battery_object());
    }
    battery_from(json::parse_json(s.as_str()))
}

/// The state of the battery on a machine that cannot be asked for it.
pub fn battery_unsupported() -> (r: Json)
    ensures
        r@ == JsonV::Object(
            Map::<Seq<char>, JsonV>::empty().insert("available"@, JsonV::Bool(false)).insert(
                "reason"@,
                JsonV::Text("unsupported-platform"@),
            ),
        ),
{
    let mut m = json::empty_object();
    json::put(&mut m, "available", Json::Bool(false));
    json::put(&mut m, "reason", json::text("unsupported-platform"));
    Json::Object(m)
}

// ---------------------------------------------------------------------------
// Modbus
// ---------------------------------------------------------------------------

/// The first register of the block that is read, and how many there are.
pub const METER_START: u16 = 19000;

pub const METER_COUNT: u16 = 52;

/// The request for registers of unit 1.
pub open spec fn modbus_bytes(start: u16, count: u16) -> Seq<u8> {
    seq![
        0x00u8,
        0x01,
        0x00,
        0x00,
        0x00,
        0x06,
        0x01,
        0x03,
        (start / 256) as u8,
        (start % 256) as u8,
        (count / 256) as u8,
        (count % 256) as u8,
    ]
}

pub fn modbus_request(start: u16, count: u16) -> (r: Vec<u8>)
    ensures
        r@ == modbus_bytes(start, count),
{
    vec![
        0x00,
        0x01,
        0x00,
        0x00,
        0x00,
        0x06,
        0x01,
        0x03,
        (start / 256) as u8,
        (start % 256) as u8,
        (count / 256) as u8,
        (count % 256) as u8,
    ]
}

/// How long the response to a request for registers is.
pub fn modbus_response_len(count: u16) -> (r: usize)
    ensures
        r == 9 + 2 * count,
{
    9 + count as usize * 2
}

/// The registers in a response.
pub fn modbus_registers(response: &Vec<u8>) -> (r: Vec<u8>)
    requires
        response@.len() >= 9,
    ensures
        r@ == response@.skip(9),
{
    let n = response.len();
    proof {
        assert(response@.subrange(9, n as int) =~= response@.skip(9));
    }
    numerals::bytes_between(response, 9, n)
}

/// The 32 bits of two registers, and zero where the data end before.
pub open spec fn register_bits(data: Seq<u8>, offset: int) -> nat {
    if offset + 4 > data.len() {
        0
    } else {
        crate::snmp::big_endian(data.subrange(offset, offset + 4))
    }
}

/// The bit pattern of the number in two registers.
pub fn register_pattern(data: &Vec<u8>, offset: usize) -> (r: u32)
    ensures
        r == register_bits(data@, offset as int),
{
    let n = data.len();
    if n < 4 || offset > n - 4 {
        return 0;
    }
    let a = data[offset];
    let b = data[offset + 1];
    let c = data[offset + 2];
    let d = data[offset + 3];
    proof {
        reveal_with_fuel(crate::snmp::big_endian, 5);
        let four = data@.subrange(offset as int, offset + 4);
        assert(four =~= seq![a, b, c, d]);
        assert(four.drop_last() =~= seq![a, b, c]);
        assert(four.drop_last().drop_last() =~= seq![a, b]);
        assert(four.drop_last().drop_last().drop_last() =~= seq![a]);
        assert(four.drop_last().drop_last().drop_last().drop_last() =~= Seq::<u8>::empty());
    }
    ((a as u32 * 256 + b as u32) * 256 + c as u32) * 256 + d as u32
}

/// Where the values of the meter stand in the block, in bytes.
pub open spec fn meter_offset(i: usize) -> usize {
    match i {
        0 => 0,
        1 => 4,
        2 => 8,
        3 => 24,
        4 => 28,
        5 => 32,
        6 => 52,
        _ => 100,
    }
}

/// Where a value of the meter stands in the block: three voltages, three currents, the power
/// in watts, the frequency.
pub fn meter_value_offset(i: usize) -> (r: usize)
    ensures
        r == meter_offset(i),
{
    match i {
        0 => 0,
        1 => 4,
        2 => 8,
        3 => 24,
        4 => 28,
        5 => 32,
        6 => 52,
        _ => 100,
    }
}

/// The name under which a value of the meter is reported.
pub open spec fn meter_name(i: usize) -> Seq<char> {
    match i {
        0 => "v_l1"@,
        1 => "v_l2"@,
        2 => "v_l3"@,
        3 => "i_l1"@,
        4 => "i_l2"@,
        5 => "i_l3"@,
        6 => "power_kw"@,
        _ => "frequency"@,
    }
}

fn meter_key(i: usize) -> (r: &'static str)
    ensures
        r@ == meter_name(i),
{
    match i {
        0 => "v_l1",
        1 => "v_l2",
        2 => "v_l3",
        3 => "i_l1",
        4 => "i_l2",
        5 => "i_l3",
        6 => "power_kw",
        _ => "frequency",
    }
}

/// The first `n` values of the meter as fields.
pub open spec fn meter_fields(values: Seq<JsonV>, n: nat) -> Map<Seq<char>, JsonV>
    decreases n,
{
    if n == 0 {
        Map::empty()
    } else {
        meter_fields(values, (n - 1) as nat).insert(meter_name((n - 1) as usize), values[n - 1])
    }
}

/// The report on the meter: its eight values, in the order of their offsets, and the warnings.
pub fn meter_report(values: &Vec<Json>, warnings: &Vec<String>) -> (r: Json)
    requires
        values@.len() == 8,
    ensures
        r@ == JsonV::Object(
            meter_fields(json::list_view(values@), 8).insert(
                "warnings"@,
                json::text_list(text::texts(warnings@)),
            ),
        ),
{
    proof {
        json::list_view_index(values@);
    }
    let mut m = json::empty_object();
    let mut i: usize = 0;
    while i < 8
        invariant
            i <= 8,
            values@.len() == 8,
            json::list_view(values@).len() == 8,
            forall|j: int| 0 <= j < 8 ==> #[trigger] json::list_view(values@)[j] == values@[j]@,
            json::fields(m) == meter_fields(json::list_view(values@), i as nat),
        decreases 8 - i,
    {
        proof {
            assert(json::list_view(values@)[i as int] == values@[i as int]@);
        }
        json::put(&mut m, meter_key(i), values[i].duplicate());
        i += 1;
    }
    json::put(&mut m, "warnings", json::texts_to_json(warnings));
    Json::Object(m)
}

// ---------------------------------------------------------------------------
// What is told
// ---------------------------------------------------------------------------

/// A refusal, a time-out and a network that cannot be reached are told apart by their words, in
/// this order; without any of them the connection counts as refused.
pub proof fn failed_pings_are_told_apart(error: &str, r: &'static str)
    requires
        call_ensures(judge_ping_error, (error,), r),
    ensures
        ({
            let e = error@;
            let refused = text::has(e, "10061"@) || text::has(e, "connection refused"@)
                || text::has(
                e,
                "verweigerte"@,
            );
            let late = text::has(e, "timed out"@) || text::has(e, "timeout"@);
            let away = text::has(e, "host"@) || text::has(e, "network"@) || text::has(
                e,
                "unreachable"@,
            ) || text::has(e, "erreichbar"@);
            &&& refused ==> r@ == "REFUSED"@
            &&& !refused && late <==> r@ == "TIMEOUT"@
            &&& !refused && !late && away <==> r@ == "UNREACHABLE"@
            &&& !late && !away ==> r@ == "REFUSED"@
        }),
{
    reveal_strlit("REFUSED");
    reveal_strlit("TIMEOUT");
    reveal_strlit("UNREACHABLE");
    assert("REFUSED"@.len() == 7 && "TIMEOUT"@.len() == 7 && "UNREACHABLE"@.len() == 11);
    assert("REFUSED"@[0] == 'R' && "TIMEOUT"@[0] == 'T');
    let a = seq!["10061"@, "connection refused"@, "verweigerte"@];
    assert(a[0] == "10061"@ && a[1] == "connection refused"@ && a[2] == "verweigerte"@);
    let b = seq!["timed out"@, "timeout"@];
    assert(b[0] == "timed out"@ && b[1] == "timeout"@);
    let c = seq!["host"@, "network"@, "unreachable"@, "erreichbar"@];
    assert(c[0] == "host"@ && c[1] == "network"@ && c[2] == "unreachable"@
        && c[3] == "erreichbar"@);
}

/// The charge and the state of the first battery are reported as they are described, and as -1
/// where they are not; without a battery none is available.
pub proof fn the_battery_is_reported(
    parsed: Result<Json, String>,
    b: JsonV,
    n: i64,
    r: Result<Json, String>,
)
    requires
        call_ensures(battery_from, (parsed,), r),
    ensures
        parsed is Err ==> r is Err,
        parsed matches Ok(v) ==> v@ is Null || v@ == JsonV::List(Seq::empty()) ==> r is Ok && (
        r->Ok_0)@.get("available"@) == Some(JsonV::Bool(false)),
        parsed matches Ok(v) ==> v@ is Object && v@ == b || v@ == JsonV::List(seq![b])
            && b is Object
            ==> r is Ok && (r->Ok_0)@.get("available"@) == Some(JsonV::Bool(true))
                && (json::integer_at(
            b,
            "EstimatedChargeRemaining"@,
        ) == Some(n) ==> json::integer_at((r->Ok_0)@, "percent"@) == Some(n)) && (json::integer_at(
            b,
            "BatteryStatus"@,
        ) == Some(n) ==> json::integer_at((r->Ok_0)@, "status"@) == Some(n)) && (json::integer_at(
            b,
            "EstimatedChargeRemaining"@,
        ) is None ==> json::integer_at((r->Ok_0)@, "percent"@) == Some(-1i64)),
{
    reveal_strlit("available");
    reveal_strlit("percent");
    reveal_strlit("status");
    assert("available"@.len() == 9 && "percent"@.len() == 7 && "status"@.len() == 6);
}

/// A query that failed is an error, whatever it printed.
pub proof fn failed_battery_queries_are_errors(printed: &Vec<u8>, r: Result<Json, String>)
    requires
        call_ensures(battery_status, (false, printed), r),
    ensures
        r is Err,
{
}

/// A request for registers reads back: it says how long the rest of it is, which unit and
/// function are meant, and where the block begins and how long it is.
pub proof fn meter_requests_read_back(start: u16, count: u16, r: Vec<u8>, n: usize)
    requires
        call_ensures(modbus_request, (start, count), r),
        call_ensures(modbus_response_len, (count,), n),
    ensures
        r@.len() == 12,
        r@[4] * 256 + r@[5] == r@.len() - 6,
        r@[2] == 0 && r@[3] == 0,
        r@[6] == 1,
        r@[7] == 3,
        r@[8] * 256 + r@[9] == start,
        r@[10] * 256 + r@[11] == count,
        n == 9 + 2 * (r@[10] * 256 + r@[11]),
{
}

/// The registers follow the nine bytes of the head, and a number in two of them is read most
/// significant byte first, zero where the data end before.
pub proof fn registers_are_read(response: &Vec<u8>, data: Vec<u8>, offset: usize, r: u32)
    requires
        response@.len() >= 9,
        call_ensures(modbus_registers, (response,), data),
        call_ensures(register_pattern, (&data, offset), r),
    ensures
        offset + 13 <= response@.len()
            ==> r == response@[offset + 9] * 0x100_0000 + response@[offset
            + 10] * 0x1_0000 + response@[offset + 11] * 0x100 + response@[offset + 12],
        offset + 13 > response@.len() ==> r == 0,
{
    if offset + 13 <= response@.len() {
        reveal_with_fuel(crate::snmp::big_endian, 5);
        let o = offset as int;
        let four = data@.subrange(o, o + 4);
        let a = response@[o + 9];
        let b = response@[o + 10];
        let c = response@[o + 11];
        let d = response@[o + 12];
        assert(four =~= seq![a, b, c, d]);
        assert(four.drop_last() =~= seq![a, b, c]);
        assert(four.drop_last().drop_last() =~= seq![a, b]);
        assert(four.drop_last().drop_last().drop_last() =~= seq![a]);
        assert(four.drop_last().drop_last().drop_last().drop_last() =~= Seq::<u8>::empty());
    }
}

/// The eight values of the meter lie in the block that is read, no two in the same registers.
pub proof fn meter_values_lie_in_the_block(i: usize, j: usize, a: usize, b: usize)
    requires
        i < j < 8,
        call_ensures(meter_value_offset, (i,), a),
        call_ensures(meter_value_offset, (j,), b),
    ensures
        a + 4 <= b,
        b + 4 <= 2 * METER_COUNT,
        a % 4 == 0,
{
}

/// Each value of the meter is reported under its name: three voltages, three currents, the
/// power, the frequency.
pub proof fn meter_values_have_their_names(values: &Vec<Json>, warnings: &Vec<String>, r: Json)
    requires
        values@.len() == 8,
        call_ensures(meter_report, (values, warnings), r),
    ensures
        r@.get("v_l1"@) == Some(values@[0]@),
        r@.get("v_l2"@) == Some(values@[1]@),
        r@.get("v_l3"@) == Some(values@[2]@),
        r@.get("i_l1"@) == Some(values@[3]@),
        r@.get("i_l2"@) == Some(values@[4]@),
        r@.get("i_l3"@) == Some(values@[5]@),
        r@.get("power_kw"@) == Some(values@[6]@),
        r@.get("frequency"@) == Some(values@[7]@),
        r@.get("warnings"@) == Some(json::text_list(text::texts(warnings@))),
{
    json::list_view_index(values@);
    let v = json::list_view(values@);
    reveal_strlit("v_l1");
    reveal_strlit("v_l2");
    reveal_strlit("v_l3");
    reveal_strlit("i_l1");
    reveal_strlit("i_l2");
    reveal_strlit("i_l3");
    reveal_strlit("power_kw");
    reveal_strlit("frequency");
    reveal_strlit("warnings");
    assert("v_l1"@.len() == 4 && "v_l2"@.len() == 4 && "v_l3"@.len() == 4);
    assert("i_l1"@.len() == 4 && "i_l2"@.len() == 4 && "i_l3"@.len() == 4);
    assert("v_l1"@[0] == 'v' && "v_l2"@[0] == 'v' && "v_l3"@[0] == 'v');
    assert("i_l1"@[0] == 'i' && "i_l2"@[0] == 'i' && "i_l3"@[0] == 'i');
    assert("v_l1"@[3] == '1' && "v_l2"@[3] == '2' && "v_l3"@[3] == '3');
    assert("i_l1"@[3] == '1' && "i_l2"@[3] == '2' && "i_l3"@[3] == '3');
    assert("power_kw"@.len() == 8 && "frequency"@.len() == 9 && "warnings"@.len() == 8);
    assert("power_kw"@[0] == 'p' && "warnings"@[0] == 'w');
    reveal_with_fuel(meter_fields, 9);
    assert(v[0] == values@[0]@ && v[1] == values@[1]@ && v[2] == values@[2]@
        && v[3] == values@[3]@);
    assert(v[4] == values@[4]@ && v[5] == values@[5]@ && v[6] == values@[6]@
        && v[7] == values@[7]@);
}

} // verus!

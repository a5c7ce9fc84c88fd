//! PJLink, the protocol of the projectors: greeting, commands and what their replies mean.

use vstd::prelude::*;
use vstd::string::*;
use vstd::utf8::*;

use crate::digest;
use crate::json;
use crate::json::{Json, JsonV};
use crate::numerals;
use crate::projector_extras;
use crate::text;

verus! {

/// The port that the projectors listen at.
pub const PJLINK_PORT: u16 = 4352;

// ---------------------------------------------------------------------------
// Lines
// ---------------------------------------------------------------------------

pub open spec fn ends_line(b: u8) -> bool {
    b == 13 || b == 10
}

/// A line that is being received byte by byte.
pub struct LineBuffer {
    pub bytes: Vec<u8>,
}

impl LineBuffer {
    pub fn new() -> (r: Self)
        ensures
            r.bytes@ == Seq::<u8>::empty(),
    {
        LineBuffer { bytes: Vec::new() }
    }

    /// Takes in a byte and tells whether the line is complete. The ends of lines before the
    /// first other byte do not count.
    pub fn feed(&mut self, b: u8) -> (complete: bool)
        ensures
            complete == (ends_line(b) && old(self).bytes@.len() > 0),
            final(self).bytes@ == if ends_line(b) {
                old(self).bytes@
            } else {
                old(self).bytes@.push(b)
            },
    {
        if b == 13 || b == 10 {
            self.bytes.len() > 0
        } else {
            self.bytes.push(b);
            false
        }
    }

    /// The line, once it is complete or the connection is closed.
    pub fn finish(&self) -> (r: Result<String, String>)
        ensures
            projector_extras::view_text_result(r) == if self.bytes@.len() == 0 {
                Err("PJLink empty response"@)
            } else {
                Ok(numerals::utf8_lossy(self.bytes@))
            },
    {
        if self.bytes.len() == 0 {
            return Err("PJLink empty response".to_owned());
        }
        Ok(numerals::lossy_text(&self.bytes))
    }
}

/// What a line holds after the bytes of a stream were taken in up to its end.
pub open spec fn fed(bytes: Seq<u8>, stream: Seq<u8>) -> Seq<u8>
    decreases stream.len(),
{
    if stream.len() == 0 {
        bytes
    } else if ends_line(stream[0]) {
        if bytes.len() > 0 {
            bytes
        } else {
            fed(bytes, stream.skip(1))
        }
    } else {
        fed(bytes.push(stream[0]), stream.skip(1))
    }
}

/// The first line of a stream that is not empty: without the ends of lines in front of it, up
/// to the next one.
pub open spec fn first_line(stream: Seq<u8>) -> Seq<u8>
    decreases stream.len(),
{
    if stream.len() == 0 {
        Seq::empty()
    } else if ends_line(stream[0]) {
        first_line(stream.skip(1))
    } else {
        line_from(stream)
    }
}

/// The bytes up to the next end of a line.
pub open spec fn line_from(stream: Seq<u8>) -> Seq<u8>
    decreases stream.len(),
{
    if stream.len() == 0 || ends_line(stream[0]) {
        Seq::empty()
    } else {
        seq![stream[0]] + line_from(stream.skip(1))
    }
}

proof fn fed_collects(bytes: Seq<u8>, stream: Seq<u8>)
    requires
        bytes.len() > 0,
    ensures
        fed(bytes, stream) == bytes + line_from(stream),
    decreases stream.len(),
{
    if stream.len() > 0 && !ends_line(stream[0]) {
        fed_collects(bytes.push(stream[0]), stream.skip(1));
        assert(bytes.push(stream[0]) + line_from(stream.skip(1)) =~= bytes + line_from(stream));
    } else {
        assert(bytes + line_from(stream) =~= bytes);
    }
}

/// Taking in a stream byte by byte yields its first line that is not empty.
pub proof fn feeding_yields_the_first_line(stream: Seq<u8>)
    ensures
        fed(Seq::empty(), stream) == first_line(stream),
    decreases stream.len(),
{
    if stream.len() > 0 {
        if ends_line(stream[0]) {
            feeding_yields_the_first_line(stream.skip(1));
        } else {
            let one = Seq::<u8>::empty().push(stream[0]);
            fed_collects(one, stream.skip(1));
            assert(one =~= seq![stream[0]]);
        }
    }
}

// ---------------------------------------------------------------------------
// Greeting and commands
// ---------------------------------------------------------------------------

/// What a greeting asks for: nothing; or the digest of a text, which is the random number in
/// the greeting with the password behind it; or something unknown.
pub open spec fn auth_material(hello: Seq<char>, password: Seq<char>) -> Result<
    Option<Seq<char>>,
    Seq<char>,
> {
    if text::begins(hello, "PJLINK 0"@) {
        Ok(None)
    } else if text::begins(hello, "PJLINK 1 "@) {
        Ok(Some(text::trimmed(text::without_prefixes(hello, "PJLINK 1 "@)) + password))
    } else {
        Err("Unexpected PJLink hello: "@ + hello)
    }
}

pub open spec fn view_material(r: Result<Option<String>, String>) -> Result<
    Option<Seq<char>>,
    Seq<char>,
> {
    match r {
        Ok(o) => Ok(text::view_option(o)),
        Err(e) => Err(e@),
    }
}

/// Reads a greeting.
pub fn pjlink_auth_material(hello: &str, password: &str) -> (r: Result<Option<String>, String>)
    ensures
        view_material(r) == auth_material(hello@, password@),
{
    if text::starts_with(hello, "PJLINK 0") {
        return Ok(None);
    }
    if text::starts_with(hello, "PJLINK 1 ") {
        let nonce = text::trim(text::strip_prefixes(hello, "PJLINK 1 ").as_str());
        return Ok(Some(text::glue(nonce.as_str(), password)));
    }
    Err(text::glue("Unexpected PJLink hello: ", hello))
}

/// What stands before every command after a greeting.
pub open spec fn auth_prefix(hello: Seq<char>, password: Seq<char>) -> Result<Seq<char>, Seq<char>> {
    match auth_material(hello, password) {
        Ok(None) => Ok(Seq::empty()),
        Ok(Some(material)) => Ok(digest::md5_hex_of(encode_utf8(material))),
        Err(e) => Err(e),
    }
}

/// Works out what stands before every command after a greeting.
pub fn pjlink_auth_prefix(hello: &str, password: &str) -> (r: Result<String, String>)
    ensures
        projector_extras::view_text_result(r) == auth_prefix(hello@, password@),
{
    match pjlink_auth_material(hello, password) {
        Ok(None) => Ok(String::new()),
        Ok(Some(material)) => Ok(digest::md5_hex(material.as_str())),
        Err(e) => Err(e),
    }
}

/// The value in a reply to a command.
pub open spec fn reply_value(resp: Seq<char>, key: Seq<char>) -> Option<Seq<char>> {
    text::after_prefix(resp, "%1"@ + key + "="@)
}

pub fn pjlink_parse_value(resp: &str, key: &str) -> (r: Option<String>)
    ensures
        text::view_option(r) == reply_value(resp@, key@),
{
    text::strip_prefix(resp, text::glue3("%1", key, "=").as_str())
}

/// Manufacturer and model in a reply that lists both.
pub open spec fn reply_model(resp: Seq<char>) -> Option<Seq<char>> {
    match reply_value(resp, "INF"@) {
        Some(v) => {
            let parts = text::pieces(v, ',');
            if parts.len() >= 2 && !text::is_blank(parts[1]) {
                Some(text::trimmed(parts[0]) + " "@ + text::trimmed(parts[1]))
            } else {
                None
            }
        },
        None => None,
    }
}

pub fn pjlink_parse_model(resp: &str) -> (r: Option<String>)
    ensures
        text::view_option(r) == reply_model(resp@),
{
    let v = match pjlink_parse_value(resp, "INF") {
        Some(v) => v,
        None => {
            return None;
        },
    };
    let parts = text::split(v.as_str(), ',');
    proof {
        assert(text::texts(parts@) == text::pieces(v@, ','));
        assert(text::texts(parts@)[0] == parts@[0]@);
    }
    if parts.len() >= 2 {
        let maker = text::trim(parts[0].as_str());
        let model = text::trim(parts[1].as_str());
        proof {
            assert(text::texts(parts@)[1] == parts@[1]@);
        }
        if !model.as_str().is_empty() {
            return Some(text::glue3(maker.as_str(), " ", model.as_str()));
        }
    }
    None
}

/// Whether an address is set at all.
pub open spec fn addressed(ip: Seq<char>) -> bool {
    !text::is_blank(ip) && text::trimmed(ip) != "0.0.0.0"@
}

pub fn has_address(ip: &str) -> (r: bool)
    ensures
        r == addressed(ip@),
{
    let t = text::trim(ip);
    !t.as_str().is_empty() && !text::same(t.as_str(), "0.0.0.0")
}

// ---------------------------------------------------------------------------
// The state of a projector
// ---------------------------------------------------------------------------

/// The commands that ask for the state: power, errors, shutter, lamp.
pub fn poll_command(i: usize) -> (r: &'static str)
    ensures
        r@ == match i {
            0 => "%1POWR ?"@,
            1 => "%1ERST ?"@,
            2 => "%1AVMT ?"@,
            _ => "%1LAMP ?"@,
        },
{
    match i {
        0 => "%1POWR ?",
        1 => "%1ERST ?",
        2 => "%1AVMT ?",
        _ => "%1LAMP ?",
    }
}

/// The state of a projector as an object.
pub open spec fn projector_fields(
    ip: Seq<char>,
    has_ip: bool,
    connected: bool,
    power: JsonV,
    error: Seq<char>,
    muted: bool,
    lamp: JsonV,
) -> JsonV {
    JsonV::Object(
        Map::<Seq<char>, JsonV>::empty().insert("ip"@, JsonV::Text(ip)).insert(
            "hasIp"@,
            JsonV::Bool(has_ip),
        ).insert("isConnected"@, JsonV::Bool(connected)).insert("powerIsOn"@, power).insert(
            "errorState"@,
            JsonV::Text(error),
        ).insert("shutterMuted"@, JsonV::Bool(muted)).insert("lampHours"@, lamp),
    )
}

fn projector_object(
    ip: &str,
    has_ip: bool,
    connected: bool,
    power: Json,
    error: &str,
    muted: bool,
    lamp: Json,
) -> (r: Json)
    ensures
        r@ == projector_fields(ip@, has_ip, connected, power@, error@, muted, lamp@),
{
    let mut m = json::empty_object();
    json::put(&mut m, "ip", json::text(ip));
    json::put(&mut m, "hasIp", Json::Bool(has_ip));
    json::put(&mut m, "isConnected", Json::Bool(connected));
    json::put(&mut m, "powerIsOn", power);
    json::put(&mut m, "errorState", json::text(error));
    json::put(&mut m, "shutterMuted", Json::Bool(muted));
    json::put(&mut m, "lampHours", lamp);
    Json::Object(m)
}

/// The state of a projector without an address.
pub fn poll_without_address(ip: &str) -> (r: Json)
    ensures
        r@ == projector_fields(
            ip@,
            false,
            false,
            JsonV::Bool(false),
            Seq::empty(),
            false,
            JsonV::Null,
        ),
{
    proof {
        reveal_strlit("");
        assert(""@ =~= Seq::<char>::empty());
    }
    projector_object(ip, false, false, Json::Bool(false), "", false, Json::Null)
}

/// The state of a projector that cannot be reached, or whose greeting is not understood.
pub fn poll_unreachable(ip: &str, error: &str) -> (r: Json)
    ensures
        r@ == projector_fields(
            ip@,
            true,
            false,
            JsonV::Bool(false),
            error@,
            false,
            JsonV::Null,
        ),
{
    projector_object(ip, true, false, Json::Bool(false), error, false, Json::Null)
}

pub open spec fn or_empty(o: Option<Seq<char>>) -> Seq<char> {
    match o {
        Some(s) => s,
        None => Seq::empty(),
    }
}

/// The value of a reply, empty where there is none.
pub open spec fn value_or_empty(reply: Result<Seq<char>, Seq<char>>, key: Seq<char>) -> Seq<char> {
    match reply {
        Ok(r) => or_empty(reply_value(r, key)),
        Err(_) => Seq::empty(),
    }
}

/// Whether the lamp is on, out of the value for the power.
pub open spec fn power_state(v: Seq<char>) -> JsonV {
    if v == "1"@ {
        JsonV::Bool(true)
    } else if v == "2"@ {
        JsonV::Text("Cooling"@)
    } else if v == "3"@ {
        JsonV::Text("WarmUp"@)
    } else if v == "ERR3"@ {
        JsonV::Text("Transitioning"@)
    } else {
        JsonV::Bool(false)
    }
}

/// The error that the reply for the power shows.
pub open spec fn power_error(powr: Result<Seq<char>, Seq<char>>) -> Seq<char> {
    match powr {
        Ok(_) => {
            let v = value_or_empty(powr, "POWR"@);
            if v.len() == 0 || v == "0"@ || v == "1"@ || v == "2"@ || v == "3"@ || v == "ERR3"@ {
                Seq::empty()
            } else {
                "POWR "@ + v
            }
        },
        Err(e) => e,
    }
}

/// The error that is shown: a fault of the device before one of the power.
pub open spec fn error_state(
    powr: Result<Seq<char>, Seq<char>>,
    erst: Result<Seq<char>, Seq<char>>,
) -> Seq<char> {
    let v = value_or_empty(erst, "ERST"@);
    if !text::is_blank(v) && v != "000000"@ && !text::begins(v, "ERR"@) {
        "ERST "@ + v
    } else {
        power_error(powr)
    }
}

pub open spec fn shutter_closed(avmt: Result<Seq<char>, Seq<char>>) -> bool {
    let v = value_or_empty(avmt, "AVMT"@);
    v == "11"@ || v == "21"@ || v == "31"@
}

/// The hours of the lamp: the first word of the value, where it is a number.
pub open spec fn lamp_hours(lamp: Result<Seq<char>, Seq<char>>) -> JsonV {
    let words = text::words(value_or_empty(lamp, "LAMP"@));
    if words.len() == 0 {
        JsonV::Null
    } else {
        match numerals::parsed_unsigned(words[0], u64::MAX as nat) {
            Some(h) => JsonV::Unsigned(h as u64),
            None => JsonV::Null,
        }
    }
}

fn value_of(reply: &Result<String, String>, key: &str) -> (r: String)
    ensures
        r@ == value_or_empty(projector_extras::view_text_result(*reply), key@),
{
    match reply {
        Ok(s) => match pjlink_parse_value(s.as_str(), key) {
            Some(v) => v,
            None => String::new(),
        },
        Err(_) => String::new(),
    }
}

fn power_of(v: &str) -> (r: Json)
    ensures
        r@ == power_state(v@),
{
    if text::same(v, "1") {
        Json::Bool(true)
    } else if text::same(v, "2") {
        json::text("Cooling")
    } else if text::same(v, "3") {
        json::text("WarmUp")
    } else if text::same(v, "ERR3") {
        json::text("Transitioning")
    } else {
        Json::Bool(false)
    }
}

fn power_error_of(powr: &Result<String, String>) -> (r: String)
    ensures
        r@ == power_error(projector_extras::view_text_result(*powr)),
{
    match powr {
        Ok(_) => {
            let value = value_of(powr, "POWR");
            let v = value.as_str();
            if v.is_empty() || text::same(v, "0") || text::same(v, "1") || text::same(v, "2")
                || text::same(v, "3") || text::same(v, "ERR3") {
                String::new()
            } else {
                text::glue("POWR ", v)
            }
        },
        Err(e) => e.clone(),
    }
}

/// The state of a projector out of its replies for power, errors, shutter and lamp.
pub fn pjlink_poll_report(
    ip: &str,
    powr: &Result<String, String>,
    erst: &Result<String, String>,
    avmt: &Result<String, String>,
    lamp: &Result<String, String>,
) -> (r: Json)
    ensures
        r@ == ({
            let p = projector_extras::view_text_result(*powr);
            projector_fields(
                ip@,
                true,
                true,
                power_state(value_or_empty(p, "POWR"@)),
                error_state(p, projector_extras::view_text_result(*erst)),
                shutter_closed(projector_extras::view_text_result(*avmt)),
                lamp_hours(projector_extras::view_text_result(*lamp)),
            )
        }),
{
    let fault = value_of(erst, "ERST");
    let error = if !text::blank(fault.as_str()) && !text::same(fault.as_str(), "000000")
        && !text::starts_with(fault.as_str(), "ERR") {
        text::glue("ERST ", fault.as_str())
    } else {
        power_error_of(powr)
    };
    let mute = value_of(avmt, "AVMT");
    let closed = text::same(mute.as_str(), "11") || text::same(mute.as_str(), "21") || text::same(
        mute.as_str(),
        "31",
    );
    let words = text::split_whitespace(value_of(lamp, "LAMP").as_str());
    let hours = if words.len() == 0 {
        Json::Null
    } else {
        proof {
            assert(text::texts(words@)[0] == words@[0]@);
        }
        match numerals::parse_unsigned(words[0].as_str(), u64::MAX) {
            Some(h) => Json::Unsigned(h),
            None => Json::Null,
        }
    };
    let power = power_of(value_of(powr, "POWR").as_str());
    projector_object(ip, true, true, power, error.as_str(), closed, hours)
}

// ---------------------------------------------------------------------------
// The model of a projector
// ---------------------------------------------------------------------------

/// The commands that ask for the model: both at once, manufacturer, model.
pub fn model_command(i: usize) -> (r: &'static str)
    ensures
        r@ == match i {
            0 => "%1INF ?"@,
            1 => "%1INF1 ?"@,
            _ => "%1INF2 ?"@,
        },
{
    match i {
        0 => "%1INF ?",
        1 => "%1INF1 ?",
        _ => "%1INF2 ?",
    }
}

pub open spec fn model_fields(
    ip: Seq<char>,
    has_ip: bool,
    connected: bool,
    model: Seq<char>,
    error: Seq<char>,
) -> JsonV {
    JsonV::Object(
        Map::<Seq<char>, JsonV>::empty().insert("ip"@, JsonV::Text(ip)).insert(
            "hasIp"@,
            JsonV::Bool(has_ip),
        ).insert("isConnected"@, JsonV::Bool(connected)).insert(
            "model"@,
            JsonV::Text(model),
        ).insert("errorState"@, JsonV::Text(error)),
    )
}

fn model_object(ip: &str, has_ip: bool, connected: bool, model: &str, error: &str) -> (r: Json)
    ensures
        r@ == model_fields(ip@, has_ip, connected, model@, error@),
{
    let mut m = json::empty_object();
    json::put(&mut m, "ip", json::text(ip));
    json::put(&mut m, "hasIp", Json::Bool(has_ip));
    json::put(&mut m, "isConnected", Json::Bool(connected));
    json::put(&mut m, "model", json::text(model));
    json::put(&mut m, "errorState", json::text(error));
    Json::Object(m)
}

/// The report on the model of a projector without an address.
pub fn model_without_address(ip: &str) -> (r: Json)
    ensures
        r@ == model_fields(ip@, false, false, "Unknown"@, Seq::empty()),
{
    proof {
        reveal_strlit("");
        assert(""@ =~= Seq::<char>::empty());
    }
    model_object(ip, false, false, "Unknown", "")
}

/// The report on the model of a projector that cannot be reached.
pub fn model_unreachable(ip: &str, error: &str) -> (r: Json)
    ensures
        r@ == model_fields(ip@, true, false, "Unknown"@, error@),
{
    model_object(ip, true, false, "Unknown", error)
}

/// A name in a reply: trimmed, and nothing where it is empty or an error.
pub open spec fn name_in(reply: Result<Seq<char>, Seq<char>>, key: Seq<char>) -> Option<Seq<char>> {
    let v = text::trimmed(value_or_empty(reply, key));
    if v.len() == 0 || text::begins(v, "ERR"@) {
        None
    } else {
        Some(v)
    }
}

/// The model: the name of the model, with that of the manufacturer where it is known; else
/// both as they are listed; else unknown.
pub open spec fn model_name(
    inf: Result<Seq<char>, Seq<char>>,
    inf1: Result<Seq<char>, Seq<char>>,
    inf2: Result<Seq<char>, Seq<char>>,
) -> Seq<char> {
    match name_in(inf2, "INF2"@) {
        Some(name) => match name_in(inf1, "INF1"@) {
            Some(maker) => maker + " "@ + name,
            None => name,
        },
        None => match inf {
            Ok(r) => match reply_model(r) {
                Some(m) => m,
                None => "Unknown"@,
            },
            Err(_) => "Unknown"@,
        },
    }
}

fn name_of(reply: &Result<String, String>, key: &str) -> (r: Option<String>)
    ensures
        text::view_option(r) == name_in(projector_extras::view_text_result(*reply), key@),
{
    let v = text::trim(value_of(reply, key).as_str());
    if v.as_str().is_empty() || text::starts_with(v.as_str(), "ERR") {
        None
    } else {
        Some(v)
    }
}

/// The report on the model of a projector out of its three replies.
pub fn pjlink_model_report(
    ip: &str,
    inf: &Result<String, String>,
    inf1: &Result<String, String>,
    inf2: &Result<String, String>,
) -> (r: Json)
    ensures
        r@ == model_fields(
            ip@,
            true,
            true,
            model_name(
                projector_extras::view_text_result(*inf),
                projector_extras::view_text_result(*inf1),
                projector_extras::view_text_result(*inf2),
            ),
            Seq::empty(),
        ),
{
    let model = match name_of(inf2, "INF2") {
        Some(name) => match name_of(inf1, "INF1") {
            Some(maker) => text::glue3(maker.as_str(), " ", name.as_str()),
            None => name,
        },
        None => match inf {
            Ok(r) => match pjlink_parse_model(r.as_str()) {
                Some(m) => m,
                None => "Unknown".to_owned(),
            },
            Err(_) => "Unknown".to_owned(),
        },
    };
    proof {
        reveal_strlit("");
        assert(""@ =~= Seq::<char>::empty());
    }
    model_object(ip, true, true, model.as_str(), "")
}

// ---------------------------------------------------------------------------
// Switching
// ---------------------------------------------------------------------------

/// The command that switches the lamp.
pub fn power_command(on: bool) -> (r: &'static str)
    ensures
        r@ == if on {
            "%1POWR 1"@
        } else {
            "%1POWR 0"@
        },
{
    if on {
        "%1POWR 1"
    } else {
        "%1POWR 0"
    }
}

/// The command that moves the shutter.
pub fn shutter_command(muted: bool) -> (r: &'static str)
    ensures
        r@ == if muted {
            "%1AVMT 31"@
        } else {
            "%1AVMT 30"@
        },
{
    if muted {
        "%1AVMT 31"
    } else {
        "%1AVMT 30"
    }
}

/// What the reply to a command means: an error where it says so. `what` names the command.
pub fn check_switched(what: &str, resp: &str) -> (r: Result<bool, String>)
    ensures
        match r {
            Ok(done) => done && !text::has(resp@, "=ERR"@),
            Err(e) => text::has(resp@, "=ERR"@) && e@ == "PJLink "@ + what@ + " error: "@ + resp@,
        },
{
    if text::contains(resp, "=ERR") {
        let mut e = text::glue3("PJLink ", what, " error: ");
        e.append(resp);
        return Err(e);
    }
    Ok(true)
}

// ---------------------------------------------------------------------------
// What replies say
// ---------------------------------------------------------------------------

/// The reply of a projector to a question, with a value.
pub open spec fn says(reply: Result<String, String>, question: Seq<char>, value: Seq<char>) -> bool {
    reply matches Ok(s) && question.len() >= 2
        && s@ == question.take(question.len() - 2) + seq!['=']
        + value
}

proof fn value_of_reply(
    reply: Result<String, String>,
    question: Seq<char>,
    key: Seq<char>,
    value: Seq<char>,
)
    requires
        says(reply, question, value),
        question == "%1"@ + key + " ?"@,
    ensures
        value_or_empty(projector_extras::view_text_result(reply), key) == value,
{
    reveal_strlit("%1");
    reveal_strlit(" ?");
    reveal_strlit("=");
    let lead = "%1"@ + key + "="@;
    let s = (reply->Ok_0)@;
    assert(s =~= lead + value);
    assert(s.take(lead.len() as int) =~= lead);
    assert(s.skip(lead.len() as int) =~= value);
}

proof fn questions_name_their_keys()
    ensures
        "%1POWR ?"@ == "%1"@ + "POWR"@ + " ?"@,
        "%1ERST ?"@ == "%1"@ + "ERST"@ + " ?"@,
        "%1AVMT ?"@ == "%1"@ + "AVMT"@ + " ?"@,
        "%1LAMP ?"@ == "%1"@ + "LAMP"@ + " ?"@,
{
    reveal_strlit("%1");
    reveal_strlit(" ?");
    reveal_strlit("POWR");
    reveal_strlit("ERST");
    reveal_strlit("AVMT");
    reveal_strlit("LAMP");
    reveal_strlit("%1POWR ?");
    reveal_strlit("%1ERST ?");
    reveal_strlit("%1AVMT ?");
    reveal_strlit("%1LAMP ?");
    assert("%1POWR ?"@ =~= "%1"@ + "POWR"@ + " ?"@);
    assert("%1ERST ?"@ =~= "%1"@ + "ERST"@ + " ?"@);
    assert("%1AVMT ?"@ =~= "%1"@ + "AVMT"@ + " ?"@);
    assert("%1LAMP ?"@ =~= "%1"@ + "LAMP"@ + " ?"@);
}

proof fn fields_are_found(
    ip: Seq<char>,
    has_ip: bool,
    connected: bool,
    power: JsonV,
    error: Seq<char>,
    muted: bool,
    lamp: JsonV,
)
    ensures
        ({
            let r = projector_fields(ip, has_ip, connected, power, error, muted, lamp);
            &&& r.get("ip"@) == Some(JsonV::Text(ip))
            &&& r.get("hasIp"@) == Some(JsonV::Bool(has_ip))
            &&& r.get("isConnected"@) == Some(JsonV::Bool(connected))
            &&& r.get("powerIsOn"@) == Some(power)
            &&& r.get("errorState"@) == Some(JsonV::Text(error))
            &&& r.get("shutterMuted"@) == Some(JsonV::Bool(muted))
            &&& r.get("lampHours"@) == Some(lamp)
        }),
{
    reveal_strlit("ip");
    reveal_strlit("hasIp");
    reveal_strlit("isConnected");
    reveal_strlit("powerIsOn");
    reveal_strlit("errorState");
    reveal_strlit("shutterMuted");
    reveal_strlit("lampHours");
    assert("ip"@.len() == 2 && "hasIp"@.len() == 5 && "isConnected"@.len() == 11
        && "powerIsOn"@.len() == 9 && "errorState"@.len() == 10 && "shutterMuted"@.len() == 12);
    assert("lampHours"@.len() == 9);
    assert("lampHours"@[0] == 'l');
    assert("powerIsOn"@[0] == 'p');
}

/// The shutter counts as closed for the values 11, 21 and 31 and for no other, and as open
/// where there is no reply.
pub proof fn shutter_is_closed_by_three_values(
    ip: &str,
    powr: &Result<String, String>,
    erst: &Result<String, String>,
    avmt: &Result<String, String>,
    lamp: &Result<String, String>,
    question: &str,
    value: Seq<char>,
    r: Json,
)
    requires
        call_ensures(poll_command, (2usize,), question),
        call_ensures(pjlink_poll_report, (ip, powr, erst, avmt, lamp), r),
    ensures
        says(*avmt, question@, value) ==> r@.get("shutterMuted"@) == Some(
            JsonV::Bool(
                value.len() == 2 && '1' <= value[0] <= '3' && value[1] == '1',
            ),
        ),
        *avmt is Err ==> r@.get("shutterMuted"@) == Some(JsonV::Bool(false)),
{
    questions_name_their_keys();
    let p = projector_extras::view_text_result(*powr);
    let a = projector_extras::view_text_result(*avmt);
    fields_are_found(
        ip@,
        true,
        true,
        power_state(value_or_empty(p, "POWR"@)),
        error_state(p, projector_extras::view_text_result(*erst)),
        shutter_closed(a),
        lamp_hours(projector_extras::view_text_result(*lamp)),
    );
    reveal_strlit("11");
    reveal_strlit("21");
    reveal_strlit("31");
    assert("11"@.len() == 2 && "21"@.len() == 2 && "31"@.len() == 2);
    assert("11"@[0] == '1' && "11"@[1] == '1');
    assert("21"@[0] == '2' && "21"@[1] == '1');
    assert("31"@[0] == '3' && "31"@[1] == '1');
    if says(*avmt, question@, value) {
        value_of_reply(*avmt, question@, "AVMT"@, value);
        if value.len() == 2 && value[1] == '1' {
            if value[0] == '1' {
                assert(value =~= "11"@);
            } else if value[0] == '2' {
                assert(value =~= "21"@);
            } else if value[0] == '3' {
                assert(value =~= "31"@);
            }
        }
    } else if *avmt is Err {
        assert(value_or_empty(a, "AVMT"@).len() == 0);
    }
}

/// The value that a command for the shutter sets reads back as what the command was for.
pub proof fn shutter_reads_back(
    ip: &str,
    powr: &Result<String, String>,
    erst: &Result<String, String>,
    avmt: &Result<String, String>,
    lamp: &Result<String, String>,
    question: &str,
    muted: bool,
    command: &str,
    value: Seq<char>,
    r: Json,
)
    requires
        call_ensures(shutter_command, (muted,), command),
        command@ == "%1AVMT "@ + value,
        call_ensures(poll_command, (2usize,), question),
        says(*avmt, question@, value),
        call_ensures(pjlink_poll_report, (ip, powr, erst, avmt, lamp), r),
    ensures
        r@.get("shutterMuted"@) == Some(JsonV::Bool(muted)),
{
    shutter_is_closed_by_three_values(ip, powr, erst, avmt, lamp, question, value, r);
    reveal_strlit("%1AVMT ");
    reveal_strlit("%1AVMT 31");
    reveal_strlit("%1AVMT 30");
    assert("%1AVMT "@.len() == 7);
    assert("%1AVMT 31"@.len() == 9 && "%1AVMT 30"@.len() == 9);
    assert(command@.len() == 9);
    assert(value.len() == 2);
    assert(command@[7] == value[0] && command@[8] == value[1]);
}

/// The projector counts as on for the value 1, and neither for any other value nor without a
/// reply; what the command for the power sets reads back.
pub proof fn power_reads_back(
    ip: &str,
    powr: &Result<String, String>,
    erst: &Result<String, String>,
    avmt: &Result<String, String>,
    lamp: &Result<String, String>,
    question: &str,
    on: bool,
    command: &str,
    value: Seq<char>,
    r: Json,
)
    requires
        call_ensures(poll_command, (0usize,), question),
        call_ensures(power_command, (on,), command),
        call_ensures(pjlink_poll_report, (ip, powr, erst, avmt, lamp), r),
    ensures
        says(*powr, question@, value) ==> (r@.get("powerIsOn"@) == Some(JsonV::Bool(true))
            <==> value
            == seq!['1']),
        says(*powr, question@, value) && command@ == "%1POWR "@ + value ==> r@.get("powerIsOn"@)
            == Some(JsonV::Bool(on)),
        says(*powr, question@, value) && value == seq!['2'] ==> r@.get("powerIsOn"@) == Some(
            JsonV::Text("Cooling"@),
        ),
        says(*powr, question@, value) && value == seq!['3'] ==> r@.get("powerIsOn"@) == Some(
            JsonV::Text("WarmUp"@),
        ),
        says(*powr, question@, value) && value == seq!['E', 'R', 'R', '3'] ==> r@.get("powerIsOn"@)
            == Some(JsonV::Text("Transitioning"@)),
        *powr is Err ==> r@.get("powerIsOn"@) == Some(JsonV::Bool(false)),
        r@.get("isConnected"@) == Some(JsonV::Bool(true)),
        r@.get("ip"@) == Some(JsonV::Text(ip@)),
{
    questions_name_their_keys();
    let p = projector_extras::view_text_result(*powr);
    fields_are_found(
        ip@,
        true,
        true,
        power_state(value_or_empty(p, "POWR"@)),
        error_state(p, projector_extras::view_text_result(*erst)),
        shutter_closed(projector_extras::view_text_result(*avmt)),
        lamp_hours(projector_extras::view_text_result(*lamp)),
    );
    reveal_strlit("1");
    reveal_strlit("2");
    reveal_strlit("3");
    reveal_strlit("ERR3");
    assert("1"@ =~= seq!['1']);
    assert("2"@ =~= seq!['2']);
    assert("3"@ =~= seq!['3']);
    assert("ERR3"@ =~= seq!['E', 'R', 'R', '3']);
    assert("1"@[0] == '1' && "2"@[0] == '2' && "3"@[0] == '3' && "ERR3"@[0] == 'E');
    reveal_strlit("%1POWR ");
    reveal_strlit("%1POWR 0");
    reveal_strlit("%1POWR 1");
    if says(*powr, question@, value) {
        value_of_reply(*powr, question@, "POWR"@, value);
        if command@ == "%1POWR "@ + value {
            assert("%1POWR "@.len() == 7);
            assert("%1POWR 0"@.len() == 8 && "%1POWR 1"@.len() == 8);
            assert(command@.len() == 8);
            assert(value.len() == 1);
            assert(command@[7] == value[0]);
            if on {
                assert(value =~= "1"@);
            } else {
                assert(value[0] == '0');
            }
        }
    } else if *powr is Err {
        assert(value_or_empty(p, "POWR"@).len() == 0);
    }
}

/// A fault of the device is shown whatever the power says; without one, and with a power value
/// that is no error, nothing is shown; a question for the power that failed is shown.
pub proof fn faults_are_shown(
    ip: &str,
    powr: &Result<String, String>,
    erst: &Result<String, String>,
    avmt: &Result<String, String>,
    lamp: &Result<String, String>,
    power_question: &str,
    error_question: &str,
    power: Seq<char>,
    fault: Seq<char>,
    r: Json,
)
    requires
        call_ensures(poll_command, (0usize,), power_question),
        call_ensures(poll_command, (1usize,), error_question),
        says(*erst, error_question@, fault),
        call_ensures(pjlink_poll_report, (ip, powr, erst, avmt, lamp), r),
    ensures
        fault.len() == 6 && fault != seq!['0', '0', '0', '0', '0', '0']
            && numerals::all_digits(fault)
            ==> r@.get("errorState"@) == Some(JsonV::Text("ERST "@ + fault)),
        fault == seq!['0', '0', '0', '0', '0', '0'] && says(*powr, power_question@, power)
            && power.len() == 1 && '0' <= power[0] <= '3' ==> r@.get("errorState"@) == Some(
            JsonV::Text(Seq::empty()),
        ),
        fault == seq!['0', '0', '0', '0', '0', '0'] && says(*powr, power_question@, power)
            && power.len() == 1 && !('0' <= power[0] <= '3') ==> r@.get("errorState"@) == Some(
            JsonV::Text("POWR "@ + power),
        ),
        fault == seq!['0', '0', '0', '0', '0', '0'] ==> (*powr matches Err(e) ==> r@.get(
            "errorState"@,
        ) == Some(JsonV::Text(e@))),
{
    questions_name_their_keys();
    let p = projector_extras::view_text_result(*powr);
    let e = projector_extras::view_text_result(*erst);
    fields_are_found(
        ip@,
        true,
        true,
        power_state(value_or_empty(p, "POWR"@)),
        error_state(p, e),
        shutter_closed(projector_extras::view_text_result(*avmt)),
        lamp_hours(projector_extras::view_text_result(*lamp)),
    );
    value_of_reply(*erst, error_question@, "ERST"@, fault);
    reveal_strlit("0");
    reveal_strlit("1");
    reveal_strlit("2");
    reveal_strlit("3");
    reveal_strlit("ERR3");
    reveal_strlit("ERR");
    reveal_strlit("000000");
    assert("000000"@ =~= seq!['0', '0', '0', '0', '0', '0']);
    assert("0"@ =~= seq!['0'] && "1"@ =~= seq!['1'] && "2"@ =~= seq!['2'] && "3"@ =~= seq!['3']);
    if fault.len() == 6 && numerals::all_digits(fault) {
        assert(numerals::is_digit(fault[0]));
        text::words_are_not_blank(fault, 0);
        assert(!text::begins(fault, "ERR"@)) by {
            if text::begins(fault, "ERR"@) {
                assert(fault.take(3)[0] == fault[0]);
            }
        }
    }
    if says(*powr, power_question@, power) && power.len() == 1 {
        value_of_reply(*powr, power_question@, "POWR"@, power);
        assert(power =~= seq![power[0]]);
        assert("ERR3"@.len() == 4);
    }
}

/// The hours of the lamp are the first number of its value, and unknown where it begins with
/// something else or there is no reply.
pub proof fn lamp_hours_are_read(
    ip: &str,
    powr: &Result<String, String>,
    erst: &Result<String, String>,
    avmt: &Result<String, String>,
    lamp: &Result<String, String>,
    question: &str,
    hours: u64,
    rest: Seq<char>,
    r: Json,
)
    requires
        call_ensures(poll_command, (3usize,), question),
        call_ensures(pjlink_poll_report, (ip, powr, erst, avmt, lamp), r),
    ensures
        says(*lamp, question@, numerals::dec(hours as nat).push(' ') + rest) || says(
            *lamp,
            question@,
            numerals::dec(hours as nat),
        ) ==> r@.get("lampHours"@) == Some(JsonV::Unsigned(hours)),
        says(*lamp, question@, seq!['E', 'R', 'R', '1']) ==> r@.get("lampHours"@) == Some(
            JsonV::Null,
        ),
        *lamp is Err ==> r@.get("lampHours"@) == Some(JsonV::Null),
{
    questions_name_their_keys();
    let p = projector_extras::view_text_result(*powr);
    let l = projector_extras::view_text_result(*lamp);
    fields_are_found(
        ip@,
        true,
        true,
        power_state(value_or_empty(p, "POWR"@)),
        error_state(p, projector_extras::view_text_result(*erst)),
        shutter_closed(projector_extras::view_text_result(*avmt)),
        lamp_hours(l),
    );
    let d = numerals::dec(hours as nat);
    numerals::decimal_denotes(hours as nat);
    numerals::decimal_reads_back(hours as nat, u64::MAX as nat);
    assert forall|i: int| 0 <= i < d.len() implies !text::is_white_space(#[trigger] d[i]) by {
        assert(numerals::is_digit(d[i]));
    }
    if says(*lamp, question@, d.push(' ') + rest) {
        value_of_reply(*lamp, question@, "LAMP"@, d.push(' ') + rest);
        text::first_word_comes_first(d, ' ', rest);
    }
    if says(*lamp, question@, d) {
        value_of_reply(*lamp, question@, "LAMP"@, d);
        text::one_word(d);
    }
    let e = seq!['E', 'R', 'R', '1'];
    if says(*lamp, question@, e) {
        value_of_reply(*lamp, question@, "LAMP"@, e);
        text::one_word(e);
        numerals::other_characters_are_no_number(e, 0, u64::MAX as nat);
    }
    if *lamp is Err {
        let v = value_or_empty(l, "LAMP"@);
        assert(v =~= Seq::<char>::empty());
        assert(text::gaps(v) == seq![Seq::<char>::empty()]);
        reveal_with_fuel(text::nonempty, 2);
        assert(seq![Seq::<char>::empty()].drop_last() =~= Seq::<Seq<char>>::empty());
        assert(text::words(v).len() == 0);
    }
}

/// A projector without a password gets bare commands; one with a password gets the digest of its
/// number and the password before each; any other greeting is an error.
pub proof fn greetings_are_answered(
    number: Seq<char>,
    hello: &str,
    password: &str,
    r: Result<String, String>,
)
    requires
        number.len() > 0,
        text::is_trimmed(number),
        number[0] != 'P',
        call_ensures(pjlink_auth_prefix, (hello, password), r),
    ensures
        hello@ == "PJLINK 0"@ ==> r is Ok && (r->Ok_0)@.len() == 0,
        hello@ == "PJLINK 1 "@ + number ==> r is Ok && (r->Ok_0)@ == digest::md5_hex_of(
            encode_utf8(number + password@),
        ),
        hello@.len() < 8 ==> r is Err,
{
    reveal_strlit("PJLINK 0");
    reveal_strlit("PJLINK 1 ");
    let e = Seq::<char>::empty();
    let lead = "PJLINK 1 "@;
    assert("PJLINK 0"@.take(8) =~= "PJLINK 0"@);
    if hello@ == lead + number {
        assert(hello@[7] == '1');
        assert(!text::begins(hello@, "PJLINK 0"@)) by {
            if text::begins(hello@, "PJLINK 0"@) {
                assert(hello@.take(8)[7] == hello@[7]);
            }
        }
        assert(hello@.take(9) =~= lead);
        assert(hello@.skip(9) =~= number);
        assert(!text::begins(number, lead)) by {
            if text::begins(number, lead) {
                assert(number.take(9)[0] == number[0]);
            }
        }
        reveal_with_fuel(text::without_prefixes, 2);
        text::trimming_takes_off_white_space(e, number, e);
        assert(e + number + e =~= number);
    }
}

/// The model is reported with its maker before it, and alone where the maker is not known.
pub proof fn models_are_reported(
    ip: &str,
    inf: &Result<String, String>,
    inf1: &Result<String, String>,
    inf2: &Result<String, String>,
    maker_question: &str,
    model_question: &str,
    maker: Seq<char>,
    model: Seq<char>,
    r: Json,
)
    requires
        call_ensures(model_command, (1usize,), maker_question),
        call_ensures(model_command, (2usize,), model_question),
        maker.len() > 0 && text::is_trimmed(maker) && maker[0] != 'E',
        model.len() > 0 && text::is_trimmed(model) && model[0] != 'E',
        says(*inf2, model_question@, model),
        call_ensures(pjlink_model_report, (ip, inf, inf1, inf2), r),
    ensures
        says(*inf1, maker_question@, maker) ==> r@.get("model"@) == Some(
            JsonV::Text(maker + " "@ + model),
        ),
        *inf1 is Err ==> r@.get("model"@) == Some(JsonV::Text(model)),
{
    reveal_strlit("%1");
    reveal_strlit(" ?");
    reveal_strlit("INF1");
    reveal_strlit("INF2");
    reveal_strlit("%1INF1 ?");
    reveal_strlit("%1INF2 ?");
    reveal_strlit("ERR");
    assert("%1INF1 ?"@ =~= "%1"@ + "INF1"@ + " ?"@);
    assert("%1INF2 ?"@ =~= "%1"@ + "INF2"@ + " ?"@);
    reveal_strlit("ip");
    reveal_strlit("hasIp");
    reveal_strlit("isConnected");
    reveal_strlit("model");
    reveal_strlit("errorState");
    assert("model"@.len() == 5 && "errorState"@.len() == 10);
    let e = Seq::<char>::empty();
    value_of_reply(*inf2, model_question@, "INF2"@, model);
    text::trimming_takes_off_white_space(e, model, e);
    assert(e + model + e =~= model);
    text::trimming_takes_off_white_space(e, maker, e);
    assert(e + maker + e =~= maker);
    if text::begins(model, "ERR"@) {
        assert(model.take(3)[0] == model[0]);
    }
    if text::begins(maker, "ERR"@) {
        assert(maker.take(3)[0] == maker[0]);
    }
    if says(*inf1, maker_question@, maker) {
        value_of_reply(*inf1, maker_question@, "INF1"@, maker);
    }
    if *inf1 is Err {
        let v = value_or_empty(projector_extras::view_text_result(*inf1), "INF1"@);
        assert(v =~= e);
        assert(text::trimmed(v).len() == 0);
    }
}

/// A projector that cannot be reached is not connected, shows the error and counts as off; one
/// without an address is neither.
pub proof fn unreachable_projectors_are_off(ip: &str, error: &str, lost: Json, none: Json)
    requires
        call_ensures(poll_unreachable, (ip, error), lost),
        call_ensures(poll_without_address, (ip,), none),
    ensures
        lost@.get("isConnected"@) == Some(JsonV::Bool(false)),
        lost@.get("hasIp"@) == Some(JsonV::Bool(true)),
        lost@.get("errorState"@) == Some(JsonV::Text(error@)),
        lost@.get("powerIsOn"@) == Some(JsonV::Bool(false)),
        lost@.get("ip"@) == Some(JsonV::Text(ip@)),
        none@.get("isConnected"@) == Some(JsonV::Bool(false)),
        none@.get("hasIp"@) == Some(JsonV::Bool(false)),
{
    fields_are_found(ip@, true, false, JsonV::Bool(false), error@, false, JsonV::Null);
    fields_are_found(
        ip@,
        false,
        false,
        JsonV::Bool(false),
        Seq::empty(),
        false,
        JsonV::Null,
    );
}

/// A reply that names an error means that nothing was switched, and every other that it was.
pub proof fn switching_fails_on_errors(
    what: &str,
    resp: &str,
    a: Seq<char>,
    b: Seq<char>,
    r: Result<bool, String>,
)
    requires
        call_ensures(check_switched, (what, resp), r),
    ensures
        resp@ == a + "=ERR"@ + b ==> r is Err,
        resp@.len() < 4 ==> r == Ok::<bool, String>(true),
        r matches Err(e) ==> text::ends(e@, resp@),
{
    text::parts_are_found(a, "=ERR"@, b);
    if resp@.len() < 4 {
        reveal_strlit("=ERR");
        text::found_parts_are_there(resp@, "=ERR"@, 0);
    }
    if let Err(e) = r {
        assert(e@.skip(e@.len() - resp@.len()) =~= resp@);
    }
}

/// An address that is blank or all zeros is none.
pub proof fn blank_addresses_are_none(ip: &str, r: bool)
    requires
        call_ensures(has_address, (ip,), r),
    ensures
        text::is_blank(ip@) ==> !r,
        ip@ == seq!['0', '.', '0', '.', '0', '.', '0'] ==> !r,
        ip@.len() > 0 && text::is_trimmed(ip@) && ip@[0] != '0' ==> r,
{
    reveal_strlit("0.0.0.0");
    assert("0.0.0.0"@ =~= seq!['0', '.', '0', '.', '0', '.', '0']);
    let e = Seq::<char>::empty();
    if ip@.len() > 0 && text::is_trimmed(ip@) {
        text::trimming_takes_off_white_space(e, ip@, e);
        assert(e + ip@ + e =~= ip@);
    }
    if ip@ == seq!['0', '.', '0', '.', '0', '.', '0'] {
        text::trimming_takes_off_white_space(e, ip@, e);
        assert(e + ip@ + e =~= ip@);
    }
}

/// The value of a reply is what follows its key and the equals sign.
pub proof fn values_follow_their_key(key: &str, v: Seq<char>, resp: &str, r: Option<String>)
    requires
        call_ensures(pjlink_parse_value, (resp, key), r),
    ensures
        resp@ == "%1"@ + key@ + "="@ + v ==> r is Some && (r->0)@ == v,
        r is Some ==> text::begins(resp@, "%1"@ + key@ + "="@),
{
    let lead = "%1"@ + key@ + "="@;
    if resp@ == lead + v {
        assert(resp@.take(lead.len() as int) =~= lead);
        assert(resp@.skip(lead.len() as int) =~= v);
    }
}

/// A projector whose model cannot be asked for has an unknown one, and its report says why.
pub proof fn unknown_models_say_why(ip: &str, error: &str, none: Json, lost: Json)
    requires
        call_ensures(model_without_address, (ip,), none),
        call_ensures(model_unreachable, (ip, error), lost),
    ensures
        none@.get("hasIp"@) == Some(JsonV::Bool(false)) && lost@.get("hasIp"@) == Some(
            JsonV::Bool(true),
        ),
        none@.get("isConnected"@) == Some(JsonV::Bool(false)) && lost@.get("isConnected"@) == Some(
            JsonV::Bool(false),
        ),
        none@.get("model"@) == Some(JsonV::Text("Unknown"@)) && lost@.get("model"@) == Some(
            JsonV::Text("Unknown"@),
        ),
        lost@.get("errorState"@) == Some(JsonV::Text(error@)),
{
    reveal_strlit("ip");
    reveal_strlit("hasIp");
    reveal_strlit("isConnected");
    reveal_strlit("model");
    reveal_strlit("errorState");
    assert("ip"@.len() == 2 && "hasIp"@.len() == 5 && "isConnected"@.len() == 11);
    assert("model"@.len() == 5 && "errorState"@.len() == 10 && "hasIp"@[0] == 'h'
        && "model"@[0] == 'm');
}

} // verus!

//! The web interface for the local network: routes, commands and their parameters.

use vstd::prelude::*;
use vstd::string::*;
use vstd::utf8::*;

use crate::camera;
use crate::json;
use crate::json::{Json, JsonV};
use crate::numerals;
use crate::text;
use crate::ups;

verus! {

/// The port that is tried first, so that the address needs none.
pub const LAN_WEB_PORT_PREFERRED: u16 = 80;

/// The port where the first one is taken.
pub const LAN_WEB_PORT_FALLBACK: u16 = 41778;

// ---------------------------------------------------------------------------
// Parameters
// ---------------------------------------------------------------------------

/// What a parameter is.
#[derive(Clone, Copy, Debug, PartialEq, Eq, Structural)]
pub enum ParamKind {
    Text,
    OptText,
    Bool,
    OptBool,
    /// An unsigned number of which the low 8 bits count.
    Byte,
    OptByte,
    /// An unsigned number of which the low 16 bits count.
    Port,
    OptPort,
    OptWide,
    OptSize,
    /// Any number.
    Real,
    Texts,
    OptTexts,
    OptFlags,
    /// A number that is kept between two bounds.
    OptCount(u8, u8),
    /// Any value; an empty object where there is none.
    Payload,
    OptValues,
}

/// A parameter: what it is, and the one or two keys that it stands under.
pub struct Param {
    pub kind: ParamKind,
    pub key: &'static str,
    pub alias: Option<&'static str>,
}

/// The mathematical value of a [`Param`].
pub struct ParamV {
    pub kind: ParamKind,
    pub keys: Seq<Seq<char>>,
}

impl View for Param {
    type V = ParamV;

    open spec fn view(&self) -> ParamV {
        ParamV {
            kind: self.kind,
            keys: match self.alias {
                Some(a) => seq![self.key@, a@],
                None => seq![self.key@],
            },
        }
    }
}

pub open spec fn key1(kind: ParamKind, key: Seq<char>) -> ParamV {
    ParamV { kind, keys: seq![key] }
}

pub open spec fn key2(kind: ParamKind, key: Seq<char>, alias: Seq<char>) -> ParamV {
    ParamV { kind, keys: seq![key, alias] }
}

fn param1(kind: ParamKind, key: &'static str) -> (r: Param)
    ensures
        r@ == key1(kind, key@),
{
    Param { kind, key, alias: None }
}

fn param2(kind: ParamKind, key: &'static str, alias: &'static str) -> (r: Param)
    ensures
        r@ == key2(kind, key@, alias@),
{
    Param { kind, key, alias: Some(alias) }
}

/// The value of a parameter.
#[derive(Debug, PartialEq)]
pub enum ArgValue {
    Text(String),
    OptText(Option<String>),
    Bool(bool),
    OptBool(Option<bool>),
    Byte(u8),
    OptByte(Option<u8>),
    Port(u16),
    OptPort(Option<u16>),
    OptWide(Option<u64>),
    Real(Json),
    Texts(Vec<String>),
    OptTexts(Option<Vec<String>>),
    OptFlags(Option<Vec<bool>>),
    Value(Json),
    OptValues(Option<Vec<Json>>),
}

/// The mathematical value of an [`ArgValue`].
pub enum ArgV {
    Text(Seq<char>),
    OptText(Option<Seq<char>>),
    Bool(bool),
    OptBool(Option<bool>),
    Byte(u8),
    OptByte(Option<u8>),
    Port(u16),
    OptPort(Option<u16>),
    OptWide(Option<u64>),
    Real(JsonV),
    Texts(Seq<Seq<char>>),
    OptTexts(Option<Seq<Seq<char>>>),
    OptFlags(Option<Seq<bool>>),
    Value(JsonV),
    OptValues(Option<Seq<JsonV>>),
}

pub open spec fn view_texts(o: Option<Vec<String>>) -> Option<Seq<Seq<char>>> {
    match o {
        Some(v) => Some(text::texts(v@)),
        None => None,
    }
}

pub open spec fn view_flags(o: Option<Vec<bool>>) -> Option<Seq<bool>> {
    match o {
        Some(v) => Some(v@),
        None => None,
    }
}

pub open spec fn view_values(o: Option<Vec<Json>>) -> Option<Seq<JsonV>> {
    match o {
        Some(v) => Some(json::list_view(v@)),
        None => None,
    }
}

impl View for ArgValue {
    type V = ArgV;

    open spec fn view(&self) -> ArgV {
        match self {
            ArgValue::Text(s) => ArgV::Text(s@),
            ArgValue::OptText(o) => ArgV::OptText(text::view_option(*o)),
            ArgValue::Bool(b) => ArgV::Bool(*b),
            ArgValue::OptBool(o) => ArgV::OptBool(*o),
            ArgValue::Byte(n) => ArgV::Byte(*n),
            ArgValue::OptByte(o) => ArgV::OptByte(*o),
            ArgValue::Port(n) => ArgV::Port(*n),
            ArgValue::OptPort(o) => ArgV::OptPort(*o),
            ArgValue::OptWide(o) => ArgV::OptWide(*o),
            ArgValue::Real(j) => ArgV::Real(j@),
            ArgValue::Texts(v) => ArgV::Texts(text::texts(v@)),
            ArgValue::OptTexts(o) => ArgV::OptTexts(view_texts(*o)),
            ArgValue::OptFlags(o) => ArgV::OptFlags(view_flags(*o)),
            ArgValue::Value(j) => ArgV::Value(j@),
            ArgValue::OptValues(o) => ArgV::OptValues(view_values(*o)),
        }
    }
}

/// The value under the first of several keys that an object has.
pub open spec fn first_value(args: JsonV, keys: Seq<Seq<char>>) -> Option<JsonV>
    decreases keys.len(),
{
    if keys.len() == 0 {
        None
    } else {
        match first_value(args, keys.drop_last()) {
            Some(v) => Some(v),
            None => args.get(keys.last()),
        }
    }
}

proof fn first_value_of_two(args: JsonV, a: Seq<char>, b: Seq<char>)
    ensures
        first_value(args, seq![a]) == args.get(a),
        first_value(args, seq![a, b]) == match args.get(a) {
            Some(v) => Some(v),
            None => args.get(b),
        },
{
    assert(seq![a].drop_last() =~= Seq::<Seq<char>>::empty());
    assert(seq![a, b].drop_last() =~= seq![a]);
    assert(first_value(args, Seq::<Seq<char>>::empty()) is None);
}

/// The value of a parameter among the arguments of a command.
pub fn arg_value<'a>(args: &'a Json, p: &Param) -> (r: Option<&'a Json>)
    ensures
        json::view_ref(r) == first_value(args@, p@.keys),
{
    proof {
        first_value_of_two(
            args@,
            p.key@,
            match p.alias {
                Some(a) => a@,
                None => p.key@,
            },
        );
    }
    match args.get(p.key) {
        Some(v) => Some(v),
        None => match p.alias {
            Some(a) => args.get(a),
            None => None,
        },
    }
}

/// The texts of a list; what is no text is left out.
pub open spec fn texts_in(list: Seq<JsonV>) -> Seq<Seq<char>>
    decreases list.len(),
{
    if list.len() == 0 {
        Seq::empty()
    } else {
        let before = texts_in(list.drop_last());
        match list.last() {
            JsonV::Text(s) => before.push(s),
            _ => before,
        }
    }
}

/// The truth values of a list; what is none counts as false.
pub open spec fn flags_in(list: Seq<JsonV>) -> Seq<bool> {
    Seq::new(list.len(), |i: int| list[i] == JsonV::Bool(true))
}

fn read_texts(list: &Vec<Json>) -> (r: Vec<String>)
    ensures
        text::texts(r@) == texts_in(json::list_view(list@)),
{
    let ghost all = json::list_view(list@);
    proof {
        json::list_view_index(list@);
    }
    let mut out: Vec<String> = Vec::new();
    let mut i: usize = 0;
    proof {
        assert(text::texts(out@) =~= texts_in(all.take(0)));
    }
    while i < list.len()
        invariant
            i <= list@.len(),
            all.len() == list@.len(),
            forall|j: int| 0 <= j < all.len() ==> #[trigger] all[j] == list@[j]@,
            text::texts(out@) == texts_in(all.take(i as int)),
        decreases list@.len() - i,
    {
        proof {
            assert(all.take(i + 1).drop_last() =~= all.take(i as int));
            assert(all.take(i + 1).last() == all[i as int]);
        }
        if let Some(s) = list[i].as_str() {
            ups::note(&mut out, s.to_owned());
        }
        i += 1;
    }
    proof {
        assert(all.take(i as int) =~= all);
    }
    out
}

fn read_flags(list: &Vec<Json>) -> (r: Vec<bool>)
    ensures
        r@ == flags_in(json::list_view(list@)),
{
    let ghost all = json::list_view(list@);
    proof {
        json::list_view_index(list@);
    }
    let mut out: Vec<bool> = Vec::new();
    let mut i: usize = 0;
    while i < list.len()
        invariant
            i <= list@.len(),
            all.len() == list@.len(),
            forall|j: int| 0 <= j < all.len() ==> #[trigger] all[j] == list@[j]@,
            out@.len() == i,
            forall|j: int| 0 <= j < i ==> #[trigger] out@[j] == (all[j] == JsonV::Bool(true)),
        decreases list@.len() - i,
    {
        proof {
            assert(all[i as int] == list@[i as int]@);
        }
        let b = match list[i].as_bool() {
            Some(b) => b,
            None => false,
        };
        out.push(b);
        i += 1;
    }
    proof {
        assert(out@ =~= flags_in(all));
    }
    out
}

pub open spec fn text_of(v: Option<JsonV>) -> Option<Seq<char>> {
    match v {
        Some(j) => j.as_text(),
        None => None,
    }
}

pub open spec fn bool_of(v: Option<JsonV>) -> Option<bool> {
    match v {
        Some(j) => j.as_bool(),
        None => None,
    }
}

pub open spec fn unsigned_of(v: Option<JsonV>) -> Option<u64> {
    match v {
        Some(j) => j.as_unsigned(),
        None => None,
    }
}

pub open spec fn list_of(v: Option<JsonV>) -> Option<Seq<JsonV>> {
    match v {
        Some(j) => j.as_list(),
        None => None,
    }
}

/// The error of a parameter that is missing.
pub open spec fn missing(kind: Seq<char>, keys: Seq<Seq<char>>) -> Seq<char> {
    "Fehlender "@ + kind + "-Parameter: "@ + text::joined(keys, "/"@)
}

pub open spec fn low_byte(o: Option<u64>) -> Option<u8> {
    match o {
        Some(n) => Some((n % 256) as u8),
        None => None,
    }
}

pub open spec fn low_word(o: Option<u64>) -> Option<u16> {
    match o {
        Some(n) => Some((n % 65536) as u16),
        None => None,
    }
}

pub open spec fn kept_between(n: u64, low: u8, high: u8) -> u8 {
    if n < low {
        low
    } else if n > high {
        high
    } else {
        n as u8
    }
}

/// What the value under the keys of a parameter reads as.
pub open spec fn param_value(p: ParamV, v: Option<JsonV>) -> Result<ArgV, Seq<char>> {
    match p.kind {
        ParamKind::Text => match text_of(v) {
            Some(s) => Ok(ArgV::Text(s)),
            None => Err(missing("String"@, p.keys)),
        },
        ParamKind::OptText => Ok(ArgV::OptText(text_of(v))),
        ParamKind::Bool => match bool_of(v) {
            Some(b) => Ok(ArgV::Bool(b)),
            None => Err(missing("Bool"@, p.keys)),
        },
        ParamKind::OptBool => Ok(ArgV::OptBool(bool_of(v))),
        ParamKind::Byte => match low_byte(unsigned_of(v)) {
            Some(n) => Ok(ArgV::Byte(n)),
            None => Err(missing("u8"@, p.keys)),
        },
        ParamKind::OptByte => Ok(ArgV::OptByte(low_byte(unsigned_of(v)))),
        ParamKind::Port => match low_word(unsigned_of(v)) {
            Some(n) => Ok(ArgV::Port(n)),
            None => Err(missing("u16"@, p.keys)),
        },
        ParamKind::OptPort => Ok(ArgV::OptPort(low_word(unsigned_of(v)))),
        ParamKind::OptWide => Ok(ArgV::OptWide(unsigned_of(v))),
        ParamKind::OptSize => Ok(ArgV::OptWide(unsigned_of(v))),
        ParamKind::Real => match v {
            Some(j) => if j.is_number() {
                Ok(ArgV::Real(j))
            } else {
                Err(missing("f32"@, p.keys))
            },
            None => Err(missing("f32"@, p.keys)),
        },
        ParamKind::Texts => match list_of(v) {
            Some(l) => Ok(ArgV::Texts(texts_in(l))),
            None => Err(missing("Array"@, p.keys)),
        },
        ParamKind::OptTexts => Ok(
            ArgV::OptTexts(
                match list_of(v) {
                    Some(l) => Some(texts_in(l)),
                    None => None,
                },
            ),
        ),
        ParamKind::OptFlags => Ok(
            ArgV::OptFlags(
                match list_of(v) {
                    Some(l) => Some(flags_in(l)),
                    None => None,
                },
            ),
        ),
        ParamKind::OptCount(low, high) => Ok(
            ArgV::OptByte(
                match unsigned_of(v) {
                    Some(n) => Some(kept_between(n, low, high)),
                    None => None,
                },
            ),
        ),
        ParamKind::Payload => Ok(
            ArgV::Value(
                match v {
                    Some(j) => j,
                    None => JsonV::Object(Map::empty()),
                },
            ),
        ),
        ParamKind::OptValues => Ok(ArgV::OptValues(list_of(v))),
    }
}

pub open spec fn view_arg(r: Result<ArgValue, String>) -> Result<ArgV, Seq<char>> {
    match r {
        Ok(a) => Ok(a@),
        Err(e) => Err(e@),
    }
}

fn missing_error(kind: &str, p: &Param) -> (r: String)
    ensures
        r@ == missing(kind@, p@.keys),
{
    let mut keys: Vec<String> = Vec::new();
    ups::note(&mut keys, p.key.to_owned());
    if let Some(a) = p.alias {
        ups::note(&mut keys, a.to_owned());
    }
    proof {
        assert(text::texts(keys@) =~= p@.keys);
    }
    let mut s = text::glue3("Fehlender ", kind, "-Parameter: ");
    s.append(text::join(&keys, "/").as_str());
    s
}

fn as_text(v: Option<&Json>) -> (r: Option<String>)
    ensures
        text::view_option(r) == text_of(json::view_ref(v)),
{
    match v {
        Some(j) => match j.as_str() {
            Some(s) => Some(s.to_owned()),
            None => None,
        },
        None => None,
    }
}

fn as_bool(v: Option<&Json>) -> (r: Option<bool>)
    ensures
        r == bool_of(json::view_ref(v)),
{
    match v {
        Some(j) => j.as_bool(),
        None => None,
    }
}

fn as_unsigned(v: Option<&Json>) -> (r: Option<u64>)
    ensures
        r == unsigned_of(json::view_ref(v)),
{
    match v {
        Some(j) => j.as_u64(),
        None => None,
    }
}

fn as_list<'a>(v: Option<&'a Json>) -> (r: Option<&'a Vec<Json>>)
    ensures
        match r {
            Some(l) => list_of(json::view_ref(v)) == Some(json::list_view(l@)),
            None => list_of(json::view_ref(v)) is None,
        },
{
    match v {
        Some(j) => j.as_array(),
        None => None,
    }
}

fn as_byte(v: Option<&Json>) -> (r: Option<u8>)
    ensures
        r == low_byte(unsigned_of(json::view_ref(v))),
{
    match as_unsigned(v) {
        Some(n) => Some((n % 256) as u8),
        None => None,
    }
}

fn as_word(v: Option<&Json>) -> (r: Option<u16>)
    ensures
        r == low_word(unsigned_of(json::view_ref(v))),
{
    match as_unsigned(v) {
        Some(n) => Some((n % 65536) as u16),
        None => None,
    }
}

fn read_list_param(p: &Param, v: Option<&Json>) -> (r: Result<ArgValue, String>)
    requires
        p.kind == ParamKind::Texts || p.kind == ParamKind::OptTexts || p.kind == ParamKind::OptFlags
            || p.kind == ParamKind::OptValues,
    ensures
        view_arg(r) == param_value(p@, json::view_ref(v)),
{
    let list = as_list(v);
    match p.kind {
        ParamKind::Texts => match list {
            Some(l) => Ok(ArgValue::Texts(read_texts(l))),
            None => Err(missing_error("Array", p)),
        },
        ParamKind::OptTexts => match list {
            Some(l) => Ok(ArgValue::OptTexts(Some(read_texts(l)))),
            None => Ok(ArgValue::OptTexts(None)),
        },
        ParamKind::OptFlags => match list {
            Some(l) => Ok(ArgValue::OptFlags(Some(read_flags(l)))),
            None => Ok(ArgValue::OptFlags(None)),
        },
        _ => match list {
            Some(l) => Ok(ArgValue::OptValues(Some(json::copy_list(l)))),
            None => Ok(ArgValue::OptValues(None)),
        },
    }
}

/// Reads the value under the keys of a parameter.
pub fn read_param(p: &Param, v: Option<&Json>) -> (r: Result<ArgValue, String>)
    ensures
        view_arg(r) == param_value(p@, json::view_ref(v)),
{
    match p.kind {
        ParamKind::Text => match as_text(v) {
            Some(s) => Ok(ArgValue::Text(s)),
            None => Err(missing_error("String", p)),
        },
        ParamKind::OptText => Ok(ArgValue::OptText(as_text(v))),
        ParamKind::Bool => match as_bool(v) {
            Some(b) => Ok(ArgValue::Bool(b)),
            None => Err(missing_error("Bool", p)),
        },
        ParamKind::OptBool => Ok(ArgValue::OptBool(as_bool(v))),
        ParamKind::Byte => match as_byte(v) {
            Some(n) => Ok(ArgValue::Byte(n)),
            None => Err(missing_error("u8", p)),
        },
        ParamKind::OptByte => Ok(ArgValue::OptByte(as_byte(v))),
        ParamKind::Port => match as_word(v) {
            Some(n) => Ok(ArgValue::Port(n)),
            None => Err(missing_error("u16", p)),
        },
        ParamKind::OptPort => Ok(ArgValue::OptPort(as_word(v))),
        ParamKind::OptWide => Ok(ArgValue::OptWide(as_unsigned(v))),
        ParamKind::OptSize => Ok(ArgValue::OptWide(as_unsigned(v))),
        ParamKind::Real => match v {
            Some(j) => match j {
                Json::Unsigned(_) => Ok(ArgValue::Real(j.duplicate())),
                Json::Negative(_) => Ok(ArgValue::Real(j.duplicate())),
                Json::Real(_) => Ok(ArgValue::Real(j.duplicate())),
                _ => Err(missing_error("f32", p)),
            },
            None => Err(missing_error("f32", p)),
        },
        ParamKind::OptCount(low, high) => match as_unsigned(v) {
            Some(n) => {
                let c: u8 = if n < low as u64 {
                    low
                } else if n > high as u64 {
                    high
                } else {
                    n as u8
                };
                Ok(ArgValue::OptByte(Some(c)))
            },
            None => Ok(ArgValue::OptByte(None)),
        },
        ParamKind::Payload => match v {
            Some(j) => Ok(ArgValue::Value(j.duplicate())),
            None => Ok(ArgValue::Value(Json::Object(json::empty_object()))),
        },
        _ => read_list_param(p, v),
    }
}

pub open spec fn params(list: Seq<Param>) -> Seq<ParamV> {
    Seq::new(list.len(), |i: int| list[i]@)
}

/// The values of parameters, in their order; the first one that is missing is the error.
pub open spec fn param_values(list: Seq<ParamV>, args: JsonV) -> Result<Seq<ArgV>, Seq<char>>
    decreases list.len(),
{
    if list.len() == 0 {
        Ok(Seq::empty())
    } else {
        match param_values(list.drop_last(), args) {
            Ok(before) => match param_value(list.last(), first_value(args, list.last().keys)) {
                Ok(v) => Ok(before.push(v)),
                Err(e) => Err(e),
            },
            Err(e) => Err(e),
        }
    }
}

pub open spec fn arg_views(list: Seq<ArgValue>) -> Seq<ArgV> {
    Seq::new(list.len(), |i: int| list[i]@)
}

pub open spec fn view_args(r: Result<Vec<ArgValue>, String>) -> Result<Seq<ArgV>, Seq<char>> {
    match r {
        Ok(v) => Ok(arg_views(v@)),
        Err(e) => Err(e@),
    }
}

proof fn error_persists(list: Seq<ParamV>, args: JsonV, k: int)
    requires
        0 <= k <= list.len(),
        param_values(list.take(k), args) is Err,
    ensures
        param_values(list, args) == param_values(list.take(k), args),
    decreases list.len() - k,
{
    if k < list.len() {
        assert(list.take(k + 1).drop_last() =~= list.take(k));
        error_persists(list, args, k + 1);
    } else {
        assert(list.take(k) =~= list);
    }
}

/// Reads the parameters of a command.
pub fn read_params(list: &Vec<Param>, args: &Json) -> (r: Result<Vec<ArgValue>, String>)
    ensures
        view_args(r) == param_values(params(list@), args@),
{
    let ghost all = params(list@);
    let mut out: Vec<ArgValue> = Vec::new();
    let mut i: usize = 0;
    proof {
        assert(arg_views(out@) =~= Seq::<ArgV>::empty());
    }
    while i < list.len()
        invariant
            i <= list@.len(),
            all == params(list@),
            param_values(all.take(i as int), args@) == Ok::<Seq<ArgV>, Seq<char>>(arg_views(out@)),
        decreases list@.len() - i,
    {
        proof {
            assert(all.take(i + 1).drop_last() =~= all.take(i as int));
            assert(all.take(i + 1).last() == list@[i as int]@);
        }
        match read_param(&list[i], arg_value(args, &list[i])) {
            Ok(v) => {
                let ghost before = out@;
                out.push(v);
                proof {
                    assert(arg_views(out@) =~= arg_views(before).push(v@));
                }
            },
            Err(e) => {
                proof {
                    error_persists(all, args@, i + 1);
                }
                return Err(e);
            },
        }
        i += 1;
    }
    proof {
        assert(all.take(i as int) =~= all);
    }
    Ok(out)
}

// ---------------------------------------------------------------------------
// Commands
// ---------------------------------------------------------------------------

pub const COMMAND_COUNT: usize = 46;

/// The commands: the name of each, whether it needs the running application, and its
/// parameters.
pub open spec fn command_row(i: usize) -> (Seq<char>, bool, Seq<ParamV>) {
    match i {
        0 => ("get_config"@, false, Seq::empty()),
        1 => ("get_server_time_ms"@, false, Seq::empty()),
        2 => (
            "save_site_metadata"@,
            false,
            seq![
                key2(ParamKind::Text, "locationName"@, "location_name"@),
                key2(ParamKind::Text, "anydeskAddress"@, "anydesk_address"@),
            ],
        ),
        3 => (
            "save_hub_config"@,
            false,
            seq![
                key2(ParamKind::Text, "apiUrl"@, "api_url"@),
                key2(ParamKind::Text, "apiToken"@, "api_token"@),
                key2(ParamKind::Text, "projectId"@, "project_id"@),
                key2(ParamKind::Text, "deviceId"@, "device_id"@),
            ],
        ),
        4 => (
            "hub_post_json"@,
            false,
            seq![
                key1(ParamKind::Text, "url"@),
                key2(ParamKind::Text, "apiToken"@, "api_token"@),
                key1(ParamKind::Payload, "payload"@),
            ],
        ),
        5 => ("get_device_health_status"@, false, Seq::empty()),
        6 => ("get_offline_mode_enabled"@, false, Seq::empty()),
        7 => ("set_offline_mode"@, false, seq![key1(ParamKind::Bool, "enabled"@)]),
        8 => ("clear_query_cache"@, false, Seq::empty()),
        9 => ("reset_all_device_failures"@, false, Seq::empty()),
        10 => (
            "save_telegram_config"@,
            false,
            seq![
                key1(ParamKind::Bool, "enabled"@),
                key2(ParamKind::Text, "botToken"@, "bot_token"@),
                key2(ParamKind::Text, "chatId"@, "chat_id"@),
                key2(ParamKind::OptText, "channelId"@, "channel_id"@),
                key2(ParamKind::OptTexts, "alertEvents"@, "alert_events"@),
            ],
        ),
        11 => (
            "telegram_send_test"@,
            false,
            seq![
                key2(ParamKind::Text, "botToken"@, "bot_token"@),
                key2(ParamKind::Text, "chatId"@, "chat_id"@),
            ],
        ),
        12 => (
            "append_app_log"@,
            true,
            seq![
                key1(ParamKind::Text, "level"@),
                key1(ParamKind::Text, "message"@),
                key2(ParamKind::OptWide, "timestampMs"@, "timestamp_ms"@),
            ],
        ),
        13 => (
            "save_ui_state"@,
            false,
            seq![
                key2(ParamKind::OptBool, "demoMode"@, "demo_mode"@),
                key2(ParamKind::OptText, "startupMode"@, "startup_mode"@),
                key2(ParamKind::OptText, "language"@, "lang"@),
                key2(ParamKind::OptText, "cameraViewMode"@, "camera_view_mode"@),
                key2(ParamKind::OptCount(1, 16), "projectorCount"@, "projector_count"@),
                key2(ParamKind::OptCount(0, 2), "pixeraOctoCount"@, "pixera_octo_count"@),
                key2(ParamKind::OptCount(1, 3), "ampCount"@, "amp_count"@),
                key2(ParamKind::OptBool, "interactiveEnabled"@, "interactive_enabled"@),
                key2(
                    ParamKind::OptCount(1, 2),
                    "interactiveScannerCount"@,
                    "interactive_scanner_count"@,
                ),
                key2(ParamKind::OptBool, "emergencySwitchEnabled"@, "emergency_switch_enabled"@),
                key2(ParamKind::OptFlags, "demoAmp1Mutes"@, "demo_amp1_mutes"@),
                key2(ParamKind::OptFlags, "demoAmp2Mutes"@, "demo_amp2_mutes"@),
                key2(ParamKind::OptFlags, "demoAmp3Mutes"@, "demo_amp3_mutes"@),
                key2(ParamKind::OptFlags, "demoProjectorOn"@, "demo_projector_on"@),
                key2(ParamKind::OptFlags, "demoProjectorMute"@, "demo_projector_mute"@),
                key2(ParamKind::OptTexts, "projectorControlStates"@, "projector_control_states"@),
                key2(
                    ParamKind::OptWide,
                    "projectorStatusUpdatedAt"@,
                    "projector_status_updated_at"@,
                ),
            ],
        ),
        14 => ("load_app_logs"@, true, seq![key1(ParamKind::OptSize, "limit"@)]),
        15 => ("open_external_url"@, false, seq![key1(ParamKind::Text, "url"@)]),
        16 => (
            "http_ping"@,
            false,
            seq![
                key1(ParamKind::Text, "ip"@),
                key1(ParamKind::Port, "port"@),
            ],
        ),
        17 => (
            "camera_ptz_command"@,
            false,
            seq![
                key1(ParamKind::Text, "ip"@),
                key1(ParamKind::Text, "command"@),
            ],
        ),
        18 => (
            "camera_snapshot"@,
            true,
            seq![
                key1(ParamKind::Text, "ip"@),
                key1(ParamKind::OptByte, "stream"@),
            ],
        ),
        19 => (
            "camera_stream_frame"@,
            false,
            seq![
                key1(ParamKind::Text, "ip"@),
                key1(ParamKind::OptByte, "stream"@),
            ],
        ),
        20 => (
            "camera_prepare_stream"@,
            true,
            seq![
                key1(ParamKind::Text, "ip"@),
                key1(ParamKind::OptByte, "stream"@),
            ],
        ),
        21 => (
            "camera_restart_stream"@,
            false,
            seq![
                key1(ParamKind::Text, "ip"@),
                key1(ParamKind::OptByte, "stream"@),
            ],
        ),
        22 => (
            "d40_command"@,
            false,
            seq![
                key1(ParamKind::Text, "ip"@),
                key1(ParamKind::Text, "command"@),
            ],
        ),
        23 => ("d40_ping"@, false, seq![key1(ParamKind::Text, "ip"@)]),
        24 => ("d40_status"@, false, seq![key1(ParamKind::Text, "ip"@)]),
        25 => (
            "d40_set_gain"@,
            false,
            seq![
                key1(ParamKind::Text, "ip"@),
                key1(ParamKind::Byte, "channel"@),
                key1(ParamKind::Real, "current"@),
                key1(ParamKind::Real, "target"@),
            ],
        ),
        26 => (
            "send_emergency_notaus_osc"@,
            false,
            seq![
                key2(ParamKind::OptText, "targetIp"@, "target_ip"@),
                key2(ParamKind::OptPort, "targetPort"@, "target_port"@),
            ],
        ),
        27 => ("system_get_battery_status"@, false, Seq::empty()),
        28 => ("ups_get_status"@, false, seq![key1(ParamKind::Text, "ip"@)]),
        29 => ("ups_get_power_mode"@, false, seq![key1(ParamKind::Text, "ip"@)]),
        30 => ("ups_get_diagnostics"@, false, seq![key1(ParamKind::Text, "ip"@)]),
        31 => ("janitza_get_data"@, false, seq![key1(ParamKind::Text, "ip"@)]),
        32 => (
            "poe_switch_get_status"@,
            false,
            seq![
                key1(ParamKind::Text, "ip"@),
                key1(ParamKind::OptText, "community"@),
                key1(ParamKind::OptPort, "port"@),
            ],
        ),
        33 => (
            "rutx50_get_status"@,
            false,
            seq![
                key1(ParamKind::Text, "ip"@),
                key1(ParamKind::OptText, "community"@),
                key1(ParamKind::OptPort, "port"@),
            ],
        ),
        34 => (
            "nas_get_status"@,
            false,
            seq![
                key1(ParamKind::Text, "ip"@),
                key1(ParamKind::OptText, "community"@),
                key1(ParamKind::OptPort, "port"@),
            ],
        ),
        35 => (
            "pjlink_poll_many"@,
            false,
            seq![
                key1(ParamKind::Texts, "ips"@),
                key1(ParamKind::OptText, "password"@),
            ],
        ),
        36 => (
            "pjlink_detect_models"@,
            false,
            seq![
                key1(ParamKind::Texts, "ips"@),
                key1(ParamKind::OptText, "password"@),
            ],
        ),
        37 => (
            "pjlink_set_power"@,
            false,
            seq![
                key1(ParamKind::Text, "ip"@),
                key1(ParamKind::Bool, "on"@),
                key1(ParamKind::OptText, "password"@),
            ],
        ),
        38 => (
            "pjlink_set_shutter"@,
            false,
            seq![
                key1(ParamKind::Text, "ip"@),
                key1(ParamKind::Bool, "muted"@),
                key1(ParamKind::OptText, "password"@),
            ],
        ),
        39 => (
            "pixera_api_request"@,
            false,
            seq![
                key1(ParamKind::Text, "address"@),
                key1(ParamKind::OptValues, "params"@),
                key1(ParamKind::OptText, "host"@),
                key1(ParamKind::OptPort, "port"@),
                key2(ParamKind::OptWide, "timeoutMs"@, "timeout_ms"@),
            ],
        ),
        40 => ("get_next_cue"@, false, Seq::empty()),
        41 => ("get_upcoming_cues"@, false, Seq::empty()),
        42 => ("minimize_window"@, true, Seq::empty()),
        43 => ("toggle_fullscreen"@, true, Seq::empty()),
        44 => ("hide_to_tray"@, true, Seq::empty()),
        _ => ("quit_app"@, true, Seq::empty()),
    }
}

#[verifier::rlimit(60)]
fn command_at(i: usize) -> (r: (&'static str, bool, Vec<Param>))
    ensures
        (r.0@, r.1, params(r.2@)) == command_row(i),
{
    let row: (&'static str, bool, Vec<Param>) = match i {
        0 => ("get_config", false, Vec::new()),
        1 => ("get_server_time_ms", false, Vec::new()),
        2 => (
            "save_site_metadata",
            false,
            vec![
                param2(ParamKind::Text, "locationName", "location_name"),
                param2(ParamKind::Text, "anydeskAddress", "anydesk_address"),
            ],
        ),
        3 => (
            "save_hub_config",
            false,
            vec![
                param2(ParamKind::Text, "apiUrl", "api_url"),
                param2(ParamKind::Text, "apiToken", "api_token"),
                param2(ParamKind::Text, "projectId", "project_id"),
                param2(ParamKind::Text, "deviceId", "device_id"),
            ],
        ),
        4 => (
            "hub_post_json",
            false,
            vec![
                param1(ParamKind::Text, "url"),
                param2(ParamKind::Text, "apiToken", "api_token"),
                param1(ParamKind::Payload, "payload"),
            ],
        ),
        5 => ("get_device_health_status", false, Vec::new()),
        6 => ("get_offline_mode_enabled", false, Vec::new()),
        7 => ("set_offline_mode", false, vec![param1(ParamKind::Bool, "enabled")]),
        8 => ("clear_query_cache", false, Vec::new()),
        9 => ("reset_all_device_failures", false, Vec::new()),
        10 => (
            "save_telegram_config",
            false,
            vec![
                param1(ParamKind::Bool, "enabled"),
                param2(ParamKind::Text, "botToken", "bot_token"),
                param2(ParamKind::Text, "chatId", "chat_id"),
                param2(ParamKind::OptText, "channelId", "channel_id"),
                param2(ParamKind::OptTexts, "alertEvents", "alert_events"),
            ],
        ),
        11 => (
            "telegram_send_test",
            false,
            vec![
                param2(ParamKind::Text, "botToken", "bot_token"),
                param2(ParamKind::Text, "chatId", "chat_id"),
            ],
        ),
        12 => (
            "append_app_log",
            true,
            vec![
                param1(ParamKind::Text, "level"),
                param1(ParamKind::Text, "message"),
                param2(ParamKind::OptWide, "timestampMs", "timestamp_ms"),
            ],
        ),
        13 => (
            "save_ui_state",
            false,
            vec![
                param2(ParamKind::OptBool, "demoMode", "demo_mode"),
                param2(ParamKind::OptText, "startupMode", "startup_mode"),
                param2(ParamKind::OptText, "language", "lang"),
                param2(ParamKind::OptText, "cameraViewMode", "camera_view_mode"),
                param2(ParamKind::OptCount(1, 16), "projectorCount", "projector_count"),
                param2(ParamKind::OptCount(0, 2), "pixeraOctoCount", "pixera_octo_count"),
                param2(ParamKind::OptCount(1, 3), "ampCount", "amp_count"),
                param2(ParamKind::OptBool, "interactiveEnabled", "interactive_enabled"),
                param2(
                    ParamKind::OptCount(1, 2),
                    "interactiveScannerCount",
                    "interactive_scanner_count",
                ),
                param2(ParamKind::OptBool, "emergencySwitchEnabled", "emergency_switch_enabled"),
                param2(ParamKind::OptFlags, "demoAmp1Mutes", "demo_amp1_mutes"),
                param2(ParamKind::OptFlags, "demoAmp2Mutes", "demo_amp2_mutes"),
                param2(ParamKind::OptFlags, "demoAmp3Mutes", "demo_amp3_mutes"),
                param2(ParamKind::OptFlags, "demoProjectorOn", "demo_projector_on"),
                param2(ParamKind::OptFlags, "demoProjectorMute", "demo_projector_mute"),
                param2(ParamKind::OptTexts, "projectorControlStates", "projector_control_states"),
                param2(
                    ParamKind::OptWide,
                    "projectorStatusUpdatedAt",
                    "projector_status_updated_at",
                ),
            ],
        ),
        14 => ("load_app_logs", true, vec![param1(ParamKind::OptSize, "limit")]),
        15 => ("open_external_url", false, vec![param1(ParamKind::Text, "url")]),
        16 => (
            "http_ping",
            false,
            vec![
                param1(ParamKind::Text, "ip"),
                param1(ParamKind::Port, "port"),
            ],
        ),
        17 => (
            "camera_ptz_command",
            false,
            vec![
                param1(ParamKind::Text, "ip"),
                param1(ParamKind::Text, "command"),
            ],
        ),
        18 => (
            "camera_snapshot",
            true,
            vec![
                param1(ParamKind::Text, "ip"),
                param1(ParamKind::OptByte, "stream"),
            ],
        ),
        19 => (
            "camera_stream_frame",
            false,
            vec![
                param1(ParamKind::Text, "ip"),
                param1(ParamKind::OptByte, "stream"),
            ],
        ),
        20 => (
            "camera_prepare_stream",
            true,
            vec![
                param1(ParamKind::Text, "ip"),
                param1(ParamKind::OptByte, "stream"),
            ],
        ),
        21 => (
            "camera_restart_stream",
            false,
            vec![
                param1(ParamKind::Text, "ip"),
                param1(ParamKind::OptByte, "stream"),
            ],
        ),
        22 => (
            "d40_command",
            false,
            vec![
                param1(ParamKind::Text, "ip"),
                param1(ParamKind::Text, "command"),
            ],
        ),
        23 => ("d40_ping", false, vec![param1(ParamKind::Text, "ip")]),
        24 => ("d40_status", false, vec![param1(ParamKind::Text, "ip")]),
        25 => (
            "d40_set_gain",
            false,
            vec![
                param1(ParamKind::Text, "ip"),
                param1(ParamKind::Byte, "channel"),
                param1(ParamKind::Real, "current"),
                param1(ParamKind::Real, "target"),
            ],
        ),
        26 => (
            "send_emergency_notaus_osc",
            false,
            vec![
                param2(ParamKind::OptText, "targetIp", "target_ip"),
                param2(ParamKind::OptPort, "targetPort", "target_port"),
            ],
        ),
        27 => ("system_get_battery_status", false, Vec::new()),
        28 => ("ups_get_status", false, vec![param1(ParamKind::Text, "ip")]),
        29 => ("ups_get_power_mode", false, vec![param1(ParamKind::Text, "ip")]),
        30 => ("ups_get_diagnostics", false, vec![param1(ParamKind::Text, "ip")]),
        31 => ("janitza_get_data", false, vec![param1(ParamKind::Text, "ip")]),
        32 => (
            "poe_switch_get_status",
            false,
            vec![
                param1(ParamKind::Text, "ip"),
                param1(ParamKind::OptText, "community"),
                param1(ParamKind::OptPort, "port"),
            ],
        ),
        33 => (
            "rutx50_get_status",
            false,
            vec![
                param1(ParamKind::Text, "ip"),
                param1(ParamKind::OptText, "community"),
                param1(ParamKind::OptPort, "port"),
            ],
        ),
        34 => (
            "nas_get_status",
            false,
            vec![
                param1(ParamKind::Text, "ip"),
                param1(ParamKind::OptText, "community"),
                param1(ParamKind::OptPort, "port"),
            ],
        ),
        35 => (
            "pjlink_poll_many",
            false,
            vec![
                param1(ParamKind::Texts, "ips"),
                param1(ParamKind::OptText, "password"),
            ],
        ),
        36 => (
            "pjlink_detect_models",
            false,
            vec![
                param1(ParamKind::Texts, "ips"),
                param1(ParamKind::OptText, "password"),
            ],
        ),
        37 => (
            "pjlink_set_power",
            false,
            vec![
                param1(ParamKind::Text, "ip"),
                param1(ParamKind::Bool, "on"),
                param1(ParamKind::OptText, "password"),
            ],
        ),
        38 => (
            "pjlink_set_shutter",
            false,
            vec![
                param1(ParamKind::Text, "ip"),
                param1(ParamKind::Bool, "muted"),
                param1(ParamKind::OptText, "password"),
            ],
        ),
        39 => (
            "pixera_api_request",
            false,
            vec![
                param1(ParamKind::Text, "address"),
                param1(ParamKind::OptValues, "params"),
                param1(ParamKind::OptText, "host"),
                param1(ParamKind::OptPort, "port"),
                param2(ParamKind::OptWide, "timeoutMs", "timeout_ms"),
            ],
        ),
        40 => ("get_next_cue", false, Vec::new()),
        41 => ("get_upcoming_cues", false, Vec::new()),
        42 => ("minimize_window", true, Vec::new()),
        43 => ("toggle_fullscreen", true, Vec::new()),
        44 => ("hide_to_tray", true, Vec::new()),
        _ => ("quit_app", true, Vec::new()),
    };
    proof {
        assert(params(row.2@) =~= command_row(i).2);
    }
    row
}

/// The first row from `i` on with a name.
pub open spec fn command_from(cmd: Seq<char>, i: usize) -> Option<usize>
    decreases COMMAND_COUNT - i,
{
    if i >= COMMAND_COUNT {
        None
    } else if command_row(i).0 == cmd {
        Some(i)
    } else {
        command_from(cmd, (i + 1) as usize)
    }
}

/// A command with the values of its parameters.
#[derive(Debug, PartialEq)]
pub struct Call {
    pub name: &'static str,
    pub args: Vec<ArgValue>,
}

pub open spec fn view_call(r: Result<Call, String>) -> Result<(Seq<char>, Seq<ArgV>), Seq<char>> {
    match r {
        Ok(c) => Ok((c.name@, arg_views(c.args@))),
        Err(e) => Err(e@),
    }
}

/// What a command and its arguments come down to: an error where the command is not known,
/// where it needs an application that is not there yet, or where a parameter is missing.
pub open spec fn call_of(cmd: Seq<char>, args: JsonV, app_ready: bool) -> Result<
    (Seq<char>, Seq<ArgV>),
    Seq<char>,
> {
    match command_from(cmd, 0) {
        Some(i) => if command_row(i).1 && !app_ready {
            Err("AppHandle ist nicht initialisiert"@)
        } else {
            match param_values(command_row(i).2, args) {
                Ok(values) => Ok((cmd, values)),
                Err(e) => Err(e),
            }
        },
        None => Err("Unbekannter Invoke-Command: "@ + cmd),
    }
}

/// Works out what a command and its arguments come down to.
pub fn remote_invoke_dispatch(cmd: &str, args: &Json, app_ready: bool) -> (r: Result<Call, String>)
    ensures
        view_call(r) == call_of(cmd@, args@, app_ready),
{
    let mut i: usize = 0;
    while i < COMMAND_COUNT
        invariant
            i <= COMMAND_COUNT,
            command_from(cmd@, 0) == command_from(cmd@, i),
        decreases COMMAND_COUNT - i,
    {
        let (name, needs_app, list) = command_at(i);
        if text::same(name, cmd) {
            if needs_app && !app_ready {
                return Err("AppHandle ist nicht initialisiert".to_owned());
            }
            return match read_params(&list, args) {
                Ok(values) => Ok(Call { name, args: values }),
                Err(e) => Err(e),
            };
        }
        i += 1;
    }
    Err(text::glue("Unbekannter Invoke-Command: ", cmd))
}

/// The search for a command finds the first row with its name, and fails only where no row has
/// it: every command of the table can be called, and no other.
pub proof fn search_is_exact(cmd: Seq<char>, i: usize)
    requires
        i <= COMMAND_COUNT,
    ensures
        match command_from(cmd, i) {
            Some(k) => i <= k < COMMAND_COUNT && command_row(k).0 == cmd && forall|j: usize|
                i <= j < k ==> #[trigger] command_row(j).0 != cmd,
            None => forall|j: usize|
                i <= j < COMMAND_COUNT ==> #[trigger] command_row(j).0 != cmd,
        },
    decreases COMMAND_COUNT - i,
{
    if i < COMMAND_COUNT && command_row(i).0 != cmd {
        search_is_exact(cmd, (i + 1) as usize);
    }
}

/// A count that is read lies between its bounds.
pub proof fn counts_stay_between_their_bounds(low: u8, high: u8, keys: Seq<Seq<char>>, v: Option<JsonV>)
    requires
        low <= high,
    ensures
        match param_value(ParamV { kind: ParamKind::OptCount(low, high), keys }, v) {
            Ok(ArgV::OptByte(Some(n))) => low <= n <= high,
            Ok(ArgV::OptByte(None)) => unsigned_of(v) is None,
            _ => false,
        },
{
}

/// A call that is made has as many values as the command has parameters.
pub proof fn calls_are_complete(list: Seq<ParamV>, args: JsonV)
    requires
        param_values(list, args) is Ok,
    ensures
        (param_values(list, args)->Ok_0).len() == list.len(),
    decreases list.len(),
{
    if list.len() > 0 {
        calls_are_complete(list.drop_last(), args);
    }
}

// ---------------------------------------------------------------------------
// Routes
// ---------------------------------------------------------------------------

/// The method of a request.
#[derive(Clone, Copy, Debug, PartialEq, Eq, Structural)]
pub enum WebMethod {
    Get,
    Options,
    Post,
    Other,
}

/// What a request is for.
#[derive(Clone, Copy, Debug, PartialEq, Eq, Structural)]
pub enum Route {
    Index,
    /// The script with the helper functions.
    Utils,
    /// The script that stands in for the desktop bridge.
    Bridge,
    Favicon,
    /// The question of a browser whether it may call commands.
    Preflight,
    Invoke,
    Health,
    NotFound,
}

/// What a request is for, by its method and its path, which ends at the first question mark.
pub open spec fn route_of(method: WebMethod, url: Seq<char>) -> Route {
    let path = text::before_first(url, "?"@);
    match method {
        WebMethod::Get => if path == "/"@ || path == "/index.html"@ {
            Route::Index
        } else if path == "/js/utils.js"@ {
            Route::Utils
        } else if path == "/js/tauri-bridge.js"@ {
            Route::Bridge
        } else if path == "/favicon.ico"@ || path == "/icon.ico"@ {
            Route::Favicon
        } else if path == "/api/health"@ {
            Route::Health
        } else {
            Route::NotFound
        },
        WebMethod::Options => if path == "/api/invoke"@ {
            Route::Preflight
        } else {
            Route::NotFound
        },
        WebMethod::Post => if path == "/api/invoke"@ {
            Route::Invoke
        } else {
            Route::NotFound
        },
        WebMethod::Other => Route::NotFound,
    }
}

/// Tells what a request is for.
pub fn route_request(method: WebMethod, url: &str) -> (r: Route)
    ensures
        r == route_of(method, url@),
{
    let whole = text::head_before(url, "?");
    let path = whole.as_str();
    match method {
        WebMethod::Get => if text::same(path, "/") || text::same(path, "/index.html") {
            Route::Index
        } else if text::same(path, "/js/utils.js") {
            Route::Utils
        } else if text::same(path, "/js/tauri-bridge.js") {
            Route::Bridge
        } else if text::same(path, "/favicon.ico") || text::same(path, "/icon.ico") {
            Route::Favicon
        } else if text::same(path, "/api/health") {
            Route::Health
        } else {
            Route::NotFound
        },
        WebMethod::Options => if text::same(path, "/api/invoke") {
            Route::Preflight
        } else {
            Route::NotFound
        },
        WebMethod::Post => if text::same(path, "/api/invoke") {
            Route::Invoke
        } else {
            Route::NotFound
        },
        WebMethod::Other => Route::NotFound,
    }
}

/// The content type of what a route serves from a file.
pub fn content_type(route: Route) -> (r: &'static str)
    ensures
        r@ == match route {
            Route::Index => "text/html; charset=utf-8"@,
            Route::Utils => "application/javascript; charset=utf-8"@,
            Route::Bridge => "application/javascript; charset=utf-8"@,
            Route::Favicon => "image/x-icon"@,
            _ => "application/json; charset=utf-8"@,
        },
{
    match route {
        Route::Index => "text/html; charset=utf-8",
        Route::Utils => "application/javascript; charset=utf-8",
        Route::Bridge => "application/javascript; charset=utf-8",
        Route::Favicon => "image/x-icon",
        _ => "application/json; charset=utf-8",
    }
}

pub const MAX_INVOKE_BODY_BYTES: usize = 1_048_576;

/// A status and a message.
#[derive(Debug, PartialEq)]
pub struct Refusal {
    pub status: u16,
    pub error: &'static str,
}

pub open spec fn view_refusal(r: Refusal) -> (u16, Seq<char>) {
    (r.status, r.error@)
}

/// How many bytes of a body are read: as many as are announced, up to a mebibyte. A body of
/// unknown length is not read at all.
pub fn invoke_body_len(announced: Option<usize>) -> (r: Result<usize, Refusal>)
    ensures
        match (r, announced) {
            (Ok(n), Some(len)) => n == len && len <= MAX_INVOKE_BODY_BYTES,
            (Err(e), Some(len)) => len > MAX_INVOKE_BODY_BYTES && view_refusal(e) == (
                413u16,
                "Request-Body zu groß"@,
            ),
            (Err(e), None) => view_refusal(e) == (411u16, "Content-Length erforderlich"@),
            _ => false,
        },
{
    match announced {
        Some(len) => if len > MAX_INVOKE_BODY_BYTES {
            Err(Refusal { status: 413, error: "Request-Body zu groß" })
        } else {
            Ok(len)
        },
        None => Err(Refusal { status: 411, error: "Content-Length erforderlich" }),
    }
}

/// The refusal of a body that breaks off.
pub fn broken_body() -> (r: Refusal)
    ensures
        view_refusal(r) == (400u16, "Ungültiger Request-Body"@),
{
    Refusal { status: 400, error: "Ungültiger Request-Body" }
}

/// The command and the arguments in a body that was read as JSON.
pub open spec fn invocation(payload: JsonV) -> Result<(Seq<char>, JsonV), (u16, Seq<char>)> {
    let cmd = match json::text_at(payload, "cmd"@) {
        Some(s) => s,
        None => Seq::empty(),
    };
    if cmd.len() == 0 {
        Err((400u16, "Fehlender cmd-Parameter"@))
    } else {
        Ok(
            (
                cmd,
                match payload.get("args"@) {
                    Some(a) => a,
                    None => JsonV::Object(Map::empty()),
                },
            ),
        )
    }
}

pub open spec fn view_invocation(r: Result<(String, Json), Refusal>) -> Result<
    (Seq<char>, JsonV),
    (u16, Seq<char>),
> {
    match r {
        Ok((cmd, args)) => Ok((cmd@, args@)),
        Err(e) => Err(view_refusal(e)),
    }
}

/// Finds the command and the arguments in a body, given what came of reading it as JSON.
pub fn invocation_in(parsed: Result<Json, String>) -> (r: Result<(String, Json), Refusal>)
    ensures
        view_invocation(r) == match json::view_result(parsed) {
            Ok(payload) => invocation(payload),
            Err(_) => Err((400u16, "Ungültiges JSON"@)),
        },
{
    let payload = match parsed {
        Ok(p) => p,
        Err(_) => {
            return Err(Refusal { status: 400, error: "Ungültiges JSON" });
        },
    };
    let cmd = match payload.text_field("cmd") {
        Some(s) => s.to_owned(),
        None => String::new(),
    };
    if cmd.as_str().is_empty() {
        return Err(Refusal { status: 400, error: "Fehlender cmd-Parameter" });
    }
    let args = match payload.get("args") {
        Some(a) => a.duplicate(),
        None => Json::Object(json::empty_object()),
    };
    Ok((cmd, args))
}

/// Reads the body of a request that calls a command.
pub fn read_invocation(body: Vec<u8>) -> (r: Result<(String, Json), Refusal>)
    ensures
        view_invocation(r) == if !valid_utf8(body@) {
            Err((400u16, "Request-Body muss UTF-8 sein"@))
        } else {
            match json::json_of_text(decode_utf8(body@)) {
                Ok(payload) => invocation(payload),
                Err(_) => Err((400u16, "Ungültiges JSON"@)),
            }
        },
{
    match numerals::utf8_text(body) {
        Ok(s) => invocation_in(json::parse_json(s.as_str())),
        Err(_) => Err(Refusal { status: 400, error: "Request-Body muss UTF-8 sein" }),
    }
}

/// The answer to a command that failed.
pub open spec fn error_json(error: Seq<char>) -> JsonV {
    JsonV::Object(
        Map::<Seq<char>, JsonV>::empty().insert("ok"@, JsonV::Bool(false)).insert(
            "error"@,
            JsonV::Text(error),
        ),
    )
}

pub fn error_reply(error: &str) -> (r: Json)
    ensures
        r@ == error_json(error@),
{
    let mut m = json::empty_object();
    json::put(&mut m, "ok", Json::Bool(false));
    json::put(&mut m, "error", json::text(error));
    Json::Object(m)
}

/// The status and the answer to a command: 200 with its data, or 500 with its error.
pub fn invoke_reply(outcome: Result<Json, String>) -> (r: (u16, Json))
    ensures
        (r.0, r.1@) == match json::view_result(outcome) {
            Ok(data) => (
                200u16,
                JsonV::Object(
                    Map::<Seq<char>, JsonV>::empty().insert("ok"@, JsonV::Bool(true)).insert(
                        "data"@,
                        data,
                    ),
                ),
            ),
            Err(e) => (500u16, error_json(e)),
        },
{
    match outcome {
        Ok(data) => {
            let mut m = json::empty_object();
            json::put(&mut m, "ok", Json::Bool(true));
            json::put(&mut m, "data", data);
            (200, Json::Object(m))
        },
        Err(e) => (500, error_reply(e.as_str())),
    }
}

/// The answer to a question for the state of the server. `port` is the port that it listens
/// at, if that is known.
pub fn health_reply(port: Option<u16>) -> (r: Json)
    ensures
        r@ == JsonV::Object(
            Map::<Seq<char>, JsonV>::empty().insert("ok"@, JsonV::Bool(true)).insert(
                "mode"@,
                JsonV::Text("lan-webgui"@),
            ).insert(
                "port"@,
                JsonV::Unsigned(
                    match port {
                        Some(p) => p as u64,
                        None => LAN_WEB_PORT_FALLBACK as u64,
                    },
                ),
            ).insert("camera_port"@, JsonV::Unsigned(camera::CAMERA_MJPEG_PORT as u64)),
        ),
{
    let p: u16 = match port {
        Some(p) => p,
        None => LAN_WEB_PORT_FALLBACK,
    };
    let mut m = json::empty_object();
    json::put(&mut m, "ok", Json::Bool(true));
    json::put(&mut m, "mode", json::text("lan-webgui"));
    json::put(&mut m, "port", Json::Unsigned(p as u64));
    json::put(&mut m, "camera_port", Json::Unsigned(camera::CAMERA_MJPEG_PORT as u64));
    Json::Object(m)
}

// ---------------------------------------------------------------------------
// What commands do
// ---------------------------------------------------------------------------

/// A number by which the names of the commands are told apart.
spec fn command_mark(name: Seq<char>) -> int {
    (name.len() * 128 + name[name.len() - 8] as int) * 128 + name[1] as int
}

spec fn command_mark_at(i: usize) -> int {
    match i {
        0 => 178789,
        1 => 307173,
        2 => 308961,
        3 => 258401,
        4 => 227317,
        5 => 406629,
        6 => 405477,
        7 => 275685,
        8 => 293228,
        9 => 422757,
        10 => 341729,
        11 => 307941,
        12 => 241648,
        13 => 228065,
        14 => 225519,
        15 => 293232,
        16 => 162420,
        17 => 307169,
        18 => 260577,
        19 => 323809,
        20 => 357089,
        21 => 359009,
        22 => 192436,
        23 => 143924,
        24 => 170036,
        25 => 211380,
        26 => 424549,
        27 => 425209,
        28 => 244336,
        29 => 310256,
        30 => 324592,
        31 => 275425,
        32 => 359023,
        33 => 293493,
        34 => 244321,
        35 => 276458,
        36 => 342634,
        37 => 275178,
        38 => 307178,
        39 => 307177,
        40 => 210789,
        41 => 292069,
        42 => 258793,
        43 => 292463,
        44 => 208873,
        _ => 145653,
    }
}

proof fn command_marks_are_right(i: usize)
    requires
        i < COMMAND_COUNT,
    ensures
        command_mark(command_row(i).0) == command_mark_at(i),
{
    match i {
        0 => {
            reveal_strlit("get_config");
        },
        1 => {
            reveal_strlit("get_server_time_ms");
        },
        2 => {
            reveal_strlit("save_site_metadata");
        },
        3 => {
            reveal_strlit("save_hub_config");
        },
        4 => {
            reveal_strlit("hub_post_json");
        },
        5 => {
            reveal_strlit("get_device_health_status");
        },
        6 => {
            reveal_strlit("get_offline_mode_enabled");
        },
        7 => {
            reveal_strlit("set_offline_mode");
        },
        8 => {
            reveal_strlit("clear_query_cache");
        },
        9 => {
            reveal_strlit("reset_all_device_failures");
        },
        10 => {
            reveal_strlit("save_telegram_config");
        },
        11 => {
            reveal_strlit("telegram_send_test");
        },
        12 => {
            reveal_strlit("append_app_log");
        },
        13 => {
            reveal_strlit("save_ui_state");
        },
        14 => {
            reveal_strlit("load_app_logs");
        },
        15 => {
            reveal_strlit("open_external_url");
        },
        16 => {
            reveal_strlit("http_ping");
        },
        17 => {
            reveal_strlit("camera_ptz_command");
        },
        18 => {
            reveal_strlit("camera_snapshot");
        },
        19 => {
            reveal_strlit("camera_stream_frame");
        },
        20 => {
            reveal_strlit("camera_prepare_stream");
        },
        21 => {
            reveal_strlit("camera_restart_stream");
        },
        22 => {
            reveal_strlit("d40_command");
        },
        23 => {
            reveal_strlit("d40_ping");
        },
        24 => {
            reveal_strlit("d40_status");
        },
        25 => {
            reveal_strlit("d40_set_gain");
        },
        26 => {
            reveal_strlit("send_emergency_notaus_osc");
        },
        27 => {
            reveal_strlit("system_get_battery_status");
        },
        28 => {
            reveal_strlit("ups_get_status");
        },
        29 => {
            reveal_strlit("ups_get_power_mode");
        },
        30 => {
            reveal_strlit("ups_get_diagnostics");
        },
        31 => {
            reveal_strlit("janitza_get_data");
        },
        32 => {
            reveal_strlit("poe_switch_get_status");
        },
        33 => {
            reveal_strlit("rutx50_get_status");
        },
        34 => {
            reveal_strlit("nas_get_status");
        },
        35 => {
            reveal_strlit("pjlink_poll_many");
        },
        36 => {
            reveal_strlit("pjlink_detect_models");
        },
        37 => {
            reveal_strlit("pjlink_set_power");
        },
        38 => {
            reveal_strlit("pjlink_set_shutter");
        },
        39 => {
            reveal_strlit("pixera_api_request");
        },
        40 => {
            reveal_strlit("get_next_cue");
        },
        41 => {
            reveal_strlit("get_upcoming_cues");
        },
        42 => {
            reveal_strlit("minimize_window");
        },
        43 => {
            reveal_strlit("toggle_fullscreen");
        },
        44 => {
            reveal_strlit("hide_to_tray");
        },
        _ => {
            reveal_strlit("quit_app");
        },
    }
}

proof fn command_marks_are_distinct(i: usize, j: usize)
    requires
        i < j < COMMAND_COUNT,
    ensures
        command_mark_at(i) != command_mark_at(j),
{
}

/// Every command of the table is found under its name, at its own place.
pub proof fn commands_have_names_of_their_own(i: usize)
    requires
        i < COMMAND_COUNT,
    ensures
        command_from(command_row(i).0, 0) == Some(i),
{
    let name = command_row(i).0;
    search_is_exact(name, 0);
    assert(command_row(i).0 == name);
    let k = command_from(name, 0)->0;
    if k != i {
        command_marks_are_right(i);
        command_marks_are_right(k);
        command_marks_are_distinct(k, i);
    }
}

/// Every value of a call is read under the keys of its own parameter, and a call is made
/// exactly where every parameter can be read.
pub proof fn values_belong_to_their_parameters(list: Seq<ParamV>, args: JsonV, i: int)
    requires
        0 <= i < list.len(),
    ensures
        match param_values(list, args) {
            Ok(values) => values.len() == list.len() && param_value(
                list[i],
                first_value(args, list[i].keys),
            ) == Ok::<ArgV, Seq<char>>(values[i]),
            Err(_) => exists|j: int|
                0 <= j < list.len() && #[trigger] param_value(
                    list[j],
                    first_value(args, list[j].keys),
                ) is Err,
        },
    decreases list.len(),
{
    let last = list.len() - 1;
    let before = list.drop_last();
    if before.len() > 0 {
        values_belong_to_their_parameters(before, args, if i < last {
            i
        } else {
            0
        });
        if param_values(before, args) is Err {
            let j = choose|j: int|
                0 <= j < before.len() && #[trigger] param_value(
                    before[j],
                    first_value(args, before[j].keys),
                ) is Err;
            assert(list[j] == before[j]);
            assert(param_value(list[j], first_value(args, list[j].keys)) is Err);
        }
    } else {
        assert(before =~= Seq::<ParamV>::empty());
    }
    if param_values(before, args) is Ok {
        assert(list[last] == list.last());
        if i < last {
            assert(before[i] == list[i]);
        }
    }
}

/// The value under a key, or where there is none, under another.
pub open spec fn under_either(args: JsonV, key: Seq<char>, alias: Seq<char>) -> Option<JsonV> {
    match args.get(key) {
        Some(v) => Some(v),
        None => args.get(alias),
    }
}

/// Commands of a device take its address, and what else they need beside it.
#[verifier::rlimit(60)]
pub proof fn device_commands_take_an_address(
    cmd: &str,
    args: &Json,
    app_ready: bool,
    r: Result<Call, String>,
)
    requires
        call_ensures(remote_invoke_dispatch, (cmd, args, app_ready), r),
    ensures
        cmd@ == "http_ping"@ ==> (r is Ok <==> text_of(args@.get("ip"@)) is Some
            && unsigned_of(args@.get("port"@)) is Some),
        cmd@ == "http_ping"@ && r is Ok ==> (r->Ok_0).name@ == cmd@ && (r->Ok_0).args@.len() == 2,
        cmd@ == "http_ping"@ && r is Ok
            ==> (r->Ok_0).args@[0]@ == ArgV::Text(text_of(args@.get("ip"@))->0),
        cmd@ == "http_ping"@ && r is Ok
            ==> (r->Ok_0).args@[1]@ == ArgV::Port(((unsigned_of(args@.get("port"@))->0) % 65536) as u16),
        cmd@ == "camera_ptz_command"@ ==> (r is Ok <==> text_of(args@.get("ip"@)) is Some
            && text_of(args@.get("command"@)) is Some),
        cmd@ == "camera_ptz_command"@ && r is Ok ==> (r->Ok_0).name@ == cmd@
            && (r->Ok_0).args@.len() == 2,
        cmd@ == "camera_ptz_command"@ && r is Ok
            ==> (r->Ok_0).args@[0]@ == ArgV::Text(text_of(args@.get("ip"@))->0),
        cmd@ == "camera_ptz_command"@ && r is Ok
            ==> (r->Ok_0).args@[1]@ == ArgV::Text(text_of(args@.get("command"@))->0),
        cmd@ == "d40_command"@ ==> (r is Ok <==> text_of(args@.get("ip"@)) is Some
            && text_of(args@.get("command"@)) is Some),
        cmd@ == "d40_command"@ && r is Ok ==> (r->Ok_0).name@ == cmd@ && (r->Ok_0).args@.len() == 2,
        cmd@ == "d40_command"@ && r is Ok
            ==> (r->Ok_0).args@[0]@ == ArgV::Text(text_of(args@.get("ip"@))->0),
        cmd@ == "d40_command"@ && r is Ok
            ==> (r->Ok_0).args@[1]@ == ArgV::Text(text_of(args@.get("command"@))->0),
        cmd@ == "d40_ping"@ ==> (r is Ok <==> text_of(args@.get("ip"@)) is Some),
        cmd@ == "d40_ping"@ && r is Ok ==> (r->Ok_0).name@ == cmd@ && (r->Ok_0).args@.len() == 1,
        cmd@ == "d40_ping"@ && r is Ok
            ==> (r->Ok_0).args@[0]@ == ArgV::Text(text_of(args@.get("ip"@))->0),
        cmd@ == "d40_status"@ ==> (r is Ok <==> text_of(args@.get("ip"@)) is Some),
        cmd@ == "d40_status"@ && r is Ok ==> (r->Ok_0).name@ == cmd@ && (r->Ok_0).args@.len() == 1,
        cmd@ == "d40_status"@ && r is Ok
            ==> (r->Ok_0).args@[0]@ == ArgV::Text(text_of(args@.get("ip"@))->0),
        cmd@ == "d40_set_gain"@ ==> (r is Ok <==> text_of(args@.get("ip"@)) is Some
            && unsigned_of(args@.get("channel"@)) is Some && (args@.get("current"@) is Some
            && (args@.get("current"@)->0).is_number()) && (args@.get("target"@) is Some
            && (args@.get("target"@)->0).is_number())),
        cmd@ == "d40_set_gain"@ && r is Ok ==> (r->Ok_0).name@ == cmd@
            && (r->Ok_0).args@.len() == 4,
        cmd@ == "d40_set_gain"@ && r is Ok
            ==> (r->Ok_0).args@[0]@ == ArgV::Text(text_of(args@.get("ip"@))->0),
        cmd@ == "d40_set_gain"@ && r is Ok
            ==> (r->Ok_0).args@[1]@ == ArgV::Byte(((unsigned_of(args@.get("channel"@))->0) % 256) as u8),
        cmd@ == "d40_set_gain"@ && r is Ok
            ==> (r->Ok_0).args@[2]@ == ArgV::Real(args@.get("current"@)->0),
        cmd@ == "d40_set_gain"@ && r is Ok
            ==> (r->Ok_0).args@[3]@ == ArgV::Real(args@.get("target"@)->0),
{
    if cmd@ == "http_ping"@ {
        commands_have_names_of_their_own(16);
        let list = command_row(16).2;
        values_belong_to_their_parameters(list, args@, 0);
        first_value_of_two(args@, "ip"@, "ip"@);
        assert(list[0].keys == seq!["ip"@]);
        values_belong_to_their_parameters(list, args@, 1);
        first_value_of_two(args@, "port"@, "port"@);
        assert(list[1].keys == seq!["port"@]);
        if r is Ok {
            let values = arg_views((r->Ok_0).args@);
            assert(values[0] == (r->Ok_0).args@[0]@);
            assert(values[1] == (r->Ok_0).args@[1]@);
        }
    }
    if cmd@ == "camera_ptz_command"@ {
        commands_have_names_of_their_own(17);
        let list = command_row(17).2;
        values_belong_to_their_parameters(list, args@, 0);
        first_value_of_two(args@, "ip"@, "ip"@);
        assert(list[0].keys == seq!["ip"@]);
        values_belong_to_their_parameters(list, args@, 1);
        first_value_of_two(args@, "command"@, "command"@);
        assert(list[1].keys == seq!["command"@]);
        if r is Ok {
            let values = arg_views((r->Ok_0).args@);
            assert(values[0] == (r->Ok_0).args@[0]@);
            assert(values[1] == (r->Ok_0).args@[1]@);
        }
    }
    if cmd@ == "d40_command"@ {
        commands_have_names_of_their_own(22);
        let list = command_row(22).2;
        values_belong_to_their_parameters(list, args@, 0);
        first_value_of_two(args@, "ip"@, "ip"@);
        assert(list[0].keys == seq!["ip"@]);
        values_belong_to_their_parameters(list, args@, 1);
        first_value_of_two(args@, "command"@, "command"@);
        assert(list[1].keys == seq!["command"@]);
        if r is Ok {
            let values = arg_views((r->Ok_0).args@);
            assert(values[0] == (r->Ok_0).args@[0]@);
            assert(values[1] == (r->Ok_0).args@[1]@);
        }
    }
    if cmd@ == "d40_ping"@ {
        commands_have_names_of_their_own(23);
        let list = command_row(23).2;
        values_belong_to_their_parameters(list, args@, 0);
        first_value_of_two(args@, "ip"@, "ip"@);
        assert(list[0].keys == seq!["ip"@]);
        if r is Ok {
            let values = arg_views((r->Ok_0).args@);
            assert(values[0] == (r->Ok_0).args@[0]@);
        }
    }
    if cmd@ == "d40_status"@ {
        commands_have_names_of_their_own(24);
        let list = command_row(24).2;
        values_belong_to_their_parameters(list, args@, 0);
        first_value_of_two(args@, "ip"@, "ip"@);
        assert(list[0].keys == seq!["ip"@]);
        if r is Ok {
            let values = arg_views((r->Ok_0).args@);
            assert(values[0] == (r->Ok_0).args@[0]@);
        }
    }
    if cmd@ == "d40_set_gain"@ {
        commands_have_names_of_their_own(25);
        let list = command_row(25).2;
        values_belong_to_their_parameters(list, args@, 0);
        first_value_of_two(args@, "ip"@, "ip"@);
        assert(list[0].keys == seq!["ip"@]);
        values_belong_to_their_parameters(list, args@, 1);
        first_value_of_two(args@, "channel"@, "channel"@);
        assert(list[1].keys == seq!["channel"@]);
        values_belong_to_their_parameters(list, args@, 2);
        first_value_of_two(args@, "current"@, "current"@);
        assert(list[2].keys == seq!["current"@]);
        values_belong_to_their_parameters(list, args@, 3);
        first_value_of_two(args@, "target"@, "target"@);
        assert(list[3].keys == seq!["target"@]);
        if r is Ok {
            let values = arg_views((r->Ok_0).args@);
            assert(values[0] == (r->Ok_0).args@[0]@);
            assert(values[1] == (r->Ok_0).args@[1]@);
            assert(values[2] == (r->Ok_0).args@[2]@);
            assert(values[3] == (r->Ok_0).args@[3]@);
        }
    }
}

/// Commands of the power supply take the address of the device.
#[verifier::rlimit(60)]
pub proof fn power_commands_take_an_address(
    cmd: &str,
    args: &Json,
    app_ready: bool,
    r: Result<Call, String>,
)
    requires
        call_ensures(remote_invoke_dispatch, (cmd, args, app_ready), r),
    ensures
        cmd@ == "ups_get_status"@ ==> (r is Ok <==> text_of(args@.get("ip"@)) is Some),
        cmd@ == "ups_get_status"@ && r is Ok ==> (r->Ok_0).name@ == cmd@
            && (r->Ok_0).args@.len() == 1,
        cmd@ == "ups_get_status"@ && r is Ok
            ==> (r->Ok_0).args@[0]@ == ArgV::Text(text_of(args@.get("ip"@))->0),
        cmd@ == "ups_get_power_mode"@ ==> (r is Ok <==> text_of(args@.get("ip"@)) is Some),
        cmd@ == "ups_get_power_mode"@ && r is Ok ==> (r->Ok_0).name@ == cmd@
            && (r->Ok_0).args@.len() == 1,
        cmd@ == "ups_get_power_mode"@ && r is Ok
            ==> (r->Ok_0).args@[0]@ == ArgV::Text(text_of(args@.get("ip"@))->0),
        cmd@ == "ups_get_diagnostics"@ ==> (r is Ok <==> text_of(args@.get("ip"@)) is Some),
        cmd@ == "ups_get_diagnostics"@ && r is Ok ==> (r->Ok_0).name@ == cmd@
            && (r->Ok_0).args@.len() == 1,
        cmd@ == "ups_get_diagnostics"@ && r is Ok
            ==> (r->Ok_0).args@[0]@ == ArgV::Text(text_of(args@.get("ip"@))->0),
        cmd@ == "janitza_get_data"@ ==> (r is Ok <==> text_of(args@.get("ip"@)) is Some),
        cmd@ == "janitza_get_data"@ && r is Ok ==> (r->Ok_0).name@ == cmd@
            && (r->Ok_0).args@.len() == 1,
        cmd@ == "janitza_get_data"@ && r is Ok
            ==> (r->Ok_0).args@[0]@ == ArgV::Text(text_of(args@.get("ip"@))->0),
        cmd@ == "system_get_battery_status"@ ==> (r is Ok),
        cmd@ == "system_get_battery_status"@ && r is Ok ==> (r->Ok_0).name@ == cmd@
            && (r->Ok_0).args@.len() == 0,
{
    if cmd@ == "ups_get_status"@ {
        commands_have_names_of_their_own(28);
        let list = command_row(28).2;
        values_belong_to_their_parameters(list, args@, 0);
        first_value_of_two(args@, "ip"@, "ip"@);
        assert(list[0].keys == seq!["ip"@]);
        if r is Ok {
            let values = arg_views((r->Ok_0).args@);
            assert(values[0] == (r->Ok_0).args@[0]@);
        }
    }
    if cmd@ == "ups_get_power_mode"@ {
        commands_have_names_of_their_own(29);
        let list = command_row(29).2;
        values_belong_to_their_parameters(list, args@, 0);
        first_value_of_two(args@, "ip"@, "ip"@);
        assert(list[0].keys == seq!["ip"@]);
        if r is Ok {
            let values = arg_views((r->Ok_0).args@);
            assert(values[0] == (r->Ok_0).args@[0]@);
        }
    }
    if cmd@ == "ups_get_diagnostics"@ {
        commands_have_names_of_their_own(30);
        let list = command_row(30).2;
        values_belong_to_their_parameters(list, args@, 0);
        first_value_of_two(args@, "ip"@, "ip"@);
        assert(list[0].keys == seq!["ip"@]);
        if r is Ok {
            let values = arg_views((r->Ok_0).args@);
            assert(values[0] == (r->Ok_0).args@[0]@);
        }
    }
    if cmd@ == "janitza_get_data"@ {
        commands_have_names_of_their_own(31);
        let list = command_row(31).2;
        values_belong_to_their_parameters(list, args@, 0);
        first_value_of_two(args@, "ip"@, "ip"@);
        assert(list[0].keys == seq!["ip"@]);
        if r is Ok {
            let values = arg_views((r->Ok_0).args@);
            assert(values[0] == (r->Ok_0).args@[0]@);
        }
    }
    if cmd@ == "system_get_battery_status"@ {
        commands_have_names_of_their_own(27);
        if r is Ok {
            assert(arg_views((r->Ok_0).args@).len() == 0);
        }
    }
}

/// Commands of a network device take its address, a community and a port.
#[verifier::rlimit(60)]
pub proof fn network_commands_take_an_address(
    cmd: &str,
    args: &Json,
    app_ready: bool,
    r: Result<Call, String>,
)
    requires
        call_ensures(remote_invoke_dispatch, (cmd, args, app_ready), r),
    ensures
        cmd@ == "poe_switch_get_status"@ ==> (r is Ok <==> text_of(args@.get("ip"@)) is Some),
        cmd@ == "poe_switch_get_status"@ && r is Ok ==> (r->Ok_0).name@ == cmd@
            && (r->Ok_0).args@.len() == 3,
        cmd@ == "poe_switch_get_status"@ && r is Ok
            ==> (r->Ok_0).args@[0]@ == ArgV::Text(text_of(args@.get("ip"@))->0),
        cmd@ == "poe_switch_get_status"@ && r is Ok
            ==> (r->Ok_0).args@[1]@ == ArgV::OptText(text_of(args@.get("community"@))),
        cmd@ == "poe_switch_get_status"@ && r is Ok
            ==> (r->Ok_0).args@[2]@ == ArgV::OptPort(low_word(unsigned_of(args@.get("port"@)))),
        cmd@ == "rutx50_get_status"@ ==> (r is Ok <==> text_of(args@.get("ip"@)) is Some),
        cmd@ == "rutx50_get_status"@ && r is Ok ==> (r->Ok_0).name@ == cmd@
            && (r->Ok_0).args@.len() == 3,
        cmd@ == "rutx50_get_status"@ && r is Ok
            ==> (r->Ok_0).args@[0]@ == ArgV::Text(text_of(args@.get("ip"@))->0),
        cmd@ == "rutx50_get_status"@ && r is Ok
            ==> (r->Ok_0).args@[1]@ == ArgV::OptText(text_of(args@.get("community"@))),
        cmd@ == "rutx50_get_status"@ && r is Ok
            ==> (r->Ok_0).args@[2]@ == ArgV::OptPort(low_word(unsigned_of(args@.get("port"@)))),
        cmd@ == "nas_get_status"@ ==> (r is Ok <==> text_of(args@.get("ip"@)) is Some),
        cmd@ == "nas_get_status"@ && r is Ok ==> (r->Ok_0).name@ == cmd@
            && (r->Ok_0).args@.len() == 3,
        cmd@ == "nas_get_status"@ && r is Ok
            ==> (r->Ok_0).args@[0]@ == ArgV::Text(text_of(args@.get("ip"@))->0),
        cmd@ == "nas_get_status"@ && r is Ok
            ==> (r->Ok_0).args@[1]@ == ArgV::OptText(text_of(args@.get("community"@))),
        cmd@ == "nas_get_status"@ && r is Ok
            ==> (r->Ok_0).args@[2]@ == ArgV::OptPort(low_word(unsigned_of(args@.get("port"@)))),
{
    if cmd@ == "poe_switch_get_status"@ {
        commands_have_names_of_their_own(32);
        let list = command_row(32).2;
        values_belong_to_their_parameters(list, args@, 0);
        first_value_of_two(args@, "ip"@, "ip"@);
        assert(list[0].keys == seq!["ip"@]);
        values_belong_to_their_parameters(list, args@, 1);
        first_value_of_two(args@, "community"@, "community"@);
        assert(list[1].keys == seq!["community"@]);
        values_belong_to_their_parameters(list, args@, 2);
        first_value_of_two(args@, "port"@, "port"@);
        assert(list[2].keys == seq!["port"@]);
        if r is Ok {
            let values = arg_views((r->Ok_0).args@);
            assert(values[0] == (r->Ok_0).args@[0]@);
            assert(values[1] == (r->Ok_0).args@[1]@);
            assert(values[2] == (r->Ok_0).args@[2]@);
        }
    }
    if cmd@ == "rutx50_get_status"@ {
        commands_have_names_of_their_own(33);
        let list = command_row(33).2;
        values_belong_to_their_parameters(list, args@, 0);
        first_value_of_two(args@, "ip"@, "ip"@);
        assert(list[0].keys == seq!["ip"@]);
        values_belong_to_their_parameters(list, args@, 1);
        first_value_of_two(args@, "community"@, "community"@);
        assert(list[1].keys == seq!["community"@]);
        values_belong_to_their_parameters(list, args@, 2);
        first_value_of_two(args@, "port"@, "port"@);
        assert(list[2].keys == seq!["port"@]);
        if r is Ok {
            let values = arg_views((r->Ok_0).args@);
            assert(values[0] == (r->Ok_0).args@[0]@);
            assert(values[1] == (r->Ok_0).args@[1]@);
            assert(values[2] == (r->Ok_0).args@[2]@);
        }
    }
    if cmd@ == "nas_get_status"@ {
        commands_have_names_of_their_own(34);
        let list = command_row(34).2;
        values_belong_to_their_parameters(list, args@, 0);
        first_value_of_two(args@, "ip"@, "ip"@);
        assert(list[0].keys == seq!["ip"@]);
        values_belong_to_their_parameters(list, args@, 1);
        first_value_of_two(args@, "community"@, "community"@);
        assert(list[1].keys == seq!["community"@]);
        values_belong_to_their_parameters(list, args@, 2);
        first_value_of_two(args@, "port"@, "port"@);
        assert(list[2].keys == seq!["port"@]);
        if r is Ok {
            let values = arg_views((r->Ok_0).args@);
            assert(values[0] == (r->Ok_0).args@[0]@);
            assert(values[1] == (r->Ok_0).args@[1]@);
            assert(values[2] == (r->Ok_0).args@[2]@);
        }
    }
}

/// Commands of a camera take its address and a stream; those that start a decoder need the
/// application.
#[verifier::rlimit(60)]
pub proof fn camera_commands_take_a_stream(
    cmd: &str,
    args: &Json,
    app_ready: bool,
    r: Result<Call, String>,
)
    requires
        call_ensures(remote_invoke_dispatch, (cmd, args, app_ready), r),
    ensures
        cmd@ == "camera_snapshot"@ ==> (r is Ok <==> app_ready
            && text_of(args@.get("ip"@)) is Some),
        cmd@ == "camera_snapshot"@ && r is Ok ==> (r->Ok_0).name@ == cmd@
            && (r->Ok_0).args@.len() == 2,
        cmd@ == "camera_snapshot"@ && r is Ok
            ==> (r->Ok_0).args@[0]@ == ArgV::Text(text_of(args@.get("ip"@))->0),
        cmd@ == "camera_snapshot"@ && r is Ok
            ==> (r->Ok_0).args@[1]@ == ArgV::OptByte(low_byte(unsigned_of(args@.get("stream"@)))),
        cmd@ == "camera_stream_frame"@ ==> (r is Ok <==> text_of(args@.get("ip"@)) is Some),
        cmd@ == "camera_stream_frame"@ && r is Ok ==> (r->Ok_0).name@ == cmd@
            && (r->Ok_0).args@.len() == 2,
        cmd@ == "camera_stream_frame"@ && r is Ok
            ==> (r->Ok_0).args@[0]@ == ArgV::Text(text_of(args@.get("ip"@))->0),
        cmd@ == "camera_stream_frame"@ && r is Ok
            ==> (r->Ok_0).args@[1]@ == ArgV::OptByte(low_byte(unsigned_of(args@.get("stream"@)))),
        cmd@ == "camera_prepare_stream"@ ==> (r is Ok <==> app_ready
            && text_of(args@.get("ip"@)) is Some),
        cmd@ == "camera_prepare_stream"@ && r is Ok ==> (r->Ok_0).name@ == cmd@
            && (r->Ok_0).args@.len() == 2,
        cmd@ == "camera_prepare_stream"@ && r is Ok
            ==> (r->Ok_0).args@[0]@ == ArgV::Text(text_of(args@.get("ip"@))->0),
        cmd@ == "camera_prepare_stream"@ && r is Ok
            ==> (r->Ok_0).args@[1]@ == ArgV::OptByte(low_byte(unsigned_of(args@.get("stream"@)))),
        cmd@ == "camera_restart_stream"@ ==> (r is Ok <==> text_of(args@.get("ip"@)) is Some),
        cmd@ == "camera_restart_stream"@ && r is Ok ==> (r->Ok_0).name@ == cmd@
            && (r->Ok_0).args@.len() == 2,
        cmd@ == "camera_restart_stream"@ && r is Ok
            ==> (r->Ok_0).args@[0]@ == ArgV::Text(text_of(args@.get("ip"@))->0),
        cmd@ == "camera_restart_stream"@ && r is Ok
            ==> (r->Ok_0).args@[1]@ == ArgV::OptByte(low_byte(unsigned_of(args@.get("stream"@)))),
{
    if cmd@ == "camera_snapshot"@ {
        commands_have_names_of_their_own(18);
        let list = command_row(18).2;
        values_belong_to_their_parameters(list, args@, 0);
        first_value_of_two(args@, "ip"@, "ip"@);
        assert(list[0].keys == seq!["ip"@]);
        values_belong_to_their_parameters(list, args@, 1);
        first_value_of_two(args@, "stream"@, "stream"@);
        assert(list[1].keys == seq!["stream"@]);
        if r is Ok {
            let values = arg_views((r->Ok_0).args@);
            assert(values[0] == (r->Ok_0).args@[0]@);
            assert(values[1] == (r->Ok_0).args@[1]@);
        }
    }
    if cmd@ == "camera_stream_frame"@ {
        commands_have_names_of_their_own(19);
        let list = command_row(19).2;
        values_belong_to_their_parameters(list, args@, 0);
        first_value_of_two(args@, "ip"@, "ip"@);
        assert(list[0].keys == seq!["ip"@]);
        values_belong_to_their_parameters(list, args@, 1);
        first_value_of_two(args@, "stream"@, "stream"@);
        assert(list[1].keys == seq!["stream"@]);
        if r is Ok {
            let values = arg_views((r->Ok_0).args@);
            assert(values[0] == (r->Ok_0).args@[0]@);
            assert(values[1] == (r->Ok_0).args@[1]@);
        }
    }
    if cmd@ == "camera_prepare_stream"@ {
        commands_have_names_of_their_own(20);
        let list = command_row(20).2;
        values_belong_to_their_parameters(list, args@, 0);
        first_value_of_two(args@, "ip"@, "ip"@);
        assert(list[0].keys == seq!["ip"@]);
        values_belong_to_their_parameters(list, args@, 1);
        first_value_of_two(args@, "stream"@, "stream"@);
        assert(list[1].keys == seq!["stream"@]);
        if r is Ok {
            let values = arg_views((r->Ok_0).args@);
            assert(values[0] == (r->Ok_0).args@[0]@);
            assert(values[1] == (r->Ok_0).args@[1]@);
        }
    }
    if cmd@ == "camera_restart_stream"@ {
        commands_have_names_of_their_own(21);
        let list = command_row(21).2;
        values_belong_to_their_parameters(list, args@, 0);
        first_value_of_two(args@, "ip"@, "ip"@);
        assert(list[0].keys == seq!["ip"@]);
        values_belong_to_their_parameters(list, args@, 1);
        first_value_of_two(args@, "stream"@, "stream"@);
        assert(list[1].keys == seq!["stream"@]);
        if r is Ok {
            let values = arg_views((r->Ok_0).args@);
            assert(values[0] == (r->Ok_0).args@[0]@);
            assert(values[1] == (r->Ok_0).args@[1]@);
        }
    }
}

/// Commands of projectors take addresses, what to switch, and a password.
#[verifier::rlimit(60)]
pub proof fn projector_commands_take_a_password(
    cmd: &str,
    args: &Json,
    app_ready: bool,
    r: Result<Call, String>,
)
    requires
        call_ensures(remote_invoke_dispatch, (cmd, args, app_ready), r),
    ensures
        cmd@ == "pjlink_poll_many"@ ==> (r is Ok <==> list_of(args@.get("ips"@)) is Some),
        cmd@ == "pjlink_poll_many"@ && r is Ok ==> (r->Ok_0).name@ == cmd@
            && (r->Ok_0).args@.len() == 2,
        cmd@ == "pjlink_poll_many"@ && r is Ok
            ==> (r->Ok_0).args@[0]@ == ArgV::Texts(texts_in(list_of(args@.get("ips"@))->0)),
        cmd@ == "pjlink_poll_many"@ && r is Ok
            ==> (r->Ok_0).args@[1]@ == ArgV::OptText(text_of(args@.get("password"@))),
        cmd@ == "pjlink_detect_models"@ ==> (r is Ok <==> list_of(args@.get("ips"@)) is Some),
        cmd@ == "pjlink_detect_models"@ && r is Ok ==> (r->Ok_0).name@ == cmd@
            && (r->Ok_0).args@.len() == 2,
        cmd@ == "pjlink_detect_models"@ && r is Ok
            ==> (r->Ok_0).args@[0]@ == ArgV::Texts(texts_in(list_of(args@.get("ips"@))->0)),
        cmd@ == "pjlink_detect_models"@ && r is Ok
            ==> (r->Ok_0).args@[1]@ == ArgV::OptText(text_of(args@.get("password"@))),
        cmd@ == "pjlink_set_power"@ ==> (r is Ok <==> text_of(args@.get("ip"@)) is Some
            && bool_of(args@.get("on"@)) is Some),
        cmd@ == "pjlink_set_power"@ && r is Ok ==> (r->Ok_0).name@ == cmd@
            && (r->Ok_0).args@.len() == 3,
        cmd@ == "pjlink_set_power"@ && r is Ok
            ==> (r->Ok_0).args@[0]@ == ArgV::Text(text_of(args@.get("ip"@))->0),
        cmd@ == "pjlink_set_power"@ && r is Ok
            ==> (r->Ok_0).args@[1]@ == ArgV::Bool(bool_of(args@.get("on"@))->0),
        cmd@ == "pjlink_set_power"@ && r is Ok
            ==> (r->Ok_0).args@[2]@ == ArgV::OptText(text_of(args@.get("password"@))),
        cmd@ == "pjlink_set_shutter"@ ==> (r is Ok <==> text_of(args@.get("ip"@)) is Some
            && bool_of(args@.get("muted"@)) is Some),
        cmd@ == "pjlink_set_shutter"@ && r is Ok ==> (r->Ok_0).name@ == cmd@
            && (r->Ok_0).args@.len() == 3,
        cmd@ == "pjlink_set_shutter"@ && r is Ok
            ==> (r->Ok_0).args@[0]@ == ArgV::Text(text_of(args@.get("ip"@))->0),
        cmd@ == "pjlink_set_shutter"@ && r is Ok
            ==> (r->Ok_0).args@[1]@ == ArgV::Bool(bool_of(args@.get("muted"@))->0),
        cmd@ == "pjlink_set_shutter"@ && r is Ok
            ==> (r->Ok_0).args@[2]@ == ArgV::OptText(text_of(args@.get("password"@))),
{
    if cmd@ == "pjlink_poll_many"@ {
        commands_have_names_of_their_own(35);
        let list = command_row(35).2;
        values_belong_to_their_parameters(list, args@, 0);
        first_value_of_two(args@, "ips"@, "ips"@);
        assert(list[0].keys == seq!["ips"@]);
        values_belong_to_their_parameters(list, args@, 1);
        first_value_of_two(args@, "password"@, "password"@);
        assert(list[1].keys == seq!["password"@]);
        if r is Ok {
            let values = arg_views((r->Ok_0).args@);
            assert(values[0] == (r->Ok_0).args@[0]@);
            assert(values[1] == (r->Ok_0).args@[1]@);
        }
    }
    if cmd@ == "pjlink_detect_models"@ {
        commands_have_names_of_their_own(36);
        let list = command_row(36).2;
        values_belong_to_their_parameters(list, args@, 0);
        first_value_of_two(args@, "ips"@, "ips"@);
        assert(list[0].keys == seq!["ips"@]);
        values_belong_to_their_parameters(list, args@, 1);
        first_value_of_two(args@, "password"@, "password"@);
        assert(list[1].keys == seq!["password"@]);
        if r is Ok {
            let values = arg_views((r->Ok_0).args@);
            assert(values[0] == (r->Ok_0).args@[0]@);
            assert(values[1] == (r->Ok_0).args@[1]@);
        }
    }
    if cmd@ == "pjlink_set_power"@ {
        commands_have_names_of_their_own(37);
        let list = command_row(37).2;
        values_belong_to_their_parameters(list, args@, 0);
        first_value_of_two(args@, "ip"@, "ip"@);
        assert(list[0].keys == seq!["ip"@]);
        values_belong_to_their_parameters(list, args@, 1);
        first_value_of_two(args@, "on"@, "on"@);
        assert(list[1].keys == seq!["on"@]);
        values_belong_to_their_parameters(list, args@, 2);
        first_value_of_two(args@, "password"@, "password"@);
        assert(list[2].keys == seq!["password"@]);
        if r is Ok {
            let values = arg_views((r->Ok_0).args@);
            assert(values[0] == (r->Ok_0).args@[0]@);
            assert(values[1] == (r->Ok_0).args@[1]@);
            assert(values[2] == (r->Ok_0).args@[2]@);
        }
    }
    if cmd@ == "pjlink_set_shutter"@ {
        commands_have_names_of_their_own(38);
        let list = command_row(38).2;
        values_belong_to_their_parameters(list, args@, 0);
        first_value_of_two(args@, "ip"@, "ip"@);
        assert(list[0].keys == seq!["ip"@]);
        values_belong_to_their_parameters(list, args@, 1);
        first_value_of_two(args@, "muted"@, "muted"@);
        assert(list[1].keys == seq!["muted"@]);
        values_belong_to_their_parameters(list, args@, 2);
        first_value_of_two(args@, "password"@, "password"@);
        assert(list[2].keys == seq!["password"@]);
        if r is Ok {
            let values = arg_views((r->Ok_0).args@);
            assert(values[0] == (r->Ok_0).args@[0]@);
            assert(values[1] == (r->Ok_0).args@[1]@);
            assert(values[2] == (r->Ok_0).args@[2]@);
        }
    }
}

/// Commands of the show take the request and where it goes.
#[verifier::rlimit(60)]
pub proof fn show_commands_go_to_the_player(
    cmd: &str,
    args: &Json,
    app_ready: bool,
    r: Result<Call, String>,
)
    requires
        call_ensures(remote_invoke_dispatch, (cmd, args, app_ready), r),
    ensures
        cmd@ == "pixera_api_request"@ ==> (r is Ok <==> text_of(args@.get("address"@)) is Some),
        cmd@ == "pixera_api_request"@ && r is Ok ==> (r->Ok_0).name@ == cmd@
            && (r->Ok_0).args@.len() == 5,
        cmd@ == "pixera_api_request"@ && r is Ok
            ==> (r->Ok_0).args@[0]@ == ArgV::Text(text_of(args@.get("address"@))->0),
        cmd@ == "pixera_api_request"@ && r is Ok
            ==> (r->Ok_0).args@[1]@ == ArgV::OptValues(list_of(args@.get("params"@))),
        cmd@ == "pixera_api_request"@ && r is Ok
            ==> (r->Ok_0).args@[2]@ == ArgV::OptText(text_of(args@.get("host"@))),
        cmd@ == "pixera_api_request"@ && r is Ok
            ==> (r->Ok_0).args@[3]@ == ArgV::OptPort(low_word(unsigned_of(args@.get("port"@)))),
        cmd@ == "pixera_api_request"@ && r is Ok
            ==> (r->Ok_0).args@[4]@ == ArgV::OptWide(unsigned_of(under_either(args@, "timeoutMs"@, "timeout_ms"@))),
        cmd@ == "get_next_cue"@ ==> (r is Ok),
        cmd@ == "get_next_cue"@ && r is Ok ==> (r->Ok_0).name@ == cmd@
            && (r->Ok_0).args@.len() == 0,
        cmd@ == "get_upcoming_cues"@ ==> (r is Ok),
        cmd@ == "get_upcoming_cues"@ && r is Ok ==> (r->Ok_0).name@ == cmd@
            && (r->Ok_0).args@.len() == 0,
        cmd@ == "send_emergency_notaus_osc"@ ==> (r is Ok),
        cmd@ == "send_emergency_notaus_osc"@ && r is Ok ==> (r->Ok_0).name@ == cmd@
            && (r->Ok_0).args@.len() == 2,
        cmd@ == "send_emergency_notaus_osc"@ && r is Ok
            ==> (r->Ok_0).args@[0]@ == ArgV::OptText(text_of(under_either(args@, "targetIp"@, "target_ip"@))),
        cmd@ == "send_emergency_notaus_osc"@ && r is Ok
            ==> (r->Ok_0).args@[1]@ == ArgV::OptPort(low_word(unsigned_of(under_either(args@, "targetPort"@, "target_port"@)))),
{
    if cmd@ == "pixera_api_request"@ {
        commands_have_names_of_their_own(39);
        let list = command_row(39).2;
        values_belong_to_their_parameters(list, args@, 0);
        first_value_of_two(args@, "address"@, "address"@);
        assert(list[0].keys == seq!["address"@]);
        values_belong_to_their_parameters(list, args@, 1);
        first_value_of_two(args@, "params"@, "params"@);
        assert(list[1].keys == seq!["params"@]);
        values_belong_to_their_parameters(list, args@, 2);
        first_value_of_two(args@, "host"@, "host"@);
        assert(list[2].keys == seq!["host"@]);
        values_belong_to_their_parameters(list, args@, 3);
        first_value_of_two(args@, "port"@, "port"@);
        assert(list[3].keys == seq!["port"@]);
        values_belong_to_their_parameters(list, args@, 4);
        first_value_of_two(args@, "timeoutMs"@, "timeout_ms"@);
        assert(list[4].keys == seq!["timeoutMs"@, "timeout_ms"@]);
        if r is Ok {
            let values = arg_views((r->Ok_0).args@);
            assert(values[0] == (r->Ok_0).args@[0]@);
            assert(values[1] == (r->Ok_0).args@[1]@);
            assert(values[2] == (r->Ok_0).args@[2]@);
            assert(values[3] == (r->Ok_0).args@[3]@);
            assert(values[4] == (r->Ok_0).args@[4]@);
        }
    }
    if cmd@ == "get_next_cue"@ {
        commands_have_names_of_their_own(40);
        if r is Ok {
            assert(arg_views((r->Ok_0).args@).len() == 0);
        }
    }
    if cmd@ == "get_upcoming_cues"@ {
        commands_have_names_of_their_own(41);
        if r is Ok {
            assert(arg_views((r->Ok_0).args@).len() == 0);
        }
    }
    if cmd@ == "send_emergency_notaus_osc"@ {
        commands_have_names_of_their_own(26);
        let list = command_row(26).2;
        values_belong_to_their_parameters(list, args@, 0);
        first_value_of_two(args@, "targetIp"@, "target_ip"@);
        assert(list[0].keys == seq!["targetIp"@, "target_ip"@]);
        values_belong_to_their_parameters(list, args@, 1);
        first_value_of_two(args@, "targetPort"@, "target_port"@);
        assert(list[1].keys == seq!["targetPort"@, "target_port"@]);
        if r is Ok {
            let values = arg_views((r->Ok_0).args@);
            assert(values[0] == (r->Ok_0).args@[0]@);
            assert(values[1] == (r->Ok_0).args@[1]@);
        }
    }
}

/// Commands that save settings take them.
#[verifier::rlimit(60)]
pub proof fn setting_commands_take_the_settings(
    cmd: &str,
    args: &Json,
    app_ready: bool,
    r: Result<Call, String>,
)
    requires
        call_ensures(remote_invoke_dispatch, (cmd, args, app_ready), r),
    ensures
        cmd@ == "get_config"@ ==> (r is Ok),
        cmd@ == "get_config"@ && r is Ok ==> (r->Ok_0).name@ == cmd@ && (r->Ok_0).args@.len() == 0,
        cmd@ == "save_site_metadata"@ ==> (r is Ok
            <==> text_of(under_either(args@, "locationName"@, "location_name"@)) is Some
            && text_of(under_either(args@, "anydeskAddress"@, "anydesk_address"@)) is Some),
        cmd@ == "save_site_metadata"@ && r is Ok ==> (r->Ok_0).name@ == cmd@
            && (r->Ok_0).args@.len() == 2,
        cmd@ == "save_site_metadata"@ && r is Ok
            ==> (r->Ok_0).args@[0]@ == ArgV::Text(text_of(under_either(args@, "locationName"@, "location_name"@))->0),
        cmd@ == "save_site_metadata"@ && r is Ok
            ==> (r->Ok_0).args@[1]@ == ArgV::Text(text_of(under_either(args@, "anydeskAddress"@, "anydesk_address"@))->0),
        cmd@ == "save_hub_config"@ ==> (r is Ok
            <==> text_of(under_either(args@, "apiUrl"@, "api_url"@)) is Some
            && text_of(under_either(args@, "apiToken"@, "api_token"@)) is Some
            && text_of(under_either(args@, "projectId"@, "project_id"@)) is Some
            && text_of(under_either(args@, "deviceId"@, "device_id"@)) is Some),
        cmd@ == "save_hub_config"@ && r is Ok ==> (r->Ok_0).name@ == cmd@
            && (r->Ok_0).args@.len() == 4,
        cmd@ == "save_hub_config"@ && r is Ok
            ==> (r->Ok_0).args@[0]@ == ArgV::Text(text_of(under_either(args@, "apiUrl"@, "api_url"@))->0),
        cmd@ == "save_hub_config"@ && r is Ok
            ==> (r->Ok_0).args@[1]@ == ArgV::Text(text_of(under_either(args@, "apiToken"@, "api_token"@))->0),
        cmd@ == "save_hub_config"@ && r is Ok
            ==> (r->Ok_0).args@[2]@ == ArgV::Text(text_of(under_either(args@, "projectId"@, "project_id"@))->0),
        cmd@ == "save_hub_config"@ && r is Ok
            ==> (r->Ok_0).args@[3]@ == ArgV::Text(text_of(under_either(args@, "deviceId"@, "device_id"@))->0),
        cmd@ == "set_offline_mode"@ ==> (r is Ok <==> bool_of(args@.get("enabled"@)) is Some),
        cmd@ == "set_offline_mode"@ && r is Ok ==> (r->Ok_0).name@ == cmd@
            && (r->Ok_0).args@.len() == 1,
        cmd@ == "set_offline_mode"@ && r is Ok
            ==> (r->Ok_0).args@[0]@ == ArgV::Bool(bool_of(args@.get("enabled"@))->0),
        cmd@ == "save_telegram_config"@ ==> (r is Ok <==> bool_of(args@.get("enabled"@)) is Some
            && text_of(under_either(args@, "botToken"@, "bot_token"@)) is Some
            && text_of(under_either(args@, "chatId"@, "chat_id"@)) is Some),
        cmd@ == "save_telegram_config"@ && r is Ok ==> (r->Ok_0).name@ == cmd@
            && (r->Ok_0).args@.len() == 5,
        cmd@ == "save_telegram_config"@ && r is Ok
            ==> (r->Ok_0).args@[0]@ == ArgV::Bool(bool_of(args@.get("enabled"@))->0),
        cmd@ == "save_telegram_config"@ && r is Ok
            ==> (r->Ok_0).args@[1]@ == ArgV::Text(text_of(under_either(args@, "botToken"@, "bot_token"@))->0),
        cmd@ == "save_telegram_config"@ && r is Ok
            ==> (r->Ok_0).args@[2]@ == ArgV::Text(text_of(under_either(args@, "chatId"@, "chat_id"@))->0),
        cmd@ == "save_telegram_config"@ && r is Ok
            ==> (r->Ok_0).args@[3]@ == ArgV::OptText(text_of(under_either(args@, "channelId"@, "channel_id"@))),
        cmd@ == "save_telegram_config"@ && r is Ok
            ==> ((r->Ok_0).args@[4]@ matches ArgV::OptTexts(o)
            && o is Some == list_of(under_either(args@, "alertEvents"@, "alert_events"@)) is Some),
        cmd@ == "telegram_send_test"@ ==> (r is Ok
            <==> text_of(under_either(args@, "botToken"@, "bot_token"@)) is Some
            && text_of(under_either(args@, "chatId"@, "chat_id"@)) is Some),
        cmd@ == "telegram_send_test"@ && r is Ok ==> (r->Ok_0).name@ == cmd@
            && (r->Ok_0).args@.len() == 2,
        cmd@ == "telegram_send_test"@ && r is Ok
            ==> (r->Ok_0).args@[0]@ == ArgV::Text(text_of(under_either(args@, "botToken"@, "bot_token"@))->0),
        cmd@ == "telegram_send_test"@ && r is Ok
            ==> (r->Ok_0).args@[1]@ == ArgV::Text(text_of(under_either(args@, "chatId"@, "chat_id"@))->0),
{
    if cmd@ == "get_config"@ {
        commands_have_names_of_their_own(0);
        if r is Ok {
            assert(arg_views((r->Ok_0).args@).len() == 0);
        }
    }
    if cmd@ == "save_site_metadata"@ {
        commands_have_names_of_their_own(2);
        let list = command_row(2).2;
        values_belong_to_their_parameters(list, args@, 0);
        first_value_of_two(args@, "locationName"@, "location_name"@);
        assert(list[0].keys == seq!["locationName"@, "location_name"@]);
        values_belong_to_their_parameters(list, args@, 1);
        first_value_of_two(args@, "anydeskAddress"@, "anydesk_address"@);
        assert(list[1].keys == seq!["anydeskAddress"@, "anydesk_address"@]);
        if r is Ok {
            let values = arg_views((r->Ok_0).args@);
            assert(values[0] == (r->Ok_0).args@[0]@);
            assert(values[1] == (r->Ok_0).args@[1]@);
        }
    }
    if cmd@ == "save_hub_config"@ {
        commands_have_names_of_their_own(3);
        let list = command_row(3).2;
        values_belong_to_their_parameters(list, args@, 0);
        first_value_of_two(args@, "apiUrl"@, "api_url"@);
        assert(list[0].keys == seq!["apiUrl"@, "api_url"@]);
        values_belong_to_their_parameters(list, args@, 1);
        first_value_of_two(args@, "apiToken"@, "api_token"@);
        assert(list[1].keys == seq!["apiToken"@, "api_token"@]);
        values_belong_to_their_parameters(list, args@, 2);
        first_value_of_two(args@, "projectId"@, "project_id"@);
        assert(list[2].keys == seq!["projectId"@, "project_id"@]);
        values_belong_to_their_parameters(list, args@, 3);
        first_value_of_two(args@, "deviceId"@, "device_id"@);
        assert(list[3].keys == seq!["deviceId"@, "device_id"@]);
        if r is Ok {
            let values = arg_views((r->Ok_0).args@);
            assert(values[0] == (r->Ok_0).args@[0]@);
            assert(values[1] == (r->Ok_0).args@[1]@);
            assert(values[2] == (r->Ok_0).args@[2]@);
            assert(values[3] == (r->Ok_0).args@[3]@);
        }
    }
    if cmd@ == "set_offline_mode"@ {
        commands_have_names_of_their_own(7);
        let list = command_row(7).2;
        values_belong_to_their_parameters(list, args@, 0);
        first_value_of_two(args@, "enabled"@, "enabled"@);
        assert(list[0].keys == seq!["enabled"@]);
        if r is Ok {
            let values = arg_views((r->Ok_0).args@);
            assert(values[0] == (r->Ok_0).args@[0]@);
        }
    }
    if cmd@ == "save_telegram_config"@ {
        commands_have_names_of_their_own(10);
        let list = command_row(10).2;
        values_belong_to_their_parameters(list, args@, 0);
        first_value_of_two(args@, "enabled"@, "enabled"@);
        assert(list[0].keys == seq!["enabled"@]);
        values_belong_to_their_parameters(list, args@, 1);
        first_value_of_two(args@, "botToken"@, "bot_token"@);
        assert(list[1].keys == seq!["botToken"@, "bot_token"@]);
        values_belong_to_their_parameters(list, args@, 2);
        first_value_of_two(args@, "chatId"@, "chat_id"@);
        assert(list[2].keys == seq!["chatId"@, "chat_id"@]);
        values_belong_to_their_parameters(list, args@, 3);
        first_value_of_two(args@, "channelId"@, "channel_id"@);
        assert(list[3].keys == seq!["channelId"@, "channel_id"@]);
        values_belong_to_their_parameters(list, args@, 4);
        first_value_of_two(args@, "alertEvents"@, "alert_events"@);
        assert(list[4].keys == seq!["alertEvents"@, "alert_events"@]);
        if r is Ok {
            let values = arg_views((r->Ok_0).args@);
            assert(values[0] == (r->Ok_0).args@[0]@);
            assert(values[1] == (r->Ok_0).args@[1]@);
            assert(values[2] == (r->Ok_0).args@[2]@);
            assert(values[3] == (r->Ok_0).args@[3]@);
            assert(values[4] == (r->Ok_0).args@[4]@);
        }
    }
    if cmd@ == "telegram_send_test"@ {
        commands_have_names_of_their_own(11);
        let list = command_row(11).2;
        values_belong_to_their_parameters(list, args@, 0);
        first_value_of_two(args@, "botToken"@, "bot_token"@);
        assert(list[0].keys == seq!["botToken"@, "bot_token"@]);
        values_belong_to_their_parameters(list, args@, 1);
        first_value_of_two(args@, "chatId"@, "chat_id"@);
        assert(list[1].keys == seq!["chatId"@, "chat_id"@]);
        if r is Ok {
            let values = arg_views((r->Ok_0).args@);
            assert(values[0] == (r->Ok_0).args@[0]@);
            assert(values[1] == (r->Ok_0).args@[1]@);
        }
    }
}

/// The state of the user interface comes value by value, and counts stay in their bounds.
#[verifier::rlimit(60)]
pub proof fn interface_commands_take_its_state(
    cmd: &str,
    args: &Json,
    app_ready: bool,
    r: Result<Call, String>,
)
    requires
        call_ensures(remote_invoke_dispatch, (cmd, args, app_ready), r),
    ensures
        cmd@ == "save_ui_state"@ ==> (r is Ok),
        cmd@ == "save_ui_state"@ && r is Ok ==> (r->Ok_0).name@ == cmd@
            && (r->Ok_0).args@.len() == 17,
        cmd@ == "save_ui_state"@ && r is Ok
            ==> (r->Ok_0).args@[0]@ == ArgV::OptBool(bool_of(under_either(args@, "demoMode"@, "demo_mode"@))),
        cmd@ == "save_ui_state"@ && r is Ok
            ==> (r->Ok_0).args@[1]@ == ArgV::OptText(text_of(under_either(args@, "startupMode"@, "startup_mode"@))),
        cmd@ == "save_ui_state"@ && r is Ok
            ==> (r->Ok_0).args@[2]@ == ArgV::OptText(text_of(under_either(args@, "language"@, "lang"@))),
        cmd@ == "save_ui_state"@ && r is Ok
            ==> (r->Ok_0).args@[3]@ == ArgV::OptText(text_of(under_either(args@, "cameraViewMode"@, "camera_view_mode"@))),
        cmd@ == "save_ui_state"@ && r is Ok ==> ((r->Ok_0).args@[4]@ matches ArgV::OptByte(o)
            && (o is Some ==> 1 <= o->0 <= 16)),
        cmd@ == "save_ui_state"@ && r is Ok ==> ((r->Ok_0).args@[5]@ matches ArgV::OptByte(o)
            && (o is Some ==> 0 <= o->0 <= 2)),
        cmd@ == "save_ui_state"@ && r is Ok ==> ((r->Ok_0).args@[6]@ matches ArgV::OptByte(o)
            && (o is Some ==> 1 <= o->0 <= 3)),
        cmd@ == "save_ui_state"@ && r is Ok
            ==> (r->Ok_0).args@[7]@ == ArgV::OptBool(bool_of(under_either(args@, "interactiveEnabled"@, "interactive_enabled"@))),
        cmd@ == "save_ui_state"@ && r is Ok ==> ((r->Ok_0).args@[8]@ matches ArgV::OptByte(o)
            && (o is Some ==> 1 <= o->0 <= 2)),
        cmd@ == "save_ui_state"@ && r is Ok
            ==> (r->Ok_0).args@[9]@ == ArgV::OptBool(bool_of(under_either(args@, "emergencySwitchEnabled"@, "emergency_switch_enabled"@))),
        cmd@ == "save_ui_state"@ && r is Ok ==> ((r->Ok_0).args@[10]@ matches ArgV::OptFlags(o)
            && o is Some == list_of(under_either(args@, "demoAmp1Mutes"@, "demo_amp1_mutes"@)) is Some),
        cmd@ == "save_ui_state"@ && r is Ok ==> ((r->Ok_0).args@[11]@ matches ArgV::OptFlags(o)
            && o is Some == list_of(under_either(args@, "demoAmp2Mutes"@, "demo_amp2_mutes"@)) is Some),
        cmd@ == "save_ui_state"@ && r is Ok ==> ((r->Ok_0).args@[12]@ matches ArgV::OptFlags(o)
            && o is Some == list_of(under_either(args@, "demoAmp3Mutes"@, "demo_amp3_mutes"@)) is Some),
        cmd@ == "save_ui_state"@ && r is Ok ==> ((r->Ok_0).args@[13]@ matches ArgV::OptFlags(o)
            && o is Some == list_of(under_either(args@, "demoProjectorOn"@, "demo_projector_on"@)) is Some),
        cmd@ == "save_ui_state"@ && r is Ok ==> ((r->Ok_0).args@[14]@ matches ArgV::OptFlags(o)
            && o is Some == list_of(under_either(args@, "demoProjectorMute"@, "demo_projector_mute"@)) is Some),
        cmd@ == "save_ui_state"@ && r is Ok ==> ((r->Ok_0).args@[15]@ matches ArgV::OptTexts(o)
            && o is Some == list_of(under_either(args@, "projectorControlStates"@, "projector_control_states"@)) is Some),
        cmd@ == "save_ui_state"@ && r is Ok
            ==> (r->Ok_0).args@[16]@ == ArgV::OptWide(unsigned_of(under_either(args@, "projectorStatusUpdatedAt"@, "projector_status_updated_at"@))),
{
    if cmd@ == "save_ui_state"@ {
        commands_have_names_of_their_own(13);
        let list = command_row(13).2;
        values_belong_to_their_parameters(list, args@, 0);
        first_value_of_two(args@, "demoMode"@, "demo_mode"@);
        assert(list[0].keys == seq!["demoMode"@, "demo_mode"@]);
        values_belong_to_their_parameters(list, args@, 1);
        first_value_of_two(args@, "startupMode"@, "startup_mode"@);
        assert(list[1].keys == seq!["startupMode"@, "startup_mode"@]);
        values_belong_to_their_parameters(list, args@, 2);
        first_value_of_two(args@, "language"@, "lang"@);
        assert(list[2].keys == seq!["language"@, "lang"@]);
        values_belong_to_their_parameters(list, args@, 3);
        first_value_of_two(args@, "cameraViewMode"@, "camera_view_mode"@);
        assert(list[3].keys == seq!["cameraViewMode"@, "camera_view_mode"@]);
        values_belong_to_their_parameters(list, args@, 4);
        first_value_of_two(args@, "projectorCount"@, "projector_count"@);
        assert(list[4].keys == seq!["projectorCount"@, "projector_count"@]);
        values_belong_to_their_parameters(list, args@, 5);
        first_value_of_two(args@, "pixeraOctoCount"@, "pixera_octo_count"@);
        assert(list[5].keys == seq!["pixeraOctoCount"@, "pixera_octo_count"@]);
        values_belong_to_their_parameters(list, args@, 6);
        first_value_of_two(args@, "ampCount"@, "amp_count"@);
        assert(list[6].keys == seq!["ampCount"@, "amp_count"@]);
        values_belong_to_their_parameters(list, args@, 7);
        first_value_of_two(args@, "interactiveEnabled"@, "interactive_enabled"@);
        assert(list[7].keys == seq!["interactiveEnabled"@, "interactive_enabled"@]);
        values_belong_to_their_parameters(list, args@, 8);
        first_value_of_two(args@, "interactiveScannerCount"@, "interactive_scanner_count"@);
        assert(list[8].keys == seq!["interactiveScannerCount"@, "interactive_scanner_count"@]);
        values_belong_to_their_parameters(list, args@, 9);
        first_value_of_two(args@, "emergencySwitchEnabled"@, "emergency_switch_enabled"@);
        assert(list[9].keys == seq!["emergencySwitchEnabled"@, "emergency_switch_enabled"@]);
        values_belong_to_their_parameters(list, args@, 10);
        first_value_of_two(args@, "demoAmp1Mutes"@, "demo_amp1_mutes"@);
        assert(list[10].keys == seq!["demoAmp1Mutes"@, "demo_amp1_mutes"@]);
        values_belong_to_their_parameters(list, args@, 11);
        first_value_of_two(args@, "demoAmp2Mutes"@, "demo_amp2_mutes"@);
        assert(list[11].keys == seq!["demoAmp2Mutes"@, "demo_amp2_mutes"@]);
        values_belong_to_their_parameters(list, args@, 12);
        first_value_of_two(args@, "demoAmp3Mutes"@, "demo_amp3_mutes"@);
        assert(list[12].keys == seq!["demoAmp3Mutes"@, "demo_amp3_mutes"@]);
        values_belong_to_their_parameters(list, args@, 13);
        first_value_of_two(args@, "demoProjectorOn"@, "demo_projector_on"@);
        assert(list[13].keys == seq!["demoProjectorOn"@, "demo_projector_on"@]);
        values_belong_to_their_parameters(list, args@, 14);
        first_value_of_two(args@, "demoProjectorMute"@, "demo_projector_mute"@);
        assert(list[14].keys == seq!["demoProjectorMute"@, "demo_projector_mute"@]);
        values_belong_to_their_parameters(list, args@, 15);
        first_value_of_two(args@, "projectorControlStates"@, "projector_control_states"@);
        assert(list[15].keys == seq!["projectorControlStates"@, "projector_control_states"@]);
        values_belong_to_their_parameters(list, args@, 16);
        first_value_of_two(args@, "projectorStatusUpdatedAt"@, "projector_status_updated_at"@);
        assert(list[16].keys == seq!["projectorStatusUpdatedAt"@, "projector_status_updated_at"@]);
        if r is Ok {
            let values = arg_views((r->Ok_0).args@);
            assert(values[0] == (r->Ok_0).args@[0]@);
            assert(values[1] == (r->Ok_0).args@[1]@);
            assert(values[2] == (r->Ok_0).args@[2]@);
            assert(values[3] == (r->Ok_0).args@[3]@);
            assert(values[4] == (r->Ok_0).args@[4]@);
            assert(values[5] == (r->Ok_0).args@[5]@);
            assert(values[6] == (r->Ok_0).args@[6]@);
            assert(values[7] == (r->Ok_0).args@[7]@);
            assert(values[8] == (r->Ok_0).args@[8]@);
            assert(values[9] == (r->Ok_0).args@[9]@);
            assert(values[10] == (r->Ok_0).args@[10]@);
            assert(values[11] == (r->Ok_0).args@[11]@);
            assert(values[12] == (r->Ok_0).args@[12]@);
            assert(values[13] == (r->Ok_0).args@[13]@);
            assert(values[14] == (r->Ok_0).args@[14]@);
            assert(values[15] == (r->Ok_0).args@[15]@);
            assert(values[16] == (r->Ok_0).args@[16]@);
        }
    }
}

/// Commands of the window and of the logs need the running application.
#[verifier::rlimit(60)]
pub proof fn window_commands_need_the_application(
    cmd: &str,
    args: &Json,
    app_ready: bool,
    r: Result<Call, String>,
)
    requires
        call_ensures(remote_invoke_dispatch, (cmd, args, app_ready), r),
    ensures
        cmd@ == "minimize_window"@ ==> (r is Ok <==> app_ready),
        cmd@ == "minimize_window"@ && r is Ok ==> (r->Ok_0).name@ == cmd@
            && (r->Ok_0).args@.len() == 0,
        cmd@ == "toggle_fullscreen"@ ==> (r is Ok <==> app_ready),
        cmd@ == "toggle_fullscreen"@ && r is Ok ==> (r->Ok_0).name@ == cmd@
            && (r->Ok_0).args@.len() == 0,
        cmd@ == "hide_to_tray"@ ==> (r is Ok <==> app_ready),
        cmd@ == "hide_to_tray"@ && r is Ok ==> (r->Ok_0).name@ == cmd@
            && (r->Ok_0).args@.len() == 0,
        cmd@ == "quit_app"@ ==> (r is Ok <==> app_ready),
        cmd@ == "quit_app"@ && r is Ok ==> (r->Ok_0).name@ == cmd@ && (r->Ok_0).args@.len() == 0,
        cmd@ == "append_app_log"@ ==> (r is Ok <==> app_ready
            && text_of(args@.get("level"@)) is Some && text_of(args@.get("message"@)) is Some),
        cmd@ == "append_app_log"@ && r is Ok ==> (r->Ok_0).name@ == cmd@
            && (r->Ok_0).args@.len() == 3,
        cmd@ == "append_app_log"@ && r is Ok
            ==> (r->Ok_0).args@[0]@ == ArgV::Text(text_of(args@.get("level"@))->0),
        cmd@ == "append_app_log"@ && r is Ok
            ==> (r->Ok_0).args@[1]@ == ArgV::Text(text_of(args@.get("message"@))->0),
        cmd@ == "append_app_log"@ && r is Ok
            ==> (r->Ok_0).args@[2]@ == ArgV::OptWide(unsigned_of(under_either(args@, "timestampMs"@, "timestamp_ms"@))),
        cmd@ == "load_app_logs"@ ==> (r is Ok <==> app_ready),
        cmd@ == "load_app_logs"@ && r is Ok ==> (r->Ok_0).name@ == cmd@
            && (r->Ok_0).args@.len() == 1,
        cmd@ == "load_app_logs"@ && r is Ok
            ==> (r->Ok_0).args@[0]@ == ArgV::OptWide(unsigned_of(args@.get("limit"@))),
{
    if cmd@ == "minimize_window"@ {
        commands_have_names_of_their_own(42);
        if r is Ok {
            assert(arg_views((r->Ok_0).args@).len() == 0);
        }
    }
    if cmd@ == "toggle_fullscreen"@ {
        commands_have_names_of_their_own(43);
        if r is Ok {
            assert(arg_views((r->Ok_0).args@).len() == 0);
        }
    }
    if cmd@ == "hide_to_tray"@ {
        commands_have_names_of_their_own(44);
        if r is Ok {
            assert(arg_views((r->Ok_0).args@).len() == 0);
        }
    }
    if cmd@ == "quit_app"@ {
        commands_have_names_of_their_own(45);
        if r is Ok {
            assert(arg_views((r->Ok_0).args@).len() == 0);
        }
    }
    if cmd@ == "append_app_log"@ {
        commands_have_names_of_their_own(12);
        let list = command_row(12).2;
        values_belong_to_their_parameters(list, args@, 0);
        first_value_of_two(args@, "level"@, "level"@);
        assert(list[0].keys == seq!["level"@]);
        values_belong_to_their_parameters(list, args@, 1);
        first_value_of_two(args@, "message"@, "message"@);
        assert(list[1].keys == seq!["message"@]);
        values_belong_to_their_parameters(list, args@, 2);
        first_value_of_two(args@, "timestampMs"@, "timestamp_ms"@);
        assert(list[2].keys == seq!["timestampMs"@, "timestamp_ms"@]);
        if r is Ok {
            let values = arg_views((r->Ok_0).args@);
            assert(values[0] == (r->Ok_0).args@[0]@);
            assert(values[1] == (r->Ok_0).args@[1]@);
            assert(values[2] == (r->Ok_0).args@[2]@);
        }
    }
    if cmd@ == "load_app_logs"@ {
        commands_have_names_of_their_own(14);
        let list = command_row(14).2;
        values_belong_to_their_parameters(list, args@, 0);
        first_value_of_two(args@, "limit"@, "limit"@);
        assert(list[0].keys == seq!["limit"@]);
        if r is Ok {
            let values = arg_views((r->Ok_0).args@);
            assert(values[0] == (r->Ok_0).args@[0]@);
        }
    }
}

/// The other commands are called by their names.
#[verifier::rlimit(60)]
pub proof fn other_commands_are_known(
    cmd: &str,
    args: &Json,
    app_ready: bool,
    r: Result<Call, String>,
)
    requires
        call_ensures(remote_invoke_dispatch, (cmd, args, app_ready), r),
    ensures
        cmd@ == "get_server_time_ms"@ ==> (r is Ok),
        cmd@ == "get_server_time_ms"@ && r is Ok ==> (r->Ok_0).name@ == cmd@
            && (r->Ok_0).args@.len() == 0,
        cmd@ == "hub_post_json"@ ==> (r is Ok <==> text_of(args@.get("url"@)) is Some
            && text_of(under_either(args@, "apiToken"@, "api_token"@)) is Some),
        cmd@ == "hub_post_json"@ && r is Ok ==> (r->Ok_0).name@ == cmd@
            && (r->Ok_0).args@.len() == 3,
        cmd@ == "hub_post_json"@ && r is Ok
            ==> (r->Ok_0).args@[0]@ == ArgV::Text(text_of(args@.get("url"@))->0),
        cmd@ == "hub_post_json"@ && r is Ok
            ==> (r->Ok_0).args@[1]@ == ArgV::Text(text_of(under_either(args@, "apiToken"@, "api_token"@))->0),
        cmd@ == "hub_post_json"@ && r is Ok ==> (r->Ok_0).args@[2]@ is Value,
        cmd@ == "get_device_health_status"@ ==> (r is Ok),
        cmd@ == "get_device_health_status"@ && r is Ok ==> (r->Ok_0).name@ == cmd@
            && (r->Ok_0).args@.len() == 0,
        cmd@ == "get_offline_mode_enabled"@ ==> (r is Ok),
        cmd@ == "get_offline_mode_enabled"@ && r is Ok ==> (r->Ok_0).name@ == cmd@
            && (r->Ok_0).args@.len() == 0,
        cmd@ == "clear_query_cache"@ ==> (r is Ok),
        cmd@ == "clear_query_cache"@ && r is Ok ==> (r->Ok_0).name@ == cmd@
            && (r->Ok_0).args@.len() == 0,
        cmd@ == "reset_all_device_failures"@ ==> (r is Ok),
        cmd@ == "reset_all_device_failures"@ && r is Ok ==> (r->Ok_0).name@ == cmd@
            && (r->Ok_0).args@.len() == 0,
        cmd@ == "open_external_url"@ ==> (r is Ok <==> text_of(args@.get("url"@)) is Some),
        cmd@ == "open_external_url"@ && r is Ok ==> (r->Ok_0).name@ == cmd@
            && (r->Ok_0).args@.len() == 1,
        cmd@ == "open_external_url"@ && r is Ok
            ==> (r->Ok_0).args@[0]@ == ArgV::Text(text_of(args@.get("url"@))->0),
{
    if cmd@ == "get_server_time_ms"@ {
        commands_have_names_of_their_own(1);
        if r is Ok {
            assert(arg_views((r->Ok_0).args@).len() == 0);
        }
    }
    if cmd@ == "hub_post_json"@ {
        commands_have_names_of_their_own(4);
        let list = command_row(4).2;
        values_belong_to_their_parameters(list, args@, 0);
        first_value_of_two(args@, "url"@, "url"@);
        assert(list[0].keys == seq!["url"@]);
        values_belong_to_their_parameters(list, args@, 1);
        first_value_of_two(args@, "apiToken"@, "api_token"@);
        assert(list[1].keys == seq!["apiToken"@, "api_token"@]);
        values_belong_to_their_parameters(list, args@, 2);
        first_value_of_two(args@, "payload"@, "payload"@);
        assert(list[2].keys == seq!["payload"@]);
        if r is Ok {
            let values = arg_views((r->Ok_0).args@);
            assert(values[0] == (r->Ok_0).args@[0]@);
            assert(values[1] == (r->Ok_0).args@[1]@);
            assert(values[2] == (r->Ok_0).args@[2]@);
        }
    }
    if cmd@ == "get_device_health_status"@ {
        commands_have_names_of_their_own(5);
        if r is Ok {
            assert(arg_views((r->Ok_0).args@).len() == 0);
        }
    }
    if cmd@ == "get_offline_mode_enabled"@ {
        commands_have_names_of_their_own(6);
        if r is Ok {
            assert(arg_views((r->Ok_0).args@).len() == 0);
        }
    }
    if cmd@ == "clear_query_cache"@ {
        commands_have_names_of_their_own(8);
        if r is Ok {
            assert(arg_views((r->Ok_0).args@).len() == 0);
        }
    }
    if cmd@ == "reset_all_device_failures"@ {
        commands_have_names_of_their_own(9);
        if r is Ok {
            assert(arg_views((r->Ok_0).args@).len() == 0);
        }
    }
    if cmd@ == "open_external_url"@ {
        commands_have_names_of_their_own(15);
        let list = command_row(15).2;
        values_belong_to_their_parameters(list, args@, 0);
        first_value_of_two(args@, "url"@, "url"@);
        assert(list[0].keys == seq!["url"@]);
        if r is Ok {
            let values = arg_views((r->Ok_0).args@);
            assert(values[0] == (r->Ok_0).args@[0]@);
        }
    }
}

/// A command that no row of the table has is refused.
pub proof fn unknown_commands_are_refused(
    cmd: &str,
    args: &Json,
    app_ready: bool,
    r: Result<Call, String>,
)
    requires
        forall|i: usize| i < COMMAND_COUNT ==> (#[trigger] command_row(i)).0 != cmd@,
        call_ensures(remote_invoke_dispatch, (cmd, args, app_ready), r),
    ensures
        r is Err,
        text::ends((r->Err_0)@, cmd@),
{
    search_is_exact(cmd@, 0);
    let e = (r->Err_0)@;
    assert(e.skip(e.len() - cmd@.len()) =~= cmd@);
}

/// Texts, flags and numbers are read from values of their own kind only, and a number loses no
/// more than what its kind has no room for.
pub proof fn parameters_are_read_for_what_they_are(
    p: &Param,
    v: &Json,
    s: Seq<char>,
    b: bool,
    n: u64,
    r: Result<ArgValue, String>,
    none: Result<ArgValue, String>,
)
    requires
        call_ensures(read_param, (p, Some(v)), r),
        call_ensures(read_param, (p, None::<&Json>), none),
    ensures
        p.kind is Text && v@ == JsonV::Text(s) ==> r is Ok && (r->Ok_0)@ == ArgV::Text(s),
        p.kind is OptText && v@ == JsonV::Text(s) ==> r is Ok && (r->Ok_0)@ == ArgV::OptText(
            Some(s),
        ),
        p.kind is Bool && v@ == JsonV::Bool(b) ==> r is Ok && (r->Ok_0)@ == ArgV::Bool(b),
        p.kind is OptBool && v@ == JsonV::Bool(b) ==> r is Ok
            && (r->Ok_0)@ == ArgV::OptBool(Some(b)),
        p.kind is Byte && v@ == JsonV::Unsigned(n) && n < 256 ==> r is Ok
            && (r->Ok_0)@ == ArgV::Byte(
            n as u8,
        ),
        p.kind is OptByte && v@ == JsonV::Unsigned(n) && n < 256 ==> r is Ok && (r->Ok_0)@
            == ArgV::OptByte(Some(n as u8)),
        p.kind is Port && v@ == JsonV::Unsigned(n) && n < 65536 ==> r is Ok && (r->Ok_0)@
            == ArgV::Port(n as u16),
        p.kind is OptPort && v@ == JsonV::Unsigned(n) && n < 65536 ==> r is Ok && (r->Ok_0)@
            == ArgV::OptPort(Some(n as u16)),
        p.kind is OptWide && v@ == JsonV::Unsigned(n) ==> r is Ok && (r->Ok_0)@ == ArgV::OptWide(
            Some(n),
        ),
        p.kind is Payload ==> r is Ok && (r->Ok_0)@ == ArgV::Value(v@),
        p.kind is Text && !(v@ is Text) ==> r is Err,
        p.kind is Bool && !(v@ is Bool) ==> r is Err,
        p.kind is Byte && v@ is Text ==> r is Err,
        p.kind is Port && v@ is Text ==> r is Err,
        p.kind is Texts && !(v@ is List) ==> r is Err,
        p.kind is Real && v@ is Text ==> r is Err,
        p.kind is Text || p.kind is Bool || p.kind is Byte || p.kind is Port || p.kind is Texts
            || p.kind is Real <==> none is Err,
{
    if n < 256 {
        assert(n % 256 == n);
    }
    if n < 65536 {
        assert(n % 65536 == n);
    }
}

/// A count within its bounds is kept as it is, and one beyond them becomes the nearest bound.
pub proof fn counts_are_kept_between_bounds(
    p: &Param,
    v: &Json,
    low: u8,
    high: u8,
    n: u64,
    r: Result<ArgValue, String>,
)
    requires
        low <= high,
        p.kind == ParamKind::OptCount(low, high),
        v@ == JsonV::Unsigned(n),
        call_ensures(read_param, (p, Some(v)), r),
    ensures
        r is Ok,
        low <= n <= high ==> (r->Ok_0)@ == ArgV::OptByte(Some(n as u8)),
        n < low ==> (r->Ok_0)@ == ArgV::OptByte(Some(low)),
        n > high ==> (r->Ok_0)@ == ArgV::OptByte(Some(high)),
{
}

/// Lists of texts and of flags are read entry by entry, in their order.
pub proof fn lists_are_read_entry_by_entry(list: Seq<JsonV>, s: Seq<char>, b: bool)
    ensures
        texts_in(list.push(JsonV::Text(s))) == texts_in(list).push(s),
        texts_in(list.push(JsonV::Bool(b))) == texts_in(list),
        texts_in(list.push(JsonV::Null)) == texts_in(list),
        texts_in(Seq::empty()).len() == 0,
        flags_in(list.push(JsonV::Bool(b))) == flags_in(list).push(b),
        flags_in(list.push(JsonV::Text(s))) == flags_in(list).push(false),
{
    assert(list.push(JsonV::Text(s)).drop_last() =~= list);
    assert(list.push(JsonV::Bool(b)).drop_last() =~= list);
    assert(list.push(JsonV::Null).drop_last() =~= list);
    assert(flags_in(list.push(JsonV::Bool(b))) =~= flags_in(list).push(b));
    assert(flags_in(list.push(JsonV::Text(s))) =~= flags_in(list).push(false));
}

/// A request goes by its path, without what follows a question mark: commands are only posted,
/// and files are only fetched.
#[verifier::rlimit(40)]
pub proof fn requests_go_by_their_path(
    path: Seq<char>,
    query: Seq<char>,
    url: &str,
    method: WebMethod,
    r: Route,
)
    requires
        !path.contains('?'),
        url@ == path || url@ == path.push('?') + query,
        call_ensures(route_request, (method, url), r),
    ensures
        r is Invoke <==> method is Post && path == "/api/invoke"@,
        r is Preflight <==> method is Options && path == "/api/invoke"@,
        r is Health <==> method is Get && path == "/api/health"@,
        r is Index <==> method is Get && (path == "/"@ || path == "/index.html"@),
        r is Utils <==> method is Get && path == "/js/utils.js"@,
        r is Bridge <==> method is Get && path == "/js/tauri-bridge.js"@,
        r is Favicon <==> method is Get && (path == "/favicon.ico"@ || path == "/icon.ico"@),
        method is Other ==> r is NotFound,
{
    reveal_strlit("?");
    reveal_strlit("/");
    reveal_strlit("/index.html");
    reveal_strlit("/js/utils.js");
    reveal_strlit("/js/tauri-bridge.js");
    reveal_strlit("/favicon.ico");
    reveal_strlit("/icon.ico");
    reveal_strlit("/api/health");
    reveal_strlit("/api/invoke");
    assert("/"@.len() == 1 && "/icon.ico"@.len() == 9 && "/js/tauri-bridge.js"@.len() == 19);
    assert("/index.html"@[1] == 'i' && "/api/health"@[1] == 'a' && "/api/health"@[5] == 'h');
    assert("/api/invoke"@[5] == 'i' && "/js/utils.js"@[1] == 'j' && "/favicon.ico"@[1] == 'f');
    assert("?"@ =~= seq!['?']);
    let n = path.len() as int;
    text::found_is_first(url@, "?"@, 0);
    if url@ == path {
        if text::found(url@, "?"@) is Some {
            let i = text::found(url@, "?"@)->0;
            assert(url@.subrange(i, i + 1)[0] == url@[i]);
            assert(path[i] == '?');
        }
    } else {
        assert(url@.subrange(n, n + 1) =~= "?"@);
        assert(text::matches_at(url@, "?"@, n));
        let i = text::found(url@, "?"@)->0;
        if i < n {
            assert(url@.subrange(i, i + 1)[0] == url@[i]);
            assert(path[i] == '?');
        }
        assert(url@.take(n) =~= path);
    }
}

/// A body of up to a mebibyte is read whole; a longer one, and one of unknown length, is refused.
pub proof fn bodies_hold_a_mebibyte(
    len: usize,
    r: Result<usize, Refusal>,
    unknown: Result<usize, Refusal>,
)
    requires
        call_ensures(invoke_body_len, (Some(len),), r),
        call_ensures(invoke_body_len, (None::<usize>,), unknown),
    ensures
        len <= 1024 * 1024 ==> r == Ok::<usize, Refusal>(len),
        len > 1024 * 1024 ==> r is Err && (r->Err_0).status == 413,
        unknown is Err,
        (unknown->Err_0).status == 411,
{
}

/// A body calls the command that it names, with the arguments that it holds; one without a
/// command, or that is no JSON, is a bad request.
pub proof fn bodies_name_their_command(
    payload: Json,
    error: String,
    args: JsonV,
    r: Result<(String, Json), Refusal>,
    bad: Result<(String, Json), Refusal>,
)
    requires
        call_ensures(invocation_in, (Ok::<Json, String>(payload),), r),
        call_ensures(invocation_in, (Err::<Json, String>(error),), bad),
    ensures
        bad is Err,
        (bad->Err_0).status == 400,
        r is Ok <==> payload@.get("cmd"@) is Some && payload@.get("cmd"@)->0 is Text && (
        payload@.get("cmd"@)->0->Text_0).len() > 0,
        r is Err ==> (r->Err_0).status == 400,
        r is Ok ==> payload@.get("cmd"@) == Some(JsonV::Text((r->Ok_0).0@)),
        r is Ok && payload@.get("args"@) == Some(args) ==> (r->Ok_0).1@ == args,
{
}

/// An answer says whether the command went well: then it is 200 and holds the data, and else
/// 500 and holds the error.
pub proof fn answers_tell_success_from_failure(
    data: Json,
    error: String,
    good: (u16, Json),
    bad: (u16, Json),
)
    requires
        call_ensures(invoke_reply, (Ok::<Json, String>(data),), good),
        call_ensures(invoke_reply, (Err::<Json, String>(error),), bad),
    ensures
        good.0 == 200 && good.1@.get("ok"@) == Some(JsonV::Bool(true))
            && good.1@.get("data"@) == Some(
            data@,
        ),
        bad.0 == 500 && bad.1@.get("ok"@) == Some(JsonV::Bool(false))
            && bad.1@.get("error"@) == Some(
            JsonV::Text(error@),
        ),
        good.1@.get("error"@) is None,
        bad.1@.get("data"@) is None,
{
    reveal_strlit("ok");
    reveal_strlit("data");
    reveal_strlit("error");
    assert("ok"@.len() == 2 && "data"@.len() == 4 && "error"@.len() == 5);
}

/// The state of the server names the port that it listens at.
pub proof fn health_names_the_port(port: u16, r: Json)
    requires
        call_ensures(health_reply, (Some(port),), r),
    ensures
        r@.get("ok"@) == Some(JsonV::Bool(true)),
        r@.get("port"@) == Some(JsonV::Unsigned(port as u64)),
        r@.get("camera_port"@) == Some(JsonV::Unsigned(camera::CAMERA_MJPEG_PORT as u64)),
        r@.get("mode"@) == Some(JsonV::Text("lan-webgui"@)),
{
    reveal_strlit("ok");
    reveal_strlit("port");
    reveal_strlit("mode");
    reveal_strlit("camera_port");
    assert("ok"@.len() == 2 && "port"@.len() == 4 && "camera_port"@.len() == 11);
    assert("port"@[0] == 'p' && "mode"@[0] == 'm');
}

/// What a route serves has the type of what it is.
pub proof fn routes_have_their_content_type(route: Route, r: &'static str)
    requires
        call_ensures(content_type, (route,), r),
    ensures
        route is Index ==> r@ == "text/html; charset=utf-8"@,
        route is Utils || route is Bridge ==> r@ == "application/javascript; charset=utf-8"@,
        route is Favicon ==> r@ == "image/x-icon"@,
        route is Health || route is Invoke || route is Preflight || route is NotFound ==> r@
            == "application/json; charset=utf-8"@,
{
}

/// A body counts as what it reads as; one that is no UTF-8 is a bad request.
pub proof fn bodies_are_read_as_utf8(
    body: Vec<u8>,
    s: &str,
    parsed: Result<Json, String>,
    read: Result<(String, Json), Refusal>,
    r: Result<(String, Json), Refusal>,
)
    requires
        call_ensures(read_invocation, (body,), r),
        call_ensures(json::parse_json, (s,), parsed),
        call_ensures(invocation_in, (parsed,), read),
    ensures
        !valid_utf8(body@) ==> r is Err && (r->Err_0).status == 400,
        body@ == encode_utf8(s@) ==> view_invocation(r) == view_invocation(read),
{
    encode_utf8_decode_utf8(s@);
    encode_utf8_valid_utf8(s@);
}

/// The value of a parameter stands under its key, or else under its other key.
pub proof fn either_key_is_taken(args: &Json, p: &Param, alias: &'static str, r: Option<&Json>)
    requires
        p.alias == Some(alias),
        call_ensures(arg_value, (args, p), r),
    ensures
        args@.get(p.key@) is Some ==> r is Some && r->0@ == args@.get(p.key@)->0,
        args@.get(p.key@) is None && args@.get(alias@) is Some ==> r is Some && r->0@ == args@.get(
            alias@,
        )->0,
        args@.get(p.key@) is None && args@.get(alias@) is None ==> r is None,
{
    first_value_of_two(args@, p.key@, alias@);
}

} // verus!

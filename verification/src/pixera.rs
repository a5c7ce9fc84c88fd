//! The media server and its scheduler: requests over a websocket, the search for the scheduler
//! module, and the cues that come next.

use vstd::prelude::*;
use vstd::string::*;
use vstd::utf8::*;

use crate::alerts;
use crate::calendar;
use crate::calendar::CivilTime;
use crate::json;
use crate::json::{Json, JsonV};
use crate::numerals;
use crate::text;
use crate::ups;

verus! {

// ---------------------------------------------------------------------------
// Requests
// ---------------------------------------------------------------------------

/// Where a request goes and how it is told apart from others.
#[derive(Debug, PartialEq)]
pub struct PixeraTarget {
    pub host: String,
    pub port: u16,
    pub timeout_ms: u64,
    pub sequence: u64,
}

/// The host: the given one, else the configured one, else this machine.
pub open spec fn target_host(cfg: JsonV, host: Option<Seq<char>>) -> Seq<char> {
    match host {
        Some(h) => if !text::is_blank(h) {
            text::trimmed(h)
        } else {
            configured_host(cfg)
        },
        None => configured_host(cfg),
    }
}

pub open spec fn configured_host(cfg: JsonV) -> Seq<char> {
    match json::text_at(cfg, "pixera_ip"@) {
        Some(h) => h,
        None => "127.0.0.1"@,
    }
}

/// The configured port, of which the low 16 bits count, or the usual one.
pub open spec fn configured_port(cfg: JsonV) -> u16 {
    match cfg.get("pixera_port"@) {
        Some(v) => match v.as_unsigned() {
            Some(n) => (n % 65536) as u16,
            None => 1338,
        },
        None => 1338,
    }
}

/// The port to talk to the scheduler at.
pub fn scheduler_port(cfg: &Json) -> (r: u16)
    ensures
        r == configured_port(cfg@),
{
    match cfg.get("pixera_port") {
        Some(v) => match v.as_u64() {
            Some(n) => (n % 65536) as u16,
            None => 1338,
        },
        None => 1338,
    }
}

/// Works out where a request goes. Requests wait for half a second at least.
pub fn pixera_target(
    cfg: &Json,
    host: &Option<String>,
    port: Option<u16>,
    timeout_ms: Option<u64>,
    now_ms: u64,
) -> (r: PixeraTarget)
    ensures
        r.host@ == target_host(cfg@, text::view_option(*host)),
        r.port == match port {
            Some(p) => p,
            None => configured_port(cfg@),
        },
        r.timeout_ms == match timeout_ms {
            Some(t) => if t < 500 {
                500
            } else {
                t
            },
            None => 3500,
        },
        r.sequence == now_ms % 1_000_000_000,
{
    let given = match host {
        Some(h) => text::trim(h.as_str()),
        None => String::new(),
    };
    let target = if !given.as_str().is_empty() {
        given
    } else {
        match cfg.text_field("pixera_ip") {
            Some(h) => h.to_owned(),
            None => "127.0.0.1".to_owned(),
        }
    };
    let target_port = match port {
        Some(p) => p,
        None => scheduler_port(cfg),
    };
    let wait: u64 = match timeout_ms {
        Some(t) => if t < 500 {
            500
        } else {
            t
        },
        None => 3500,
    };
    PixeraTarget { host: target, port: target_port, timeout_ms: wait, sequence: now_ms % 1_000_000_000 }
}

/// The address of the websocket.
pub fn pixera_url(host: &str, port: u16) -> (r: String)
    ensures
        r@ == "ws://"@ + host@ + ":"@ + numerals::dec(port as nat) + "/ws_avio"@,
{
    let mut s = text::glue3("ws://", host, ":");
    s.append(numerals::dec_u64(port as u64).as_str());
    s.append("/ws_avio");
    s
}

/// The request for an address with parameters.
pub fn pixera_payload(sequence: u64, address: &str, params: Vec<Json>) -> (r: Json)
    ensures
        r@ == JsonV::Object(
            Map::<Seq<char>, JsonV>::empty().insert("type"@, JsonV::Text("Request"@)).insert(
                "sequence"@,
                JsonV::Unsigned(sequence),
            ).insert("address"@, JsonV::Text(address@)).insert(
                "params"@,
                JsonV::List(json::list_view(params@)),
            ),
        ),
{
    let mut m = json::empty_object();
    json::put(&mut m, "type", json::text("Request"));
    json::put(&mut m, "sequence", Json::Unsigned(sequence));
    json::put(&mut m, "address", json::text(address));
    json::put(&mut m, "params", Json::List(params));
    Json::Object(m)
}

/// What arrives on the websocket.
pub enum PixeraFrame {
    Text(String),
    Binary(Vec<u8>),
    /// The connection is closed.
    Closed,
    /// Something that carries no reply.
    Other,
}

/// What a frame means for the request that waits.
#[derive(Debug, PartialEq)]
pub enum PixeraStep {
    Done(Json),
    Fail(String),
    Wait,
}

/// The mathematical value of a [`PixeraStep`].
pub enum PixeraStepV {
    Done(JsonV),
    Fail(Seq<char>),
    Wait,
}

impl View for PixeraStep {
    type V = PixeraStepV;

    open spec fn view(&self) -> PixeraStepV {
        match self {
            PixeraStep::Done(j) => PixeraStepV::Done(j@),
            PixeraStep::Fail(e) => PixeraStepV::Fail(e@),
            PixeraStep::Wait => PixeraStepV::Wait,
        }
    }
}

/// What a message, read as JSON, means for the request with a sequence number: its result
/// where the number is that of the request, null where it has none.
pub open spec fn reply_step(parsed: Result<JsonV, Seq<char>>, sequence: u64) -> PixeraStepV {
    match parsed {
        Ok(j) => {
            let same = match j.get("sequence"@) {
                Some(v) => v.as_unsigned() == Some(sequence),
                None => false,
            };
            if same {
                PixeraStepV::Done(
                    match j.get("result"@) {
                        Some(v) => v,
                        None => JsonV::Null,
                    },
                )
            } else {
                PixeraStepV::Wait
            }
        },
        Err(e) => PixeraStepV::Fail("Pixera API ungültige JSON-Antwort: "@ + e),
    }
}

/// What a message that was read as JSON means for the request.
pub fn match_reply(parsed: Result<Json, String>, sequence: u64) -> (r: PixeraStep)
    ensures
        r@ == reply_step(json::view_result(parsed), sequence),
{
    match parsed {
        Ok(j) => {
            let same = match j.get("sequence") {
                Some(v) => match v.as_u64() {
                    Some(n) => n == sequence,
                    None => false,
                },
                None => false,
            };
            if !same {
                return PixeraStep::Wait;
            }
            match j.get("result") {
                Some(v) => PixeraStep::Done(v.duplicate()),
                None => PixeraStep::Done(Json::Null),
            }
        },
        Err(e) => PixeraStep::Fail(text::glue("Pixera API ungültige JSON-Antwort: ", e.as_str())),
    }
}

/// What a frame means for the request.
pub open spec fn frame_step(frame: PixeraFrame, sequence: u64) -> PixeraStepV {
    match frame {
        PixeraFrame::Text(s) => reply_step(json::json_of_text(s@), sequence),
        PixeraFrame::Binary(bytes) => if valid_utf8(bytes@) {
            reply_step(json::json_of_text(decode_utf8(bytes@)), sequence)
        } else {
            PixeraStepV::Fail("Pixera API Binary UTF-8 Fehler: "@ + numerals::utf8_error(bytes@))
        },
        PixeraFrame::Closed => PixeraStepV::Fail("Pixera API Verbindung geschlossen"@),
        PixeraFrame::Other => PixeraStepV::Wait,
    }
}

/// Decides what a frame means for the request that waits.
pub fn receive_frame(frame: PixeraFrame, sequence: u64) -> (r: PixeraStep)
    ensures
        r@ == frame_step(frame, sequence),
{
    match frame {
        PixeraFrame::Text(s) => match_reply(json::parse_json(s.as_str()), sequence),
        PixeraFrame::Binary(bytes) => match numerals::utf8_text(bytes) {
            Ok(s) => match_reply(json::parse_json(s.as_str()), sequence),
            Err(e) => PixeraStep::Fail(text::glue("Pixera API Binary UTF-8 Fehler: ", e.as_str())),
        },
        PixeraFrame::Closed => PixeraStep::Fail("Pixera API Verbindung geschlossen".to_owned()),
        PixeraFrame::Other => PixeraStep::Wait,
    }
}

/// The error of a request that takes too long.
pub fn timeout_error(address: &str) -> (r: String)
    ensures
        r@ == "Pixera API timeout: "@ + address@,
{
    text::glue("Pixera API timeout: ", address)
}

/// The error of a connection that fails.
pub fn websocket_error(host: &str, port: u16, error: &str) -> (r: String)
    ensures
        r@ == "Pixera API websocket error: "@ + host@ + ":"@ + numerals::dec(port as nat) + " ("@
            + error@ + ")"@,
{
    let mut s = text::glue3("Pixera API websocket error: ", host, ":");
    s.append(numerals::dec_u64(port as u64).as_str());
    s.append(" (");
    s.append(error);
    s.append(")");
    s
}

// ---------------------------------------------------------------------------
// The scheduler module
// ---------------------------------------------------------------------------

/// The list with a candidate added, unless it is blank or there already in any letter case.
pub open spec fn with_candidate(list: Seq<Seq<char>>, value: Seq<char>) -> Seq<Seq<char>> {
    let v = text::trimmed(value);
    if v.len() == 0 || exists|i: int| 0 <= i < list.len() && text::alike(#[trigger] list[i], v) {
        list
    } else {
        list.push(v)
    }
}

fn has_alike(list: &Vec<String>, v: &str) -> (r: bool)
    ensures
        r == exists|i: int|
            0 <= i < text::texts(list@).len() && text::alike(#[trigger] text::texts(list@)[i], v@),
{
    let ghost all = text::texts(list@);
    let mut i: usize = 0;
    while i < list.len()
        invariant
            i <= list@.len(),
            all == text::texts(list@),
            forall|j: int| 0 <= j < i ==> !text::alike(#[trigger] all[j], v@),
        decreases list@.len() - i,
    {
        if text::eq_ignore_ascii_case(list[i].as_str(), v) {
            proof {
                assert(text::alike(all[i as int], v@));
            }
            return true;
        }
        i += 1;
    }
    false
}

/// Adds a candidate, unless it is blank or there already in any letter case.
pub fn push_unique_candidate(candidates: &mut Vec<String>, value: &str)
    ensures
        text::texts(final(candidates)@) == with_candidate(text::texts(old(candidates)@), value@),
{
    let v = text::trim(value);
    if v.as_str().is_empty() {
        return;
    }
    if !has_alike(candidates, v.as_str()) {
        ups::note(candidates, v);
    }
}

/// The modules that the scheduler may be: the usual one, the one that answered last, the
/// configured one, and those of other versions.
pub open spec fn module_candidates(resolved: Seq<char>, configured: Seq<char>) -> Seq<Seq<char>> {
    let c0 = with_candidate(Seq::empty(), "Projektil_EventScheduler_V2_7"@);
    let c1 = with_candidate(c0, resolved);
    let c2 = with_candidate(c1, configured);
    let c3 = with_candidate(c2, "Projektil_EventScheduler_V2_7"@);
    let c4 = with_candidate(c3, "Projektil_EventScheduler_V27"@);
    let c5 = with_candidate(c4, "Projektil_EventScheduler_V21"@);
    with_candidate(c5, "EventScheduler_Projektil_V17"@)
}

/// Lists the modules that the scheduler may be.
pub fn scheduler_module_candidates(cfg: &Json, resolved: &str) -> (r: Vec<String>)
    ensures
        text::texts(r@) == module_candidates(
            resolved@,
            alerts::config_text(cfg@, "pixera_scheduler_module"@),
        ),
{
    let mut list: Vec<String> = Vec::new();
    proof {
        assert(text::texts(list@) =~= Seq::<Seq<char>>::empty());
    }
    push_unique_candidate(&mut list, "Projektil_EventScheduler_V2_7");
    push_unique_candidate(&mut list, resolved);
    push_unique_candidate(
        &mut list,
        alerts::text_setting(cfg, "pixera_scheduler_module").as_str(),
    );
    push_unique_candidate(&mut list, "Projektil_EventScheduler_V2_7");
    push_unique_candidate(&mut list, "Projektil_EventScheduler_V27");
    push_unique_candidate(&mut list, "Projektil_EventScheduler_V21");
    push_unique_candidate(&mut list, "EventScheduler_Projektil_V17");
    list
}

/// Whether no two texts of a list are alike.
pub open spec fn unlike(list: Seq<Seq<char>>) -> bool {
    forall|i: int, j: int|
        0 <= i < j < list.len() ==> !text::alike(#[trigger] list[i], #[trigger] list[j])
}

proof fn candidate_stays_unlike(list: Seq<Seq<char>>, value: Seq<char>)
    requires
        unlike(list),
    ensures
        unlike(with_candidate(list, value)),
{
}

/// No module is tried twice, whatever its letter case.
pub proof fn candidates_are_unlike(resolved: Seq<char>, configured: Seq<char>)
    ensures
        unlike(module_candidates(resolved, configured)),
{
    assert forall|list: Seq<Seq<char>>, value: Seq<char>| unlike(list) implies unlike(
        #[trigger] with_candidate(list, value),
    ) by {
        candidate_stays_unlike(list, value);
    }
    assert(unlike(Seq::<Seq<char>>::empty()));
}

/// The addresses of a path: below the configured root, where there is one, and as it is.
pub open spec fn paths_of(root: Seq<char>, base: Seq<char>) -> Seq<Seq<char>> {
    if root.len() == 0 {
        seq![base]
    } else {
        seq![root + "."@ + base, base]
    }
}

pub fn pixera_paths(cfg: &Json, base_path: &str) -> (r: Vec<String>)
    ensures
        text::texts(r@) == paths_of(alerts::config_text(cfg@, "pixera_api_root"@), base_path@),
{
    let root = alerts::text_setting(cfg, "pixera_api_root");
    let mut list: Vec<String> = Vec::new();
    if !root.as_str().is_empty() {
        ups::note(&mut list, text::glue3(root.as_str(), ".", base_path));
    }
    ups::note(&mut list, base_path.to_owned());
    proof {
        assert(text::texts(list@) =~= paths_of(
            alerts::config_text(cfg@, "pixera_api_root"@),
            base_path@,
        ));
    }
    list
}

/// The addresses of a method on a module.
pub fn method_paths(cfg: &Json, module: &str, method: &str) -> (r: Vec<String>)
    ensures
        text::texts(r@) == paths_of(
            alerts::config_text(cfg@, "pixera_api_root"@),
            module@ + "."@ + method@,
        ),
{
    pixera_paths(cfg, text::glue3(module, ".", method).as_str())
}

/// Whether a list is an exception of the server.
pub open spec fn is_exception(list: Seq<JsonV>) -> bool {
    list.len() > 0 && match list[0].get2("_pixc"@, "type"@) {
        Some(v) => v.as_integer() == Some(125i64),
        None => false,
    }
}

pub open spec fn unauthorized(s: Seq<char>) -> bool {
    text::has(text::lowered(s), "not authorized"@)
}

/// A result as it is used: a list with one entry is that entry; exceptions and refusals are
/// errors.
pub open spec fn normal_result(result: JsonV) -> Result<JsonV, Seq<char>> {
    match result {
        JsonV::List(list) => if is_exception(list) {
            Err(
                if list.len() > 2 && list[2] is Text {
                    list[2]->Text_0
                } else {
                    "Pixera exception"@
                },
            )
        } else if list.len() == 1 {
            match list[0] {
                JsonV::Text(s) => if unauthorized(s) {
                    Err(s)
                } else {
                    Ok(list[0])
                },
                _ => Ok(list[0]),
            }
        } else {
            Ok(result)
        },
        JsonV::Text(s) => if unauthorized(s) {
            Err(s)
        } else {
            Ok(result)
        },
        _ => Ok(result),
    }
}

fn refused(v: &Json) -> (r: Option<String>)
    ensures
        text::view_option(r) == match v@ {
            JsonV::Text(s) => if unauthorized(s) {
                Some(s)
            } else {
                None
            },
            _ => None,
        },
{
    match v.as_str() {
        Some(s) => if text::contains(text::to_ascii_lowercase(s).as_str(), "not authorized") {
            Some(s.to_owned())
        } else {
            None
        },
        None => None,
    }
}

/// Brings a result into the form in which it is used.
pub fn normalize_pixera_result(result: Json) -> (r: Result<Json, String>)
    ensures
        json::view_result(r) == normal_result(result@),
{
    if let Some(list) = result.as_array() {
        proof {
            json::list_view_index(list@);
        }
        let n = list.len();
        if n > 0 {
            let exception = match list[0].get2("_pixc", "type") {
                Some(v) => match v.as_i64() {
                    Some(t) => t == 125,
                    None => false,
                },
                None => false,
            };
            if exception {
                if n > 2 {
                    if let Some(msg) = list[2].as_str() {
                        return Err(msg.to_owned());
                    }
                }
                return Err("Pixera exception".to_owned());
            }
        }
        if n == 1 {
            if let Some(msg) = refused(&list[0]) {
                return Err(msg);
            }
            return Ok(list[0].duplicate());
        }
        return Ok(result);
    }
    if let Some(msg) = refused(&result) {
        return Err(msg);
    }
    Ok(result)
}

/// Whether a result says nothing.
pub open spec fn is_empty_result(v: JsonV) -> bool {
    match v {
        JsonV::Null => true,
        JsonV::Text(s) => text::is_blank(s),
        _ => false,
    }
}

pub fn pixera_result_is_empty(value: &Json) -> (r: bool)
    ensures
        r == is_empty_result(value@),
{
    match value {
        Json::Null => true,
        Json::Text(s) => text::blank(s.as_str()),
        _ => false,
    }
}

/// The words by which an error is known as one of the connection.
pub open spec fn connectivity_words() -> Seq<Seq<char>> {
    seq![
        "timeout"@,
        "timed out"@,
        "websocket error"@,
        "verbindung geschlossen"@,
        "connection closed"@,
        "send failed"@,
        "receive failed"@,
        "refused"@,
        "10061"@,
        "host unreachable"@,
        "network is unreachable"@,
    ]
}

pub open spec fn is_connectivity(error: Seq<char>) -> bool {
    alerts::has_any(text::lowered(error), connectivity_words())
}

pub fn is_pixera_connectivity_error(error: &str) -> (r: bool)
    ensures
        r == is_connectivity(error@),
{
    let list = vec![
        "timeout",
        "timed out",
        "websocket error",
        "verbindung geschlossen",
        "connection closed",
        "send failed",
        "receive failed",
        "refused",
        "10061",
        "host unreachable",
        "network is unreachable",
    ];
    proof {
        assert(alerts::slices(list@) =~= connectivity_words());
    }
    alerts::contains_any(text::to_ascii_lowercase(error).as_str(), &list)
}

/// What the outcome of a request means for a call of the scheduler that tries one address
/// after the other.
#[derive(Debug, PartialEq)]
pub enum CallStep {
    /// The call has its result.
    Found(Json),
    /// The call ends with an error of the connection.
    Abort(String),
    /// The next address is tried; the first error so far is kept.
    TryNext(Option<String>),
}

/// The mathematical value of a [`CallStep`].
pub enum CallStepV {
    Found(JsonV),
    Abort(Seq<char>),
    TryNext(Option<Seq<char>>),
}

impl View for CallStep {
    type V = CallStepV;

    open spec fn view(&self) -> CallStepV {
        match self {
            CallStep::Found(j) => CallStepV::Found(j@),
            CallStep::Abort(e) => CallStepV::Abort(e@),
            CallStep::TryNext(o) => CallStepV::TryNext(text::view_option(*o)),
        }
    }
}

pub open spec fn first_of(first: Option<Seq<char>>, e: Seq<char>) -> Option<Seq<char>> {
    match first {
        Some(s) => Some(s),
        None => Some(e),
    }
}

/// What the outcome of one request means for a call.
pub open spec fn call_step(
    first_error: Option<Seq<char>>,
    allow_empty: bool,
    outcome: Result<JsonV, Seq<char>>,
) -> CallStepV {
    match outcome {
        Ok(result) => match normal_result(result) {
            Ok(v) => if !allow_empty && is_empty_result(v) {
                CallStepV::TryNext(first_error)
            } else {
                CallStepV::Found(v)
            },
            Err(e) => CallStepV::TryNext(first_of(first_error, e)),
        },
        Err(e) => if is_connectivity(e) {
            CallStepV::Abort(e)
        } else {
            CallStepV::TryNext(first_of(first_error, e))
        },
    }
}

fn keep_first(first: Option<String>, e: String) -> (r: Option<String>)
    ensures
        text::view_option(r) == first_of(text::view_option(first), e@),
{
    match first {
        Some(s) => Some(s),
        None => Some(e),
    }
}

/// Decides what the outcome of one request means for a call.
pub fn scheduler_step(
    first_error: Option<String>,
    allow_empty: bool,
    outcome: Result<Json, String>,
) -> (r: CallStep)
    ensures
        r@ == call_step(
            text::view_option(first_error),
            allow_empty,
            json::view_result(outcome),
        ),
{
    match outcome {
        Ok(result) => match normalize_pixera_result(result) {
            Ok(v) => if !allow_empty && pixera_result_is_empty(&v) {
                CallStep::TryNext(first_error)
            } else {
                CallStep::Found(v)
            },
            Err(e) => CallStep::TryNext(keep_first(first_error, e)),
        },
        Err(e) => if is_pixera_connectivity_error(e.as_str()) {
            CallStep::Abort(e)
        } else {
            CallStep::TryNext(keep_first(first_error, e))
        },
    }
}

/// The error of a call that found no address that answered.
pub fn scheduler_failure(first_error: Option<String>, method: &str) -> (r: String)
    ensures
        r@ == match first_error {
            Some(e) => e@,
            None => "Scheduler call failed for "@ + method@,
        },
{
    match first_error {
        Some(e) => e,
        None => text::glue("Scheduler call failed for ", method),
    }
}

/// The modules and addresses that a call tries, one after the other.
pub open spec fn call_addresses(
    modules: Seq<Seq<char>>,
    root: Seq<char>,
    method: Seq<char>,
) -> Seq<(Seq<char>, Seq<char>)>
    decreases modules.len(),
{
    if modules.len() == 0 {
        Seq::empty()
    } else {
        let m = modules.last();
        let paths = paths_of(root, m + "."@ + method);
        call_addresses(modules.drop_last(), root, method) + Seq::new(
            paths.len(),
            |i: int| (m, paths[i]),
        )
    }
}

/// A call of the scheduler: the modules and addresses, the next one to try, the first error so
/// far, and how the call ended.
pub struct SchedulerCall {
    pub method: String,
    pub allow_empty: bool,
    pub tries: Vec<(String, String)>,
    pub next: usize,
    pub first_error: Option<String>,
    pub ended: Option<Result<(String, Json), String>>,
}

/// The mathematical value of a [`SchedulerCall`]: of the addresses those that are left.
pub struct SchedulerCallV {
    pub method: Seq<char>,
    pub allow_empty: bool,
    pub left: Seq<(Seq<char>, Seq<char>)>,
    pub first_error: Option<Seq<char>>,
    pub ended: Option<Result<(Seq<char>, JsonV), Seq<char>>>,
}

pub open spec fn view_pairs(list: Seq<(String, String)>) -> Seq<(Seq<char>, Seq<char>)> {
    Seq::new(list.len(), |i: int| (list[i].0@, list[i].1@))
}

pub open spec fn view_answer(r: Result<(String, Json), String>) -> Result<
    (Seq<char>, JsonV),
    Seq<char>,
> {
    match r {
        Ok((module, value)) => Ok((module@, value@)),
        Err(e) => Err(e@),
    }
}

impl View for SchedulerCall {
    type V = SchedulerCallV;

    open spec fn view(&self) -> SchedulerCallV {
        SchedulerCallV {
            method: self.method@,
            allow_empty: self.allow_empty,
            left: view_pairs(self.tries@).skip(self.next as int),
            first_error: text::view_option(self.first_error),
            ended: match self.ended {
                Some(r) => Some(view_answer(r)),
                None => None,
            },
        }
    }
}

/// The address that is asked next.
pub open spec fn call_address(call: SchedulerCallV) -> Option<Seq<char>> {
    if call.ended is None && call.left.len() > 0 {
        Some(call.left[0].1)
    } else {
        None
    }
}

/// A call after the outcome of the request to its next address.
pub open spec fn call_after(call: SchedulerCallV, outcome: Result<JsonV, Seq<char>>) -> SchedulerCallV {
    if call_address(call) is None {
        call
    } else {
        match call_step(call.first_error, call.allow_empty, outcome) {
            CallStepV::Found(v) => SchedulerCallV {
                first_error: None,
                ended: Some(Ok((call.left[0].0, v))),
                ..call
            },
            CallStepV::Abort(e) => SchedulerCallV {
                first_error: None,
                ended: Some(Err(e)),
                ..call
            },
            CallStepV::TryNext(first_error) => SchedulerCallV {
                left: call.left.drop_first(),
                first_error,
                ..call
            },
        }
    }
}

/// The module that answered and its answer, or the error of a call.
pub open spec fn call_outcome(call: SchedulerCallV) -> Result<(Seq<char>, JsonV), Seq<char>> {
    match call.ended {
        Some(r) => r,
        None => match call.first_error {
            Some(e) => Err(e),
            None => Err("Scheduler call failed for "@ + call.method),
        },
    }
}

impl SchedulerCall {
    pub open spec fn wf(&self) -> bool {
        self.next <= self.tries@.len()
    }

    /// Begins a call of a method. `resolved` is the module that answered last.
    pub fn start(cfg: &Json, resolved: &str, method: &str, allow_empty: bool) -> (r: Self)
        ensures
            r.wf(),
            r@ == (SchedulerCallV {
                method: method@,
                allow_empty,
                left: call_addresses(
                    module_candidates(
                        resolved@,
                        alerts::config_text(cfg@, "pixera_scheduler_module"@),
                    ),
                    alerts::config_text(cfg@, "pixera_api_root"@),
                    method@,
                ),
                first_error: None,
                ended: None,
            }),
    {
        let modules = scheduler_module_candidates(cfg, resolved);
        let ghost root = alerts::config_text(cfg@, "pixera_api_root"@);
        let ghost all = text::texts(modules@);
        let mut tries: Vec<(String, String)> = Vec::new();
        let mut i: usize = 0;
        proof {
            assert(view_pairs(tries@) =~= call_addresses(all.take(0), root, method@));
        }
        while i < modules.len()
            invariant
                i <= modules@.len(),
                all == text::texts(modules@),
                root == alerts::config_text(cfg@, "pixera_api_root"@),
                view_pairs(tries@) == call_addresses(all.take(i as int), root, method@),
            decreases modules@.len() - i,
        {
            let paths = method_paths(cfg, modules[i].as_str(), method);
            let ghost before = view_pairs(tries@);
            let ghost m = modules@[i as int]@;
            let ghost named = Seq::new(
                text::texts(paths@).len(),
                |k: int| (m, text::texts(paths@)[k]),
            );
            let mut k: usize = 0;
            while k < paths.len()
                invariant
                    k <= paths@.len(),
                    i < modules@.len(),
                    m == modules@[i as int]@,
                    named == Seq::new(
                        text::texts(paths@).len(),
                        |k: int| (m, text::texts(paths@)[k]),
                    ),
                    view_pairs(tries@) == before + named.take(k as int),
                decreases paths@.len() - k,
            {
                let ghost pairs = tries@;
                tries.push((modules[i].clone(), paths[k].clone()));
                proof {
                    assert(view_pairs(tries@) =~= view_pairs(pairs).push(named[k as int]));
                    assert(named.take(k + 1) =~= named.take(k as int).push(named[k as int]));
                }
                k += 1;
            }
            proof {
                assert(named.take(k as int) =~= named);
                assert(all.take(i + 1).drop_last() =~= all.take(i as int));
                assert(all.take(i + 1).last() == m);
            }
            i += 1;
        }
        proof {
            assert(all.take(i as int) =~= all);
            assert(view_pairs(tries@).skip(0) =~= view_pairs(tries@));
        }
        SchedulerCall {
            method: method.to_owned(),
            allow_empty,
            tries,
            next: 0,
            first_error: None,
            ended: None,
        }
    }

    /// The address to ask next; none when the call has ended.
    pub fn next_address(&self) -> (r: Option<String>)
        requires
            self.wf(),
        ensures
            text::view_option(r) == call_address(self@),
    {
        if self.ended.is_none() && self.next < self.tries.len() {
            Some(self.tries[self.next].1.clone())
        } else {
            None
        }
    }

    /// Takes in the outcome of the request to the next address.
    pub fn absorb(&mut self, outcome: Result<Json, String>)
        requires
            old(self).wf(),
        ensures
            final(self).wf(),
            final(self)@ == call_after(old(self)@, json::view_result(outcome)),
    {
        if self.ended.is_some() || self.next >= self.tries.len() {
            return;
        }
        let ghost before = self@;
        let first = self.first_error.take();
        match scheduler_step(first, self.allow_empty, outcome) {
            CallStep::Found(v) => {
                self.first_error = None;
                self.ended = Some(Ok((self.tries[self.next].0.clone(), v)));
            },
            CallStep::Abort(e) => {
                self.first_error = None;
                self.ended = Some(Err(e));
            },
            CallStep::TryNext(first_error) => {
                self.first_error = first_error;
                self.next = self.next + 1;
                proof {
                    assert(before.left.drop_first() =~= view_pairs(self.tries@).skip(
                        self.next as int,
                    ));
                }
            },
        }
    }

    /// The module that answered and its answer, or the error of the call.
    pub fn finish(self) -> (r: Result<(String, Json), String>)
        ensures
            view_answer(r) == call_outcome(self@),
    {
        match self.ended {
            Some(r) => r,
            None => Err(scheduler_failure(self.first_error, self.method.as_str())),
        }
    }
}

/// With every outcome a call comes closer to its end.
pub proof fn scheduler_calls_end(call: SchedulerCallV, outcome: Result<JsonV, Seq<char>>)
    requires
        call_address(call) is Some,
    ensures
        call_after(call, outcome).ended is Some || call_after(call, outcome).left.len()
            < call.left.len(),
{
}

/// A lost connection ends a call at once, and a result that counts is the answer of the call.
pub proof fn scheduler_calls_stop(call: SchedulerCallV, outcome: Result<JsonV, Seq<char>>)
    requires
        call_address(call) is Some,
    ensures
        match outcome {
            Err(e) => is_connectivity(e) ==> call_outcome(call_after(call, outcome)) == Err::<
                (Seq<char>, JsonV),
                Seq<char>,
            >(e),
            Ok(result) => match normal_result(result) {
                Ok(v) => call.allow_empty || !is_empty_result(v) ==> call_outcome(
                    call_after(call, outcome),
                ) == Ok::<(Seq<char>, JsonV), Seq<char>>((call.left[0].0, v)),
                Err(_) => true,
            },
        },
{
}

/// The methods that are called, in this order, to wake the scheduler up.
pub fn warmup_method(i: usize) -> (r: &'static str)
    ensures
        r@ == match i {
            0 => "ref"@,
            1 => "init"@,
            _ => "Time"@,
        },
{
    match i {
        0 => "ref",
        1 => "init",
        _ => "Time",
    }
}

/// Whether the scheduler is woken up and read once more after the outcome of a first read: not
/// where it gave something, and not where the connection failed.
pub open spec fn warmup_due(outcome: Result<JsonV, Seq<char>>) -> bool {
    match outcome {
        Ok(v) => is_empty_result(v),
        Err(e) => !is_connectivity(e),
    }
}

pub fn needs_warmup(outcome: &Result<Json, String>) -> (r: bool)
    ensures
        r == warmup_due(json::view_result(*outcome)),
{
    match outcome {
        Ok(v) => pixera_result_is_empty(v),
        Err(e) => !is_pixera_connectivity_error(e.as_str()),
    }
}

// ---------------------------------------------------------------------------
// Times
// ---------------------------------------------------------------------------

/// Hours, minutes and seconds in a countdown.
pub open spec fn countdown_parts(s: Seq<char>) -> Option<(nat, nat, nat)> {
    let parts = text::pieces(text::trimmed(s), ':');
    if parts.len() != 3 {
        None
    } else {
        let max = u64::MAX as nat;
        match (
            numerals::parsed_unsigned(parts[0], max),
            numerals::parsed_unsigned(parts[1], max),
            numerals::parsed_unsigned(parts[2], max),
        ) {
            (Some(h), Some(m), Some(sec)) => if m > 59 || sec > 59 {
                None
            } else {
                Some((h, m, sec))
            },
            _ => None,
        }
    }
}

/// A countdown in milliseconds, of which the low 64 bits count.
pub open spec fn countdown_ms(value: JsonV) -> Option<u64> {
    let s = match value.as_text() {
        Some(s) => s,
        None => Seq::empty(),
    };
    match countdown_parts(s) {
        Some((h, m, sec)) => Some(
            (((h * 3600 + m * 60 + sec) * 1000) % 0x1_0000_0000_0000_0000) as u64,
        ),
        None => None,
    }
}

/// Reads a countdown.
pub fn parse_countdown_ms(value: &Json) -> (r: Option<u64>)
    ensures
        r == countdown_ms(value@),
{
    proof {
        reveal_strlit("");
        assert(""@ =~= Seq::<char>::empty());
    }
    let s = match value.as_str() {
        Some(s) => text::trim(s),
        None => text::trim(""),
    };
    let parts = text::split(s.as_str(), ':');
    if parts.len() != 3 {
        return None;
    }
    proof {
        assert(text::texts(parts@)[0] == parts@[0]@);
        assert(text::texts(parts@)[1] == parts@[1]@);
        assert(text::texts(parts@)[2] == parts@[2]@);
    }
    let h = match numerals::parse_unsigned(parts[0].as_str(), u64::MAX) {
        Some(n) => n,
        None => {
            return None;
        },
    };
    let m = match numerals::parse_unsigned(parts[1].as_str(), u64::MAX) {
        Some(n) => n,
        None => {
            return None;
        },
    };
    let sec = match numerals::parse_unsigned(parts[2].as_str(), u64::MAX) {
        Some(n) => n,
        None => {
            return None;
        },
    };
    if m > 59 || sec > 59 {
        return None;
    }
    let total: u128 = (h as u128 * 3600 + m as u128 * 60 + sec as u128) * 1000;
    Some((total % 0x1_0000_0000_0000_0000) as u64)
}

/// The parts of a list of texts that are numbers.
pub open spec fn numbers_in(parts: Seq<Seq<char>>) -> Seq<u32>
    decreases parts.len(),
{
    if parts.len() == 0 {
        Seq::empty()
    } else {
        let before = numbers_in(parts.drop_last());
        match numerals::parsed_unsigned(parts.last(), u32::MAX as nat) {
            Some(n) => before.push(n as u32),
            None => before,
        }
    }
}

fn read_numbers(s: &str, sep: char) -> (r: Vec<u32>)
    ensures
        r@ == numbers_in(text::pieces(s@, sep)),
{
    let parts = text::split(s, sep);
    let ghost all = text::texts(parts@);
    let mut out: Vec<u32> = Vec::new();
    let mut i: usize = 0;
    while i < parts.len()
        invariant
            i <= parts@.len(),
            all == text::texts(parts@),
            out@ == numbers_in(all.take(i as int)),
        decreases parts@.len() - i,
    {
        proof {
            assert(all.take(i + 1).drop_last() =~= all.take(i as int));
            assert(all.take(i + 1).last() == parts@[i as int]@);
        }
        if let Some(n) = numerals::parse_unsigned(parts[i].as_str(), u32::MAX as u64) {
            out.push(n as u32);
        }
        i += 1;
    }
    proof {
        assert(all.take(i as int) =~= all);
    }
    out
}

/// The number with the same 32 bits as a signed one.
pub open spec fn as_signed32(n: u32) -> int {
    if n >= 0x8000_0000 {
        n - 0x1_0000_0000
    } else {
        n as int
    }
}

/// Year, month, day, hour, minute and second of a date and time as the scheduler writes it:
/// `2025.12.31 23:59:00`, the seconds being optional.
pub open spec fn datetime_parts(value: JsonV) -> Option<(int, u32, u32, u32, u32, u32)> {
    match value.as_text() {
        Some(s) => {
            let words = text::words(text::trimmed(s));
            if words.len() < 2 {
                None
            } else {
                let d = numbers_in(text::pieces(words[0], '.'));
                let t = numbers_in(text::pieces(words[1], ':'));
                if d.len() != 3 || t.len() < 2 {
                    None
                } else {
                    Some(
                        (
                            as_signed32(d[0]),
                            d[1],
                            d[2],
                            t[0],
                            t[1],
                            if t.len() > 2 {
                                t[2]
                            } else {
                                0
                            },
                        ),
                    )
                }
            }
        },
        None => None,
    }
}

pub open spec fn view_parts(o: Option<(i32, u32, u32, u32, u32, u32)>) -> Option<
    (int, u32, u32, u32, u32, u32),
> {
    match o {
        Some((y, mo, d, h, mi, s)) => Some((y as int, mo, d, h, mi, s)),
        None => None,
    }
}

/// Reads the parts of a date and time.
pub fn schedule_parts(value: &Json) -> (r: Option<(i32, u32, u32, u32, u32, u32)>)
    ensures
        view_parts(r) == datetime_parts(value@),
{
    let s = match value.as_str() {
        Some(s) => text::trim(s),
        None => {
            return None;
        },
    };
    let words = text::split_whitespace(s.as_str());
    if words.len() < 2 {
        return None;
    }
    proof {
        assert(text::texts(words@)[0] == words@[0]@);
        assert(text::texts(words@)[1] == words@[1]@);
    }
    let d = read_numbers(words[0].as_str(), '.');
    let t = read_numbers(words[1].as_str(), ':');
    if d.len() != 3 || t.len() < 2 {
        return None;
    }
    let second: u32 = if t.len() > 2 {
        t[2]
    } else {
        0
    };
    let year: i32 = if d[0] >= 0x8000_0000 {
        -((0xffff_ffff - d[0]) as i32) - 1
    } else {
        d[0] as i32
    };
    Some((year, d[1], d[2], t[0], t[1], second))
}

/// The date and time of its parts.
pub open spec fn civil_time_of(parts: (int, u32, u32, u32, u32, u32)) -> CivilTime {
    CivilTime {
        year: parts.0,
        month: parts.1 as int,
        day: parts.2 as int,
        hour: parts.3 as int,
        minute: parts.4 as int,
        second: parts.5 as int,
    }
}

/// Whether a timestamp in milliseconds can be that of a local date and time, zero standing for
/// all of them before 1970.
pub open spec fn is_timestamp_of(ms: int, c: CivilTime) -> bool {
    c.exists_in_calendar() && (c.shown_at(ms) || (ms == 0 && c.clock_ms() < 86_400_000)) && ms
        % 1000 == 0
}

/// A timestamp as it is counted here: none before 1970.
pub fn not_before_epoch(ms: Option<i64>) -> (r: Option<u64>)
    ensures
        r == match ms {
            Some(t) => Some(
                if t < 0 {
                    0u64
                } else {
                    t as u64
                },
            ),
            None => None,
        },
{
    match ms {
        Some(t) => if t < 0 {
            Some(0)
        } else {
            Some(t as u64)
        },
        None => None,
    }
}

/// A timestamp as it is counted here, none being before 1970.
pub open spec fn counted(ms: Option<i64>) -> Option<u64> {
    match ms {
        Some(t) => Some(
            if t < 0 {
                0u64
            } else {
                t as u64
            },
        ),
        None => None,
    }
}

/// Whether the local clock, asked for a date and time, gave this.
pub open spec fn clock_gave(parts: (int, u32, u32, u32, u32, u32), local: Option<i64>) -> bool {
    calendar::local_clock_gives(
        parts.0 as i32,
        parts.1,
        parts.2,
        parts.3,
        parts.4,
        parts.5,
        local,
    )
}

/// Whether the local clock, asked for the date and time that a value names, gave this
/// timestamp, zero standing for all before 1970; none where the value names no date and time,
/// or where the clock gave none.
pub open spec fn is_time_named(value: JsonV, timestamp: Option<u64>) -> bool {
    match datetime_parts(value) {
        Some(parts) => exists|local: Option<i64>| #[trigger]
            clock_gave(parts, local) && timestamp == counted(local),
        None => timestamp is None,
    }
}

/// Reads a date and time as the scheduler writes it, as a timestamp in milliseconds, or zero
/// for times before 1970. Which timestamp it is depends on the time zone of the machine: it is
/// the one that the local clock gives for the date and time that the value names.
pub fn parse_pixera_schedule_datetime_ms(value: &Json) -> (r: Option<u64>)
    ensures
        is_time_named(value@, r),
        r matches Some(ms) ==> match datetime_parts(value@) {
            Some(parts) => is_timestamp_of(ms as int, civil_time_of(parts)),
            None => false,
        },
{
    match schedule_parts(value) {
        Some((y, mo, d, h, mi, s)) => {
            let local = calendar::ask_local_clock(y, mo, d, h, mi, s);
            proof {
                let parts = (y as int, mo, d, h, mi, s);
                assert(datetime_parts(value@) == Some(parts));
                assert(clock_gave(datetime_parts(value@)->0, local));
                assert(is_time_named(value@, counted(local)));
                if let Some(t) = local {
                    calendar::the_clock_gives_real_times(y, mo, d, h, mi, s, t);
                }
            }
            not_before_epoch(local)
        },
        None => {
            assert(datetime_parts(value@) is None);
            None
        },
    }
}

// ---------------------------------------------------------------------------
// Cues
// ---------------------------------------------------------------------------

/// What a value says of the events: a list of them, or a text to read further.
#[derive(Debug, PartialEq)]
pub enum EventsStep {
    Events(Vec<Json>),
    Read(String),
}

/// The mathematical value of an [`EventsStep`].
pub enum EventsStepV {
    Events(Seq<JsonV>),
    Read(Seq<char>),
}

impl View for EventsStep {
    type V = EventsStepV;

    open spec fn view(&self) -> EventsStepV {
        match self {
            EventsStep::Events(l) => EventsStepV::Events(json::list_view(l@)),
            EventsStep::Read(s) => EventsStepV::Read(s@),
        }
    }
}

pub open spec fn list_at(v: JsonV, key: Seq<char>) -> Option<Seq<JsonV>> {
    match v.get(key) {
        Some(x) => x.as_list(),
        None => None,
    }
}

/// The events in a value: a list is the list of events; an object may hold it under two keys;
/// a text that is not blank is to be read.
pub open spec fn events_step(v: JsonV) -> EventsStepV {
    match v {
        JsonV::List(l) => EventsStepV::Events(l),
        JsonV::Text(s) => if text::is_blank(s) {
            EventsStepV::Events(Seq::empty())
        } else {
            EventsStepV::Read(text::trimmed(s))
        },
        _ => match list_at(v, "value"@) {
            Some(l) => EventsStepV::Events(l),
            None => match list_at(v, "events"@) {
                Some(l) => EventsStepV::Events(l),
                None => EventsStepV::Events(Seq::empty()),
            },
        },
    }
}

fn list_field<'a>(v: &'a Json, key: &str) -> (r: Option<&'a Vec<Json>>)
    ensures
        match r {
            Some(l) => list_at(v@, key@) == Some(json::list_view(l@)),
            None => list_at(v@, key@) is None,
        },
{
    match v.get(key) {
        Some(x) => x.as_array(),
        None => None,
    }
}

/// Looks for the events in a value.
pub fn events_in_value(v: &Json) -> (r: EventsStep)
    ensures
        r@ == events_step(v@),
{
    if let Some(list) = v.as_array() {
        return EventsStep::Events(json::copy_list(list));
    }
    if let Some(s) = v.as_str() {
        let t = text::trim(s);
        if t.as_str().is_empty() {
            return EventsStep::Events(Vec::new());
        }
        return EventsStep::Read(t);
    }
    if let Some(list) = list_field(v, "value") {
        return EventsStep::Events(json::copy_list(list));
    }
    if let Some(list) = list_field(v, "events") {
        return EventsStep::Events(json::copy_list(list));
    }
    EventsStep::Events(Vec::new())
}

/// The events in a value, with texts read as JSON up to `n` times.
pub open spec fn events_of(v: JsonV, n: nat) -> Seq<JsonV>
    decreases n,
{
    if n == 0 {
        match v {
            JsonV::List(l) => l,
            _ => Seq::empty(),
        }
    } else {
        match events_step(v) {
            EventsStepV::Events(l) => l,
            EventsStepV::Read(s) => match json::json_of_text(s) {
                Ok(next) => events_of(next, (n - 1) as nat),
                Err(_) => Seq::empty(),
            },
        }
    }
}

/// Reads the list of events that come next, which may be wrapped in up to three layers of
/// text.
pub fn parse_upcoming_events(raw: Json) -> (r: Vec<Json>)
    ensures
        json::list_view(r@) == events_of(raw@, 3),
{
    let mut value = raw;
    let mut n: usize = 3;
    while n > 0
        invariant
            n <= 3,
            events_of(raw@, 3) == events_of(value@, n as nat),
        decreases n,
    {
        match events_in_value(&value) {
            EventsStep::Events(list) => {
                return list;
            },
            EventsStep::Read(s) => match json::parse_json(s.as_str()) {
                Ok(next) => {
                    value = next;
                },
                Err(_) => {
                    return Vec::new();
                },
            },
        }
        n -= 1;
    }
    match value {
        Json::List(list) => list,
        _ => Vec::new(),
    }
}

/// How long it is until an event: as long as the event says, or until its time.
pub open spec fn countdown_of(in_sec_ms: Option<u64>, target: Option<u64>, now: u64) -> Option<u64> {
    match in_sec_ms {
        Some(ms) => Some(ms),
        None => match target {
            Some(t) => Some(alerts::since(t, now) as u64),
            None => None,
        },
    }
}

/// How long it is until an event, given how long the event says it is and when its time is.
pub fn event_countdown(in_sec_ms: Option<u64>, target: Option<u64>, server_time_ms: u64) -> (r:
    Option<u64>)
    ensures
        r == countdown_of(in_sec_ms, target, server_time_ms),
{
    match in_sec_ms {
        Some(ms) => Some(ms),
        None => match target {
            Some(t) => Some(t.saturating_sub(server_time_ms)),
            None => None,
        },
    }
}

/// Whether a timestamp is the one that the local clock gives for the time of an event; the time
/// zone decides which one it is, and whether there is one.
pub open spec fn may_be_time_of(event: JsonV, target: Option<u64>) -> bool {
    (match event.get("time"@) {
        Some(t) => is_time_named(t, target),
        None => target is None,
    }) && match target {
        Some(ms) => match event.get("time"@) {
            Some(t) => match datetime_parts(t) {
                Some(parts) => is_timestamp_of(ms as int, civil_time_of(parts)),
                None => false,
            },
            None => false,
        },
        None => true,
    }
}

/// Whether it can be that long until an event. `in_sec_ms` is what the event itself says.
pub open spec fn may_be_countdown(
    event: JsonV,
    in_sec_ms: Option<u64>,
    server_time_ms: u64,
    countdown: Option<u64>,
) -> bool {
    match in_sec_ms {
        Some(ms) => countdown == Some(ms),
        None => exists|target: Option<u64>|
            may_be_time_of(event, target) && countdown == #[trigger] countdown_of(
                in_sec_ms,
                target,
                server_time_ms,
            ),
    }
}

pub open spec fn view_event(o: Option<Json>) -> Option<JsonV> {
    match o {
        Some(j) => Some(j@),
        None => None,
    }
}

/// How long it is until an event. `in_sec_ms` is what the event itself says, in milliseconds.
pub fn upcoming_event_countdown_ms(event: &Json, in_sec_ms: Option<u64>, server_time_ms: u64) -> (r:
    Option<u64>)
    ensures
        may_be_countdown(event@, in_sec_ms, server_time_ms, r),
        in_sec_ms is None && event@.get("time"@) is None ==> r is None,
        in_sec_ms is None && event@.get("time"@) is Some
            ==> exists|time: &Json, target: Option<u64>|
            time@ == event@.get("time"@)->0 && #[trigger] call_ensures(
                parse_pixera_schedule_datetime_ms,
                (time,),
                target,
            ) && (r is Some <==> target is Some) && (target is Some ==> r->0 == (if target->0
                >= server_time_ms {
                target->0 - server_time_ms
            } else {
                0
            })),
{
    if in_sec_ms.is_some() {
        return in_sec_ms;
    }
    let target = match event.get("time") {
        Some(t) => parse_pixera_schedule_datetime_ms(t),
        None => None,
    };
    event_countdown(in_sec_ms, target, server_time_ms)
}

/// Whether the event at `i` comes first of those that are still to come: the first one with
/// the shortest countdown that is not zero.
pub open spec fn comes_first(countdowns: Seq<Option<u64>>, i: int) -> bool {
    &&& 0 <= i < countdowns.len()
    &&& countdowns[i] is Some && countdowns[i]->0 > 0
    &&& forall|j: int|
        0 <= j < countdowns.len() && (#[trigger] countdowns[j]) is Some && countdowns[j]->0 > 0
            ==> countdowns[i]->0 < countdowns[j]->0 || (countdowns[i]->0 == countdowns[j]->0 && i
            <= j)
}

/// Finds the event that comes first of those that are still to come.
pub fn first_future_index(countdowns: &Vec<Option<u64>>) -> (r: Option<usize>)
    ensures
        match r {
            Some(i) => comes_first(countdowns@, i as int),
            None => forall|j: int|
                0 <= j < countdowns@.len() ==> !((#[trigger] countdowns@[j]) is Some
                    && countdowns@[j]->0 > 0),
        },
{
    let mut best: Option<usize> = None;
    let mut best_ms: u64 = 0;
    let mut i: usize = 0;
    while i < countdowns.len()
        invariant
            i <= countdowns@.len(),
            match best {
                Some(b) => comes_first(countdowns@.take(i as int), b as int) && countdowns@[b as int]
                    == Some(best_ms),
                None => forall|j: int|
                    0 <= j < i ==> !((#[trigger] countdowns@[j]) is Some && countdowns@[j]->0 > 0),
            },
        decreases countdowns@.len() - i,
    {
        let ghost before = countdowns@.take(i as int);
        let ghost now = countdowns@.take(i + 1);
        proof {
            assert(forall|j: int| 0 <= j < i ==> before[j] == now[j]);
        }
        if let Some(ms) = countdowns[i] {
            if ms > 0 && (best.is_none() || ms < best_ms) {
                best = Some(i);
                best_ms = ms;
            }
        }
        proof {
            if let Some(b) = best {
                assert(comes_first(now, b as int)) by {
                    assert(now[b as int] == countdowns@[b as int]);
                    assert forall|j: int|
                        0 <= j < now.len() && (#[trigger] now[j]) is Some && now[j]->0
                            > 0 implies now[b as int]->0 < now[j]->0 || (now[b as int]->0
                        == now[j]->0 && b <= j) by {
                        assert(now[j] == countdowns@[j]);
                        if j < i {
                            assert(before[j] == countdowns@[j]);
                        }
                    }
                }
            }
        }
        i += 1;
    }
    proof {
        assert(countdowns@.take(i as int) =~= countdowns@);
    }
    best
}

pub open spec fn no_schedule(server_time_ms: u64) -> JsonV {
    JsonV::Object(
        Map::<Seq<char>, JsonV>::empty().insert("hasSchedule"@, JsonV::Bool(false)).insert(
            "serverTimeMs"@,
            JsonV::Unsigned(server_time_ms),
        ),
    )
}

/// The answer where nothing is scheduled.
pub fn no_schedule_response(server_time_ms: u64) -> (r: Json)
    ensures
        r@ == no_schedule(server_time_ms),
{
    let mut m = json::empty_object();
    json::put(&mut m, "hasSchedule", Json::Bool(false));
    json::put(&mut m, "serverTimeMs", Json::Unsigned(server_time_ms));
    Json::Object(m)
}

/// The events that come next, as an answer.
pub open spec fn upcoming_reply(events: Seq<JsonV>, server_time_ms: u64) -> JsonV {
    JsonV::Object(
        Map::<Seq<char>, JsonV>::empty().insert(
            "hasSchedule"@,
            JsonV::Bool(events.len() > 0),
        ).insert("serverTimeMs"@, JsonV::Unsigned(server_time_ms)).insert(
            "events"@,
            JsonV::List(events),
        ),
    )
}

pub fn upcoming_response(events: Vec<Json>, server_time_ms: u64) -> (r: Json)
    ensures
        r@ == upcoming_reply(json::list_view(events@), server_time_ms),
{
    proof {
        json::list_view_index(events@);
    }
    let mut m = json::empty_object();
    json::put(&mut m, "hasSchedule", Json::Bool(events.len() > 0));
    json::put(&mut m, "serverTimeMs", Json::Unsigned(server_time_ms));
    json::put(&mut m, "events", Json::List(events));
    Json::Object(m)
}

/// What a read of the scheduler means for the answer: its value; an error of the connection,
/// which is passed on; or, after any other error, that nothing is scheduled.
#[derive(Debug, PartialEq)]
pub enum ReadOutcome {
    Value(Json),
    Fail(String),
    NoSchedule,
}

pub fn judge_read(outcome: Result<Json, String>) -> (r: ReadOutcome)
    ensures
        match (r, outcome) {
            (ReadOutcome::Value(v), Ok(j)) => v == j,
            (ReadOutcome::Fail(f), Err(e)) => f == e && is_connectivity(e@),
            (ReadOutcome::NoSchedule, Err(e)) => !is_connectivity(e@),
            _ => false,
        },
{
    match outcome {
        Ok(j) => ReadOutcome::Value(j),
        Err(e) => if is_pixera_connectivity_error(e.as_str()) {
            ReadOutcome::Fail(e)
        } else {
            ReadOutcome::NoSchedule
        },
    }
}

pub open spec fn event_name(event: JsonV) -> Seq<char> {
    match json::text_at(event, "name"@) {
        Some(s) => text::trimmed(s),
        None => Seq::empty(),
    }
}

/// The next cue, as an answer, out of an event.
pub open spec fn next_cue(event: JsonV, countdown_ms: u64, server_time_ms: u64) -> JsonV {
    JsonV::Object(
        Map::<Seq<char>, JsonV>::empty().insert(
            "hasSchedule"@,
            JsonV::Bool(event_name(event).len() > 0),
        ).insert("nextCueName"@, JsonV::Text(event_name(event))).insert(
            "countdownMs"@,
            JsonV::Unsigned(countdown_ms),
        ).insert("serverTimeMs"@, JsonV::Unsigned(server_time_ms)).insert(
            "source"@,
            JsonV::Text("UpcomingEventsJson"@),
        ).insert("event"@, event),
    )
}

/// The next cue, as an answer, out of an event.
pub fn next_cue_response(event: &Json, countdown_ms: u64, server_time_ms: u64) -> (r: Json)
    ensures
        r@ == next_cue(event@, countdown_ms, server_time_ms),
{
    let name = match event.text_field("name") {
        Some(s) => text::trim(s),
        None => String::new(),
    };
    let mut m = json::empty_object();
    json::put(&mut m, "hasSchedule", Json::Bool(!name.as_str().is_empty()));
    json::put(&mut m, "nextCueName", Json::Text(name));
    json::put(&mut m, "countdownMs", Json::Unsigned(countdown_ms));
    json::put(&mut m, "serverTimeMs", Json::Unsigned(server_time_ms));
    json::put(&mut m, "source", json::text("UpcomingEventsJson"));
    json::put(&mut m, "event", event.duplicate());
    Json::Object(m)
}

/// Whether an answer names the first of the events that are still to come, given how long it is
/// until each of them; there is none where none is to come.
pub open spec fn is_next_cue(
    events: Seq<JsonV>,
    countdowns: Seq<Option<u64>>,
    server_time_ms: u64,
    answer: Option<JsonV>,
) -> bool {
    match answer {
        Some(j) => exists|i: int| #[trigger]
            comes_first(countdowns, i) && j == next_cue(events[i], countdowns[i]->0, server_time_ms),
        None => forall|j: int|
            0 <= j < countdowns.len() ==> !((#[trigger] countdowns[j]) is Some && countdowns[j]->0
                > 0),
    }
}

/// Whether it can be that long until each of the events. `in_sec_ms` is what the events
/// themselves say.
pub open spec fn may_be_countdowns(
    events: Seq<JsonV>,
    in_sec_ms: Seq<Option<u64>>,
    server_time_ms: u64,
    countdowns: Seq<Option<u64>>,
) -> bool {
    countdowns.len() == events.len() && forall|i: int|
        0 <= i < events.len() ==> may_be_countdown(
            events[i],
            in_sec_ms[i],
            server_time_ms,
            #[trigger] countdowns[i],
        )
}

/// The next cue, as an answer, out of the events that were read, if one is still to come.
/// `in_sec_ms` is what each event says of how long it is until it starts.
pub fn first_future_upcoming_event(
    events: &Vec<Json>,
    in_sec_ms: &Vec<Option<u64>>,
    server_time_ms: u64,
) -> (r: Option<Json>)
    requires
        in_sec_ms@.len() == events@.len(),
    ensures
        exists|countdowns: Seq<Option<u64>>|
            may_be_countdowns(json::list_view(events@), in_sec_ms@, server_time_ms, countdowns)
                && #[trigger] is_next_cue(
                json::list_view(events@),
                countdowns,
                server_time_ms,
                view_event(r),
            ),
{
    let ghost all = json::list_view(events@);
    proof {
        json::list_view_index(events@);
    }
    let mut countdowns: Vec<Option<u64>> = Vec::new();
    let mut i: usize = 0;
    while i < events.len()
        invariant
            i <= events@.len(),
            in_sec_ms@.len() == events@.len(),
            all.len() == events@.len(),
            forall|j: int| 0 <= j < all.len() ==> #[trigger] all[j] == events@[j]@,
            countdowns@.len() == i,
            forall|j: int|
                0 <= j < i ==> may_be_countdown(
                    all[j],
                    in_sec_ms@[j],
                    server_time_ms,
                    #[trigger] countdowns@[j],
                ),
        decreases events@.len() - i,
    {
        proof {
            assert(all[i as int] == events@[i as int]@);
        }
        countdowns.push(upcoming_event_countdown_ms(&events[i], in_sec_ms[i], server_time_ms));
        i += 1;
    }
    let r = match first_future_index(&countdowns) {
        Some(k) => {
            proof {
                assert(all[k as int] == events@[k as int]@);
            }
            match countdowns[k] {
                Some(ms) => Some(next_cue_response(&events[k], ms, server_time_ms)),
                None => None,
            }
        },
        None => None,
    };
    proof {
        assert(may_be_countdowns(all, in_sec_ms@, server_time_ms, countdowns@));
        assert(is_next_cue(all, countdowns@, server_time_ms, view_event(r)));
    }
    r
}

/// The next cue, as an answer, out of its name and its countdown; nothing is scheduled where
/// one of them is missing.
pub open spec fn named_cue(name: JsonV, countdown: JsonV, server_time_ms: u64) -> JsonV {
    let n = match name.as_text() {
        Some(s) => text::trimmed(s),
        None => Seq::empty(),
    };
    match countdown_ms(countdown) {
        Some(ms) => if n.len() == 0 || n == "-"@ {
            no_schedule(server_time_ms)
        } else {
            JsonV::Object(
                Map::<Seq<char>, JsonV>::empty().insert("hasSchedule"@, JsonV::Bool(true)).insert(
                    "nextCueName"@,
                    JsonV::Text(n),
                ).insert("countdownMs"@, JsonV::Unsigned(ms)).insert(
                    "serverTimeMs"@,
                    JsonV::Unsigned(server_time_ms),
                ).insert("source"@, JsonV::Text("NextEventName/NextEventCountdown"@)),
            )
        },
        None => no_schedule(server_time_ms),
    }
}

pub fn named_cue_response(name: &Json, countdown: &Json, server_time_ms: u64) -> (r: Json)
    ensures
        r@ == named_cue(name@, countdown@, server_time_ms),
{
    let n = match name.as_str() {
        Some(s) => text::trim(s),
        None => String::new(),
    };
    let ms = match parse_countdown_ms(countdown) {
        Some(ms) => ms,
        None => {
            return no_schedule_response(server_time_ms);
        },
    };
    if n.as_str().is_empty() || text::same(n.as_str(), "-") {
        return no_schedule_response(server_time_ms);
    }
    let mut m = json::empty_object();
    json::put(&mut m, "hasSchedule", Json::Bool(true));
    json::put(&mut m, "nextCueName", Json::Text(n));
    json::put(&mut m, "countdownMs", Json::Unsigned(ms));
    json::put(&mut m, "serverTimeMs", Json::Unsigned(server_time_ms));
    json::put(&mut m, "source", json::text("NextEventName/NextEventCountdown"));
    Json::Object(m)
}

/// The question for the next cue: the events that are to come, and where none of them is, the
/// name of the next one and how long it is until then.
#[derive(Debug, PartialEq)]
pub enum CueQuery {
    /// The events are read.
    Upcoming,
    /// How long the events say it is until they start is worked out.
    Events(Vec<Json>),
    /// The name of the next event is read.
    Name,
    /// The time until the event with this name is read.
    Countdown(Json),
    Done(Result<Json, String>),
}

/// The mathematical value of a [`CueQuery`].
pub enum CueQueryV {
    Upcoming,
    Events(Seq<JsonV>),
    Name,
    Countdown(JsonV),
    Done(Result<JsonV, Seq<char>>),
}

impl View for CueQuery {
    type V = CueQueryV;

    open spec fn view(&self) -> CueQueryV {
        match self {
            CueQuery::Upcoming => CueQueryV::Upcoming,
            CueQuery::Events(list) => CueQueryV::Events(json::list_view(list@)),
            CueQuery::Name => CueQueryV::Name,
            CueQuery::Countdown(name) => CueQueryV::Countdown(name@),
            CueQuery::Done(r) => CueQueryV::Done(json::view_result(*r)),
        }
    }
}

/// The method of the scheduler that is read next.
pub open spec fn cue_method(q: CueQueryV) -> Option<Seq<char>> {
    match q {
        CueQueryV::Upcoming => Some("UpcomingEventsJson"@),
        CueQueryV::Name => Some("NextEventName"@),
        CueQueryV::Countdown(_) => Some("NextEventCountdown"@),
        _ => None,
    }
}

/// The question after a reading. A lost connection ends it; another failure means that there
/// are no events, or no schedule.
pub open spec fn cue_after(
    q: CueQueryV,
    outcome: Result<JsonV, Seq<char>>,
    server_time_ms: u64,
) -> CueQueryV {
    if cue_method(q) is None {
        q
    } else {
        match outcome {
            Ok(v) => match q {
                CueQueryV::Upcoming => CueQueryV::Events(events_of(v, 3)),
                CueQueryV::Name => CueQueryV::Countdown(v),
                CueQueryV::Countdown(name) => CueQueryV::Done(
                    Ok(named_cue(name, v, server_time_ms)),
                ),
                other => other,
            },
            Err(e) => if is_connectivity(e) {
                CueQueryV::Done(Err(e))
            } else if q is Upcoming {
                CueQueryV::Events(Seq::empty())
            } else {
                CueQueryV::Done(Ok(no_schedule(server_time_ms)))
            },
        }
    }
}

/// The question after the events were looked at: answered by the first that is to come, or
/// else by name.
pub open spec fn cue_after_events(answer: Option<JsonV>) -> CueQueryV {
    match answer {
        Some(j) => CueQueryV::Done(Ok(j)),
        None => CueQueryV::Name,
    }
}

impl CueQuery {
    pub fn start() -> (r: Self)
        ensures
            r@ == CueQueryV::Upcoming,
    {
        CueQuery::Upcoming
    }

    /// The method of the scheduler to read next.
    pub fn next_method(&self) -> (r: Option<&'static str>)
        ensures
            alerts::view_str(r) == cue_method(self@),
    {
        match self {
            CueQuery::Upcoming => Some("UpcomingEventsJson"),
            CueQuery::Name => Some("NextEventName"),
            CueQuery::Countdown(_) => Some("NextEventCountdown"),
            _ => None,
        }
    }

    /// Takes in a reading.
    pub fn take_reading(self, outcome: Result<Json, String>, server_time_ms: u64) -> (r: Self)
        ensures
            r@ == cue_after(self@, json::view_result(outcome), server_time_ms),
    {
        match self {
            CueQuery::Upcoming => match judge_read(outcome) {
                ReadOutcome::Value(raw) => CueQuery::Events(parse_upcoming_events(raw)),
                ReadOutcome::Fail(e) => CueQuery::Done(Err(e)),
                ReadOutcome::NoSchedule => CueQuery::Events(Vec::new()),
            },
            CueQuery::Name => match judge_read(outcome) {
                ReadOutcome::Value(name) => CueQuery::Countdown(name),
                ReadOutcome::Fail(e) => CueQuery::Done(Err(e)),
                ReadOutcome::NoSchedule => CueQuery::Done(Ok(no_schedule_response(server_time_ms))),
            },
            CueQuery::Countdown(name) => match judge_read(outcome) {
                ReadOutcome::Value(countdown) => CueQuery::Done(
                    Ok(named_cue_response(&name, &countdown, server_time_ms)),
                ),
                ReadOutcome::Fail(e) => CueQuery::Done(Err(e)),
                ReadOutcome::NoSchedule => CueQuery::Done(Ok(no_schedule_response(server_time_ms))),
            },
            other => other,
        }
    }

    /// Takes in how long the events say it is until they start; nothing changes where there are
    /// no events to look at, or another number of them.
    pub fn take_countdowns(self, in_sec_ms: &Vec<Option<u64>>, server_time_ms: u64) -> (r: Self)
        ensures
            match self@ {
                CueQueryV::Events(events) => if in_sec_ms@.len() == events.len() {
                    exists|countdowns: Seq<Option<u64>>, answer: Option<JsonV>|
                        may_be_countdowns(events, in_sec_ms@, server_time_ms, countdowns)
                            && #[trigger] is_next_cue(events, countdowns, server_time_ms, answer)
                            && r@ == cue_after_events(answer)
                } else {
                    r@ == self@
                },
                _ => r@ == self@,
            },
    {
        match self {
            CueQuery::Events(events) => {
                proof {
                    json::list_view_index(events@);
                }
                if in_sec_ms.len() != events.len() {
                    return CueQuery::Events(events);
                }
                match first_future_upcoming_event(&events, in_sec_ms, server_time_ms) {
                    Some(cue) => CueQuery::Done(Ok(cue)),
                    None => CueQuery::Name,
                }
            },
            other => other,
        }
    }
}

pub open spec fn cue_readings_left(q: CueQueryV) -> nat {
    match q {
        CueQueryV::Upcoming => 4,
        CueQueryV::Events(_) => 3,
        CueQueryV::Name => 2,
        CueQueryV::Countdown(_) => 1,
        CueQueryV::Done(_) => 0,
    }
}

/// With every reading, and with a look at the events, the question comes closer to its end.
pub proof fn cue_queries_end(
    q: CueQueryV,
    outcome: Result<JsonV, Seq<char>>,
    server_time_ms: u64,
    answer: Option<JsonV>,
)
    ensures
        cue_method(q) is Some ==> cue_readings_left(cue_after(q, outcome, server_time_ms))
            < cue_readings_left(q),
        q is Events ==> cue_readings_left(cue_after_events(answer)) < cue_readings_left(q),
        cue_method(q) is None && !(q is Events) ==> q is Done,
{
}

// ---------------------------------------------------------------------------
// What the times and the cues are
// ---------------------------------------------------------------------------

/// A row of at least one decimal digit that denotes a number.
pub open spec fn writes(d: Seq<char>, n: nat) -> bool {
    d.len() > 0 && numerals::all_digits(d) && numerals::digits_value(d) == n
}

proof fn digits_are_plain(d: Seq<char>, n: nat, max: nat)
    requires
        writes(d, n),
    ensures
        text::no_white(d),
        !d.contains('.'),
        !d.contains(':'),
        !d.contains(' '),
        n <= max ==> numerals::parsed_unsigned(d, max) == Some(n),
        n > max ==> numerals::parsed_unsigned(d, max) is None,
{
    assert forall|i: int| 0 <= i < d.len() implies !text::is_white_space(#[trigger] d[i]) && d[i]
        != '.' && d[i] != ':' && d[i] != ' ' by {
        assert(numerals::is_digit(d[i]));
    }
    assert(numerals::is_digit(d[0]));
    assert(numerals::without_plus(d) == d);
}

proof fn three_pieces(a: Seq<char>, b: Seq<char>, c: Seq<char>, sep: char)
    requires
        !a.contains(sep),
        !b.contains(sep),
        !c.contains(sep),
    ensures
        text::pieces(a.push(sep) + (b.push(sep) + c), sep) == seq![a, b, c],
{
    text::splitting_cuts_at_separators(a, sep, b.push(sep) + c);
    text::splitting_cuts_at_separators(b, sep, c);
    text::splitting_cuts_at_separators(c, sep, Seq::empty());
    assert(seq![a] + (seq![b] + seq![c]) =~= seq![a, b, c]);
}

/// A countdown of hours, minutes and seconds is read as its milliseconds, whatever white space
/// stands around it; sixty minutes or seconds are none.
pub proof fn countdowns_are_read(
    h: Seq<char>,
    m: Seq<char>,
    s: Seq<char>,
    hours: nat,
    minutes: nat,
    seconds: nat,
    before: Seq<char>,
    after: Seq<char>,
    value: &Json,
    r: Option<u64>,
)
    requires
        writes(h, hours),
        writes(m, minutes),
        writes(s, seconds),
        hours < 1_000_000_000,
        text::all_white(before),
        text::all_white(after),
        value@ == JsonV::Text(before + (h.push(':') + (m.push(':') + s)) + after),
        call_ensures(parse_countdown_ms, (value,), r),
    ensures
        minutes < 60 && seconds < 60 ==> r is Some && r->0 == hours * 3_600_000 + minutes * 60_000
            + seconds * 1_000,
        minutes >= 60 || seconds >= 60 ==> r is None,
{
    let max = u64::MAX as nat;
    digits_are_plain(h, hours, max);
    digits_are_plain(m, minutes, max);
    digits_are_plain(s, seconds, max);
    three_pieces(h, m, s, ':');
    let t = h.push(':') + (m.push(':') + s);
    assert(t[0] == h[0] && t.last() == s.last());
    text::trimming_takes_off_white_space(before, t, after);
    assert(text::pieces(t, ':').len() == 3);
    if minutes <= max && seconds <= max {
        assert(numerals::parsed_unsigned(text::pieces(t, ':')[1], max) == Some(minutes));
    }
}

/// A date and a time, written with points and colons, are read as their six numbers; without
/// seconds they are zero. The date has exactly three numbers.
pub proof fn dates_and_times_are_read(
    y: Seq<char>,
    mo: Seq<char>,
    d: Seq<char>,
    h: Seq<char>,
    mi: Seq<char>,
    s: Seq<char>,
    n: (nat, nat, nat, nat, nat, nat),
    value: &Json,
    r: Option<(i32, u32, u32, u32, u32, u32)>,
)
    requires
        writes(y, n.0) && n.0 <= i32::MAX,
        writes(mo, n.1) && n.1 <= u32::MAX,
        writes(d, n.2) && n.2 <= u32::MAX,
        writes(h, n.3) && n.3 <= u32::MAX,
        writes(mi, n.4) && n.4 <= u32::MAX,
        writes(s, n.5) && n.5 <= u32::MAX,
        call_ensures(schedule_parts, (value,), r),
    ensures
        value@ == JsonV::Text(
            (y.push('.') + (mo.push('.') + d)).push(' ') + (h.push(':') + (mi.push(':') + s)),
        ) ==> r == Some((n.0 as i32, n.1 as u32, n.2 as u32, n.3 as u32, n.4 as u32, n.5 as u32)),
        value@ == JsonV::Text((y.push('.') + (mo.push('.') + d)).push(' ') + (h.push(':') + mi))
            ==> r == Some((n.0 as i32, n.1 as u32, n.2 as u32, n.3 as u32, n.4 as u32, 0u32)),
        value@ == JsonV::Text(y.push('.') + (mo.push('.') + d)) ==> r is None,
        value@ == JsonV::Text((y.push('.') + mo).push(' ') + (h.push(':') + mi)) ==> r is None,
{
    let max = u32::MAX as nat;
    digits_are_plain(y, n.0, max);
    digits_are_plain(mo, n.1, max);
    digits_are_plain(d, n.2, max);
    digits_are_plain(h, n.3, max);
    digits_are_plain(mi, n.4, max);
    digits_are_plain(s, n.5, max);
    let date = y.push('.') + (mo.push('.') + d);
    let short = y.push('.') + mo;
    let long = h.push(':') + (mi.push(':') + s);
    let brief = h.push(':') + mi;
    three_pieces(y, mo, d, '.');
    three_pieces(h, mi, s, ':');
    text::splitting_cuts_at_separators(y, '.', mo);
    text::splitting_cuts_at_separators(mo, '.', Seq::empty());
    text::splitting_cuts_at_separators(h, ':', mi);
    text::splitting_cuts_at_separators(mi, ':', Seq::empty());
    assert(seq![y] + seq![mo] =~= seq![y, mo]);
    assert(seq![h] + seq![mi] =~= seq![h, mi]);
    assert(text::no_white(date));
    assert(text::no_white(short));
    assert(text::no_white(long));
    assert(text::no_white(brief));
    three_numbers(y, mo, d, n.0, n.1, n.2);
    three_numbers(h, mi, s, n.3, n.4, n.5);
    two_numbers(h, mi, n.3, n.4);
    two_numbers(y, mo, n.0, n.1);
    two_words(date, long);
    two_words(date, brief);
    two_words(short, brief);
    text::one_word(date);
    text::trimming_takes_off_white_space(Seq::empty(), date, Seq::empty());
    assert(Seq::<char>::empty() + date + Seq::<char>::empty() =~= date);
}

proof fn two_words(a: Seq<char>, b: Seq<char>)
    requires
        a.len() > 0,
        b.len() > 0,
        text::no_white(a),
        text::no_white(b),
    ensures
        text::words(text::trimmed(a.push(' ') + b)) == seq![a, b],
{
    let t = a.push(' ') + b;
    assert(t[0] == a[0] && t.last() == b.last());
    text::trimming_takes_off_white_space(Seq::empty(), t, Seq::empty());
    assert(Seq::<char>::empty() + t + Seq::<char>::empty() =~= t);
    text::first_word_comes_first(a, ' ', b);
    text::one_word(b);
    assert(seq![a] + seq![b] =~= seq![a, b]);
}

proof fn two_numbers(a: Seq<char>, b: Seq<char>, x: nat, y: nat)
    requires
        numerals::parsed_unsigned(a, u32::MAX as nat) == Some(x),
        numerals::parsed_unsigned(b, u32::MAX as nat) == Some(y),
    ensures
        numbers_in(seq![a, b]) == seq![x as u32, y as u32],
{
    reveal_with_fuel(numbers_in, 3);
    assert(seq![a, b].drop_last() =~= seq![a]);
    assert(seq![a].drop_last() =~= Seq::<Seq<char>>::empty());
    assert(numbers_in(seq![a, b]) =~= seq![x as u32, y as u32]);
}

proof fn three_numbers(a: Seq<char>, b: Seq<char>, c: Seq<char>, x: nat, y: nat, z: nat)
    requires
        numerals::parsed_unsigned(a, u32::MAX as nat) == Some(x),
        numerals::parsed_unsigned(b, u32::MAX as nat) == Some(y),
        numerals::parsed_unsigned(c, u32::MAX as nat) == Some(z),
    ensures
        numbers_in(seq![a, b, c]) == seq![x as u32, y as u32, z as u32],
{
    two_numbers(a, b, x, y);
    assert(seq![a, b, c].drop_last() =~= seq![a, b]);
    assert(numbers_in(seq![a, b, c]) =~= seq![x as u32, y as u32, z as u32]);
}

/// Where an event says itself how long it is until it starts, that counts. Else its time counts:
/// the countdown is what is left until the timestamp that the local clock gives for it, and not
/// below zero. It has none only where it has no time, where its time cannot be read, or where
/// the clock, asked for that time, gives none, as it does for every date that is not in the
/// calendar.
pub proof fn countdowns_run_to_the_time_of_the_event(
    event: &Json,
    in_sec_ms: Option<u64>,
    server_time_ms: u64,
    time: &Json,
    parts: Option<(i32, u32, u32, u32, u32, u32)>,
    r: Option<u64>,
)
    requires
        call_ensures(upcoming_event_countdown_ms, (event, in_sec_ms, server_time_ms), r),
        event@.get("time"@) == Some(time@),
        call_ensures(schedule_parts, (time,), parts),
    ensures
        in_sec_ms is Some ==> r == in_sec_ms,
        in_sec_ms is None && parts is None ==> r is None,
        in_sec_ms is None && parts is Some ==> ({
            let (y, mo, d, h, mi, s) = parts->0;
            exists|local: Option<i64>| #[trigger]
                calendar::local_clock_gives(y, mo, d, h, mi, s, local) && (match local {
                    Some(t) => r is Some && (if t >= 0 && t >= server_time_ms {
                        r->0 + server_time_ms == t
                    } else {
                        r->0 == 0
                    }),
                    None => r is None,
                })
        }),
        in_sec_ms is None && r is Some ==> parts is Some && calendar::civil_time(
            (parts->0).0,
            (parts->0).1,
            (parts->0).2,
            (parts->0).3,
            (parts->0).4,
            (parts->0).5,
        ).exists_in_calendar(),
{
    if in_sec_ms is None {
        let target = choose|target: Option<u64>|
            may_be_time_of(event@, target) && r == #[trigger] countdown_of(
                in_sec_ms,
                target,
                server_time_ms,
            );
        assert(is_time_named(time@, target));
        if let Some((y, mo, d, h, mi, s)) = parts {
            let named = datetime_parts(time@)->0;
            assert(named == (y as int, mo, d, h, mi, s));
            let local = choose|local: Option<i64>| #[trigger]
                clock_gave(named, local) && target == counted(local);
            assert(calendar::local_clock_gives(y, mo, d, h, mi, s, local));
            if let Some(t) = local {
                calendar::the_clock_gives_real_times(y, mo, d, h, mi, s, t);
            }
        }
    }
}

/// An event without a time and without a countdown of its own has none.
pub proof fn no_countdown_without_a_time(event: &Json, server_time_ms: u64, r: Option<u64>)
    requires
        call_ensures(upcoming_event_countdown_ms, (event, None::<u64>, server_time_ms), r),
        event@.get("time"@) is None,
    ensures
        r is None,
{
}

/// What is found is the first of the shortest countdowns above zero, and nothing is found only
/// where there is none above zero.
pub proof fn the_shortest_countdown_is_found(
    countdowns: &Vec<Option<u64>>,
    j: int,
    r: Option<usize>,
)
    requires
        call_ensures(first_future_index, (countdowns,), r),
    ensures
        r matches Some(i) ==> i < countdowns@.len() && countdowns@[i as int] is Some
            && countdowns@[i as int]->0 > 0,
        0 <= j < countdowns@.len() && countdowns@[j] is Some && countdowns@[j]->0 > 0 ==> r is Some
            && countdowns@[r->0 as int]->0 <= countdowns@[j]->0 && (j < r->0
            ==> countdowns@[r->0 as int]->0 < countdowns@[j]->0),
{
    let list = countdowns@;
    if 0 <= j < list.len() && list[j] is Some && list[j]->0 > 0 {
        if let Some(i) = r {
            assert(comes_first(list, i as int));
            assert(list[j] is Some);
        } else {
            assert(list[j] is Some);
        }
    }
}

/// Where every event says how long it is until it starts, the next cue is the first of those
/// that start soonest, with its name and its countdown, and there is none only where no event
/// is still to come.
pub proof fn the_next_cue_starts_soonest(
    events: &Vec<Json>,
    in_sec_ms: &Vec<Option<u64>>,
    server_time_ms: u64,
    r: Option<Json>,
)
    requires
        in_sec_ms@.len() == events@.len(),
        forall|i: int| 0 <= i < in_sec_ms@.len() ==> (#[trigger] in_sec_ms@[i]) is Some,
        call_ensures(first_future_upcoming_event, (events, in_sec_ms, server_time_ms), r),
    ensures
        r is None ==> forall|i: int|
            0 <= i < in_sec_ms@.len() ==> (#[trigger] in_sec_ms@[i])->0 == 0,
        r matches Some(cue) ==> exists|i: int|
            0 <= i < events@.len() && (#[trigger] in_sec_ms@[i])->0 > 0 && cue@.get("countdownMs"@)
                == Some(JsonV::Unsigned(in_sec_ms@[i]->0)) && cue@.get("event"@) == Some(
                events@[i]@,
            ) && cue@.get("serverTimeMs"@) == Some(JsonV::Unsigned(server_time_ms))
                && (json::text_at(
                events@[i]@,
                "name"@,
            ) matches Some(name) ==> cue@.get("nextCueName"@) == Some(
                JsonV::Text(text::trimmed(name)),
            ) && cue@.get("hasSchedule"@) == Some(JsonV::Bool(!text::is_blank(name))))
                && forall|j: int|
                0 <= j < in_sec_ms@.len() && (#[trigger] in_sec_ms@[j])->0 > 0 ==> in_sec_ms@[j]->0
                    >= in_sec_ms@[i]->0,
{
    let all = json::list_view(events@);
    json::list_view_index(events@);
    let countdowns = choose|countdowns: Seq<Option<u64>>|
        may_be_countdowns(all, in_sec_ms@, server_time_ms, countdowns) && #[trigger] is_next_cue(
            all,
            countdowns,
            server_time_ms,
            view_event(r),
        );
    assert forall|i: int| 0 <= i < countdowns.len() implies #[trigger] countdowns[i]
        == in_sec_ms@[i] by {
        assert(may_be_countdown(all[i], in_sec_ms@[i], server_time_ms, countdowns[i]));
        assert(in_sec_ms@[i] is Some);
    }
    reveal_strlit("hasSchedule");
    reveal_strlit("nextCueName");
    reveal_strlit("countdownMs");
    reveal_strlit("serverTimeMs");
    reveal_strlit("source");
    reveal_strlit("event");
    assert("hasSchedule"@.len() == 11 && "nextCueName"@.len() == 11 && "countdownMs"@.len() == 11);
    assert("hasSchedule"@[0] == 'h' && "nextCueName"@[0] == 'n' && "countdownMs"@[0] == 'c');
    assert("serverTimeMs"@.len() == 12 && "source"@.len() == 6 && "event"@.len() == 5);
    match r {
        Some(cue) => {
            let i = choose|i: int| #[trigger]
                comes_first(countdowns, i) && cue@ == next_cue(
                    all[i],
                    countdowns[i]->0,
                    server_time_ms,
                );
            assert(all[i] == events@[i]@);
            assert(countdowns[i] == in_sec_ms@[i]);
            assert forall|j: int|
                0 <= j < in_sec_ms@.len()
                    && (#[trigger] in_sec_ms@[j])->0 > 0 implies in_sec_ms@[j]->0
                >= in_sec_ms@[i]->0 by {
                assert(countdowns[j] == in_sec_ms@[j]);
                assert(in_sec_ms@[j] is Some);
            }
        },
        None => {
            assert forall|i: int| 0 <= i < in_sec_ms@.len() implies (#[trigger] in_sec_ms@[i])->0
                == 0 by {
                assert(countdowns[i] == in_sec_ms@[i]);
                assert(in_sec_ms@[i] is Some);
            }
        },
    }
}

/// A cue that is known by name has a schedule where there is a name and a countdown, and none
/// where the name is blank or a dash, or where the countdown cannot be read.
pub proof fn named_cues_need_both(
    name: &Json,
    countdown: &Json,
    server_time_ms: u64,
    ms: Option<u64>,
    r: Json,
)
    requires
        call_ensures(named_cue_response, (name, countdown, server_time_ms), r),
        call_ensures(parse_countdown_ms, (countdown,), ms),
    ensures
        ms is None ==> r@.get("hasSchedule"@) == Some(JsonV::Bool(false)),
        !(name@ is Text) ==> r@.get("hasSchedule"@) == Some(JsonV::Bool(false)),
        name@ matches JsonV::Text(s) ==> text::is_blank(s) || text::trimmed(s) == seq!['-']
            ==> r@.get("hasSchedule"@) == Some(JsonV::Bool(false)),
        name@ matches JsonV::Text(s) ==> !text::is_blank(s) && text::trimmed(s) != seq!['-']
            && ms is Some
            ==> r@.get("hasSchedule"@) == Some(JsonV::Bool(true)) && r@.get("nextCueName"@) == Some(
            JsonV::Text(text::trimmed(s)),
        ) && r@.get("countdownMs"@) == Some(JsonV::Unsigned(ms->0)),
        r@.get("serverTimeMs"@) == Some(JsonV::Unsigned(server_time_ms)),
{
    reveal_strlit("-");
    assert("-"@ =~= seq!['-']);
    reveal_strlit("hasSchedule");
    reveal_strlit("nextCueName");
    reveal_strlit("countdownMs");
    reveal_strlit("serverTimeMs");
    reveal_strlit("source");
    assert("hasSchedule"@.len() == 11 && "nextCueName"@.len() == 11 && "countdownMs"@.len() == 11);
    assert("hasSchedule"@[0] == 'h' && "nextCueName"@[0] == 'n' && "countdownMs"@[0] == 'c');
    assert("serverTimeMs"@.len() == 12 && "source"@.len() == 6);
}

/// The list of coming events says whether there is one.
pub proof fn a_schedule_has_events(events: Vec<Json>, server_time_ms: u64, r: Json)
    requires
        call_ensures(upcoming_response, (events, server_time_ms), r),
    ensures
        r@.get("hasSchedule"@) == Some(JsonV::Bool(events@.len() > 0)),
        r@.get("events"@) == Some(JsonV::List(json::list_view(events@))),
        r@.get("serverTimeMs"@) == Some(JsonV::Unsigned(server_time_ms)),
{
    json::list_view_index(events@);
    reveal_strlit("hasSchedule");
    reveal_strlit("serverTimeMs");
    reveal_strlit("events");
    assert("hasSchedule"@.len() == 11 && "serverTimeMs"@.len() == 12 && "events"@.len() == 6);
}

/// A list of events is read as it is, alone or under either of its names.
pub proof fn listed_events_are_read(raw: Json, list: Seq<JsonV>, r: Vec<Json>)
    requires
        call_ensures(parse_upcoming_events, (raw,), r),
    ensures
        raw@ == JsonV::List(list) ==> json::list_view(r@) == list,
        raw@.get("value"@) == Some(JsonV::List(list)) ==> json::list_view(r@) == list,
        raw@.get("value"@) is None && raw@.get("events"@) == Some(JsonV::List(list))
            ==> json::list_view(r@) == list,
        raw@ is Null || raw@ is Bool || raw@ is Unsigned ==> r@.len() == 0,
{
    json::list_view_index(r@);
    reveal_with_fuel(events_of, 2);
}

/// Only the reply with the number of the request counts, and its result is handed on.
pub proof fn replies_are_told_by_their_number(
    parsed: Result<Json, String>,
    sequence: u64,
    n: u64,
    r: PixeraStep,
)
    requires
        call_ensures(match_reply, (parsed, sequence), r),
    ensures
        parsed is Err ==> r is Fail,
        parsed matches Ok(j) ==> j@.get("sequence"@) == Some(JsonV::Unsigned(n)) && n != sequence
            ==> r is Wait,
        parsed matches Ok(j) ==> j@.get("sequence"@) is None ==> r is Wait,
        parsed matches Ok(j) ==> j@.get("sequence"@) == Some(JsonV::Unsigned(sequence))
            ==> r is Done
            && (j@.get("result"@) matches Some(v) ==> (r->Done_0)@ == v),
        parsed matches Ok(j) ==> j@.get("sequence"@) == Some(JsonV::Unsigned(sequence))
            && j@.get("result"@) is None ==> r is Done && (r->Done_0)@ is Null,
{
}

/// A request goes to the host and port that are given, or else to those that are set, and waits
/// for half a second at least.
pub proof fn requests_go_where_they_are_sent(
    cfg: &Json,
    host: &Option<String>,
    port: Option<u16>,
    timeout_ms: Option<u64>,
    now_ms: u64,
    set: Seq<char>,
    n: u64,
    r: PixeraTarget,
)
    requires
        call_ensures(pixera_target, (cfg, host, port, timeout_ms, now_ms), r),
    ensures
        r.timeout_ms >= 500,
        timeout_ms matches Some(t) ==> t >= 500 ==> r.timeout_ms == t,
        timeout_ms is None ==> r.timeout_ms == 3500,
        port matches Some(p) ==> r.port == p,
        port is None && cfg@.get("pixera_port"@) is None ==> r.port == 1338,
        port is None && cfg@.get("pixera_port"@) == Some(JsonV::Unsigned(n)) && n < 65536 ==> r.port
            == n,
        *host matches Some(h) ==> !text::is_blank(h@) ==> r.host@ == text::trimmed(h@),
        *host is None && cfg@.get("pixera_ip"@) == Some(JsonV::Text(set)) ==> r.host@ == set,
        *host is None && cfg@.get("pixera_ip"@) is None ==> r.host@ == "127.0.0.1"@,
        r.sequence < 1_000_000_000,
{
}

/// A list with one entry stands for the entry; an exception of the server is an error with its
/// message; a refusal is an error; everything else stays.
pub proof fn results_are_brought_into_form(
    result: Json,
    list: Seq<JsonV>,
    s: Seq<char>,
    r: Result<Json, String>,
)
    requires
        call_ensures(normalize_pixera_result, (result,), r),
    ensures
        result@ is Null || result@ is Bool || result@ is Unsigned || result@ is Object ==> r is Ok
            && (r->Ok_0)@ == result@,
        result@ == JsonV::List(list) && list.len() == 1 && !(list[0] is Text)
            && !(list[0] is Object)
            ==> r is Ok && (r->Ok_0)@ == list[0],
        result@ == JsonV::Text(s) ==> (r is Err
            <==> text::has(text::lowered(s), "not authorized"@)),
        result@ == JsonV::Text(s) ==> (r matches Err(e) ==> e@ == s),
        result@ == JsonV::Text(s) ==> (r matches Ok(v) ==> v@ == result@),
        result@ == JsonV::List(list) && list.len() > 2 && list[0].get2("_pixc"@, "type"@) == Some(
            JsonV::Unsigned(125),
        ) && list[2] == JsonV::Text(s) ==> r is Err && (r->Err_0)@ == s,
        result@ == JsonV::List(list) && list.len() == 0 ==> r is Ok && (r->Ok_0)@ == result@,
{
}

/// The scheduler is woken up after a result that says nothing and after an error, but not after
/// a lost connection and not after a result.
pub proof fn silence_is_woken_up(outcome: &Result<Json, String>, lost: bool, error: &str, r: bool)
    requires
        call_ensures(needs_warmup, (outcome,), r),
        call_ensures(is_pixera_connectivity_error, (error,), lost),
    ensures
        *outcome matches Ok(v) ==> (r <==> v@ is Null || (v@ is Text
            && text::is_blank(v@->Text_0))),
        *outcome matches Err(e) ==> e@ == error@ ==> r == !lost,
{
}

/// An error that names a time-out, a refusal or a closed connection, in any case, is one of the
/// connection.
pub proof fn lost_connections_are_known(a: Seq<char>, b: Seq<char>, error: &str, r: bool)
    requires
        call_ensures(is_pixera_connectivity_error, (error,), r),
    ensures
        text::lowered(error@) == a + "timeout"@ + b ==> r,
        text::lowered(error@) == a + "timed out"@ + b ==> r,
        text::lowered(error@) == a + "websocket error"@ + b ==> r,
        text::lowered(error@) == a + "verbindung geschlossen"@ + b ==> r,
        text::lowered(error@) == a + "refused"@ + b ==> r,
        text::lowered(error@) == a + "host unreachable"@ + b ==> r,
        text::lowered(error@) == a + "network is unreachable"@ + b ==> r,
        error@.len() < 5 ==> !r,
{
    text::parts_are_found(a, "timeout"@, b);
    text::parts_are_found(a, "timed out"@, b);
    text::parts_are_found(a, "websocket error"@, b);
    text::parts_are_found(a, "verbindung geschlossen"@, b);
    text::parts_are_found(a, "refused"@, b);
    text::parts_are_found(a, "host unreachable"@, b);
    text::parts_are_found(a, "network is unreachable"@, b);
    let w = connectivity_words();
    assert(w[0] == "timeout"@ && w[1] == "timed out"@ && w[2] == "websocket error"@ && w[3]
        == "verbindung geschlossen"@ && w[7] == "refused"@ && w[9] == "host unreachable"@ && w[10]
        == "network is unreachable"@);
    if error@.len() < 5 {
        reveal_strlit("timeout");
        reveal_strlit("timed out");
        reveal_strlit("websocket error");
        reveal_strlit("verbindung geschlossen");
        reveal_strlit("connection closed");
        reveal_strlit("send failed");
        reveal_strlit("receive failed");
        reveal_strlit("refused");
        reveal_strlit("10061");
        reveal_strlit("host unreachable");
        reveal_strlit("network is unreachable");
        let s = text::lowered(error@);
        assert forall|i: int| 0 <= i < w.len() implies !text::has(s, #[trigger] w[i]) by {
            assert(w[i].len() >= 5);
            text::found_parts_are_there(s, w[i], 0);
        }
    }
}

/// The usual module is tried first, the one that answered last and the one that is set are
/// tried too, and none of them is blank.
pub proof fn known_modules_are_tried(cfg: &Json, resolved: &str, r: Vec<String>)
    requires
        call_ensures(scheduler_module_candidates, (cfg, resolved), r),
    ensures
        r@.len() >= 1,
        r@[0]@ == "Projektil_EventScheduler_V2_7"@,
        !text::is_blank(resolved@) ==> exists|i: int|
            0 <= i < r@.len() && text::alike((#[trigger] r@[i])@, text::trimmed(resolved@)),
        json::text_at(cfg@, "pixera_scheduler_module"@) matches Some(set) ==> !text::is_blank(set)
            ==> exists|i: int| 0 <= i < r@.len()
                && text::alike((#[trigger] r@[i])@, text::trimmed(set)),
{
    let set = alerts::config_text(cfg@, "pixera_scheduler_module"@);
    let usual = "Projektil_EventScheduler_V2_7"@;
    reveal_strlit("Projektil_EventScheduler_V2_7");
    text::trimming_takes_off_white_space(Seq::empty(), usual, Seq::empty());
    assert(Seq::<char>::empty() + usual + Seq::<char>::empty() =~= usual);
    let c0 = with_candidate(Seq::empty(), usual);
    assert(c0 =~= seq![usual]);
    let c1 = with_candidate(c0, resolved@);
    let c2 = with_candidate(c1, set);
    let c3 = with_candidate(c2, usual);
    let c4 = with_candidate(c3, "Projektil_EventScheduler_V27"@);
    let c5 = with_candidate(c4, "Projektil_EventScheduler_V21"@);
    let c6 = with_candidate(c5, "EventScheduler_Projektil_V17"@);
    candidates_stay(c0, resolved@);
    candidates_stay(c1, set);
    candidates_stay(c2, usual);
    candidates_stay(c3, "Projektil_EventScheduler_V27"@);
    candidates_stay(c4, "Projektil_EventScheduler_V21"@);
    candidates_stay(c5, "EventScheduler_Projektil_V17"@);
    assert(text::texts(r@) == c6);
    assert(text::texts(r@).len() == r@.len());
    assert(c6[0] == usual);
    assert(text::texts(r@)[0] == r@[0]@);
    if !text::is_blank(resolved@) {
        let i = choose|i: int| 0 <= i < c1.len()
            && text::alike(#[trigger] c1[i], text::trimmed(resolved@));
        assert(c6[i] == c1[i]);
        assert(text::texts(r@)[i] == r@[i]@);
    }
    if let Some(given) = json::text_at(cfg@, "pixera_scheduler_module"@) {
        if !text::is_blank(given) {
            text::trimming_leaves_no_edges(given);
            let t = text::trimmed(given);
            text::trimming_takes_off_white_space(Seq::empty(), t, Seq::empty());
            assert(Seq::<char>::empty() + t + Seq::<char>::empty() =~= t);
            let i = choose|i: int| 0 <= i < c2.len()
                && text::alike(#[trigger] c2[i], text::trimmed(set));
            assert(c6[i] == c2[i]);
            assert(text::texts(r@)[i] == r@[i]@);
        }
    }
}

proof fn candidates_stay(list: Seq<Seq<char>>, value: Seq<char>)
    ensures
        with_candidate(list, value).len() >= list.len(),
        forall|i: int| 0 <= i < list.len() ==> #[trigger] with_candidate(list, value)[i] == list[i],
        !text::is_blank(value) ==> exists|i: int|
            0 <= i < with_candidate(list, value).len() && text::alike(
                #[trigger] with_candidate(list, value)[i],
                text::trimmed(value),
            ),
{
    let v = text::trimmed(value);
    let now = with_candidate(list, value);
    if v.len() > 0 && !(exists|i: int| 0 <= i < list.len() && text::alike(#[trigger] list[i], v)) {
        assert(text::alike(now[list.len() as int], v));
    }
}

// ---------------------------------------------------------------------------
// Requests and what follows from them
// ---------------------------------------------------------------------------

/// The scheduler listens at the port that is set, and else at the usual one.
pub proof fn the_port_is_the_one_that_is_set(cfg: &Json, n: u64, r: u16)
    requires
        call_ensures(scheduler_port, (cfg,), r),
    ensures
        cfg@.get("pixera_port"@) == Some(JsonV::Unsigned(n)) && n < 65536 ==> r == n,
        cfg@.get("pixera_port"@) is None ==> r == 1338,
{
    if n < 65536 {
        assert(n % 65536 == n);
    }
}

/// A request carries its number, its address and its parameters.
pub proof fn requests_carry_what_is_asked(sequence: u64, address: &str, params: Vec<Json>, r: Json)
    requires
        call_ensures(pixera_payload, (sequence, address, params), r),
    ensures
        r@.get("sequence"@) == Some(JsonV::Unsigned(sequence)),
        r@.get("address"@) == Some(JsonV::Text(address@)),
        r@.get("params"@) == Some(JsonV::List(json::list_view(params@))),
        r@.get("type"@) == Some(JsonV::Text("Request"@)),
{
    reveal_strlit("sequence");
    reveal_strlit("address");
    reveal_strlit("params");
    reveal_strlit("type");
    assert("sequence"@.len() == 8 && "address"@.len() == 7 && "params"@.len() == 6 && "type"@.len()
        == 4);
}

/// A connection goes to the host and the port; errors name what they are about.
pub proof fn connections_name_host_and_port(
    host: &str,
    port: u16,
    error: &str,
    url: String,
    lost: String,
    late: String,
)
    requires
        call_ensures(pixera_url, (host, port), url),
        call_ensures(websocket_error, (host, port, error), lost),
        call_ensures(timeout_error, (host,), late),
    ensures
        text::begins(url@, "ws://"@ + host@ + ":"@ + numerals::dec(port as nat)),
        text::ends(lost@, host@ + ":"@ + numerals::dec(port as nat) + " ("@ + error@ + ")"@),
        text::ends(late@, host@),
{
    let lead = "ws://"@ + host@ + ":"@ + numerals::dec(port as nat);
    assert(url@.take(lead.len() as int) =~= lead);
    let tail = host@ + ":"@ + numerals::dec(port as nat) + " ("@ + error@ + ")"@;
    assert(lost@.skip(lost@.len() - tail.len()) =~= tail);
    assert(late@.skip(late@.len() - host@.len()) =~= host@);
}

/// A closed connection fails, frames without content are passed over, and a text counts as what
/// it reads as.
pub proof fn frames_are_told_apart(
    s: String,
    body: &str,
    parsed: Result<Json, String>,
    sequence: u64,
    closed: PixeraStep,
    other: PixeraStep,
    read: PixeraStep,
    direct: PixeraStep,
)
    requires
        body@ == s@,
        call_ensures(receive_frame, (PixeraFrame::Closed, sequence), closed),
        call_ensures(receive_frame, (PixeraFrame::Other, sequence), other),
        call_ensures(receive_frame, (PixeraFrame::Text(s), sequence), read),
        call_ensures(json::parse_json, (body,), parsed),
        call_ensures(match_reply, (parsed, sequence), direct),
    ensures
        closed is Fail,
        other is Wait,
        read@ == direct@,
{
}

/// An address is tried under the root where one is set, and then as it is.
pub proof fn addresses_are_tried_under_the_root(
    cfg: &Json,
    root: Seq<char>,
    base: &str,
    r: Vec<String>,
)
    requires
        call_ensures(pixera_paths, (cfg, base), r),
    ensures
        cfg@.get("pixera_api_root"@) == Some(JsonV::Text(root)) && root.len() > 0
            && text::is_trimmed(root)
            ==> r@.len() == 2 && r@[0]@ == root + "."@ + base@ && r@[1]@ == base@,
        cfg@.get("pixera_api_root"@) is None ==> r@.len() == 1 && r@[0]@ == base@,
{
    let all = text::texts(r@);
    assert(all.len() == r@.len());
    if root.len() > 0 && text::is_trimmed(root) {
        let e = Seq::<char>::empty();
        text::trimming_takes_off_white_space(e, root, e);
        assert(e + root + e =~= root);
    }
    if all.len() > 0 {
        assert(all[0] == r@[0]@);
    }
    if all.len() > 1 {
        assert(all[1] == r@[1]@);
    }
}

/// A candidate is taken once, whatever its letter case, and without the white space around it.
pub proof fn candidates_are_taken_once(list: Seq<Seq<char>>, value: Seq<char>, i: int)
    ensures
        0 <= i < list.len() && text::alike(list[i], text::trimmed(value))
            ==> with_candidate(list, value)
            == list,
        text::trimmed(value).len() == 0 ==> with_candidate(list, value) == list,
        text::trimmed(value).len() > 0 && (forall|k: int|
            0 <= k < list.len() ==> !text::alike(#[trigger] list[k], text::trimmed(value)))
            ==> with_candidate(list, value) == list.push(text::trimmed(value)),
{
}

/// A call ends with the first result that says something and with a lost connection; after
/// everything else the next address is tried, and the first error is remembered.
pub proof fn calls_end_with_a_result(
    first: Option<String>,
    allow_empty: bool,
    v: Json,
    e: String,
    formed: Result<Json, String>,
    error: &str,
    lost: bool,
    told: CallStep,
    failed: CallStep,
)
    requires
        error@ == e@,
        call_ensures(normalize_pixera_result, (v,), formed),
        call_ensures(is_pixera_connectivity_error, (error,), lost),
        call_ensures(scheduler_step, (first, allow_empty, Ok::<Json, String>(v)), told),
        call_ensures(scheduler_step, (first, allow_empty, Err::<Json, String>(e)), failed),
    ensures
        formed is Ok && (allow_empty || !((formed->Ok_0)@ is Null || ((formed->Ok_0)@ is Text
            && text::is_blank((formed->Ok_0)@->Text_0)))) ==> told is Found && (told->Found_0)@
            == (formed->Ok_0)@,
        formed is Ok && !allow_empty && (formed->Ok_0)@ is Null ==> told is TryNext,
        formed is Err ==> told is TryNext && told->TryNext_0 is Some,
        formed is Err && first is None ==> (told->TryNext_0->0)@ == (formed->Err_0)@,
        lost ==> failed is Abort && (failed->Abort_0)@ == e@,
        !lost ==> failed is TryNext && failed->TryNext_0 is Some,
        !lost && first is None ==> (failed->TryNext_0->0)@ == e@,
        !lost && first is Some ==> (failed->TryNext_0->0)@ == (first->0)@,
{
}

/// The time until an event is the one that the event counts down, or else the one until its date
/// and time, and none where that is past.
pub proof fn countdowns_count_first(
    counted: u64,
    target: u64,
    now: u64,
    a: Option<u64>,
    b: Option<u64>,
    c: Option<u64>,
)
    requires
        call_ensures(event_countdown, (Some(counted), Some(target), now), a),
        call_ensures(event_countdown, (None::<u64>, Some(target), now), b),
        call_ensures(event_countdown, (None::<u64>, None::<u64>, now), c),
    ensures
        a == Some(counted),
        target >= now ==> b is Some && b->0 + now == target,
        target < now ==> b == Some(0u64),
        c is None,
{
}

/// Times before 1970 count as its start.
pub proof fn times_do_not_lie_before_the_epoch(t: i64, r: Option<u64>, none: Option<u64>)
    requires
        call_ensures(not_before_epoch, (Some(t),), r),
        call_ensures(not_before_epoch, (None::<i64>,), none),
    ensures
        t >= 0 ==> r is Some && r->0 == t,
        t < 0 ==> r == Some(0u64),
        none is None,
{
}

/// The answer with the next cue holds its name, how long it is until it starts, and the event.
pub proof fn answers_hold_the_cue(
    event: &Json,
    ms: u64,
    now: u64,
    name: Seq<char>,
    r: Json,
    none: Json,
)
    requires
        call_ensures(next_cue_response, (event, ms, now), r),
        call_ensures(no_schedule_response, (now,), none),
    ensures
        r@.get("countdownMs"@) == Some(JsonV::Unsigned(ms)),
        r@.get("serverTimeMs"@) == Some(JsonV::Unsigned(now)),
        r@.get("event"@) == Some(event@),
        event@.get("name"@) == Some(JsonV::Text(name)) ==> r@.get("nextCueName"@) == Some(
            JsonV::Text(text::trimmed(name)),
        ) && r@.get("hasSchedule"@) == Some(JsonV::Bool(text::trimmed(name).len() > 0)),
        event@.get("name"@) is None ==> r@.get("hasSchedule"@) == Some(JsonV::Bool(false)),
        none@.get("hasSchedule"@) == Some(JsonV::Bool(false)),
        none@.get("serverTimeMs"@) == Some(JsonV::Unsigned(now)),
{
    reveal_strlit("hasSchedule");
    reveal_strlit("nextCueName");
    reveal_strlit("countdownMs");
    reveal_strlit("serverTimeMs");
    reveal_strlit("source");
    reveal_strlit("event");
    assert("hasSchedule"@.len() == 11 && "nextCueName"@.len() == 11 && "countdownMs"@.len() == 11);
    assert("hasSchedule"@[0] == 'h' && "nextCueName"@[0] == 'n' && "countdownMs"@[0] == 'c');
    assert("serverTimeMs"@.len() == 12 && "source"@.len() == 6 && "event"@.len() == 5);
}

/// The next cue is looked for among the events, and then by name and countdown; a lost connection
/// ends the search, and any other error means that there is no schedule.
pub proof fn cues_are_looked_for_step_by_step(
    name: Json,
    e: String,
    error: &str,
    lost: bool,
    v: Json,
    now: u64,
    events: CueQuery,
    named: CueQuery,
    counted: CueQuery,
    answer: Json,
    asked: Option<&'static str>,
    asked_name: Option<&'static str>,
    failed: CueQuery,
    failed_name: CueQuery,
)
    requires
        error@ == e@,
        call_ensures(is_pixera_connectivity_error, (error,), lost),
        call_ensures(CueQuery::next_method, (&CueQuery::Upcoming,), asked),
        call_ensures(CueQuery::next_method, (&CueQuery::Name,), asked_name),
        call_ensures(CueQuery::take_reading, (CueQuery::Upcoming, Ok::<Json, String>(v), now), events),
        call_ensures(CueQuery::take_reading, (CueQuery::Name, Ok::<Json, String>(v), now), named),
        call_ensures(
            CueQuery::take_reading,
            (CueQuery::Countdown(name), Ok::<Json, String>(v), now),
            counted,
        ),
        call_ensures(named_cue_response, (&name, &v, now), answer),
        call_ensures(CueQuery::take_reading, (CueQuery::Upcoming, Err::<Json, String>(e), now), failed),
        call_ensures(CueQuery::take_reading, (CueQuery::Name, Err::<Json, String>(e), now), failed_name),
    ensures
        asked is Some && (asked->0)@ == "UpcomingEventsJson"@,
        asked_name is Some && (asked_name->0)@ == "NextEventName"@,
        events is Events,
        named is Countdown && (named->Countdown_0)@ == v@,
        counted is Done && counted->Done_0 is Ok && (counted->Done_0->Ok_0)@ == answer@,
        lost ==> failed is Done && failed->Done_0 is Err && (failed->Done_0->Err_0)@ == e@,
        !lost ==> failed is Events && (failed->Events_0)@.len() == 0,
        lost ==> failed_name is Done && failed_name->Done_0 is Err,
        !lost ==> failed_name is Done && failed_name->Done_0 is Ok
            && (failed_name->Done_0->Ok_0)@.get(
            "hasSchedule"@,
        ) == Some(JsonV::Bool(false)),
{
    reveal_strlit("hasSchedule");
    reveal_strlit("serverTimeMs");
    assert("hasSchedule"@.len() == 11 && "serverTimeMs"@.len() == 12);
    if let CueQuery::Events(l) = failed {
        json::list_view_index(l@);
    }
}

} // verus!

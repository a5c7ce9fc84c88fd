//! Bookkeeping around the devices: their health, and the caches and limits that keep questions
//! to them rare.

use vstd::prelude::*;
use vstd::string::*;

use crate::alerts;
use crate::json;
use crate::json::{Json, JsonV};
use crate::numerals;
use crate::strmap;
use crate::strmap::StrMap;
use crate::text;

verus! {

// ---------------------------------------------------------------------------
// Health
// ---------------------------------------------------------------------------

/// Kinds of errors, for the log.
#[derive(Debug, Clone, Copy, PartialEq, Eq, Structural)]
pub enum ErrorCategory {
    ConnectionTimeout,
    DeviceOffline,
    InvalidResponse,
    AuthenticationFailed,
    ConfigurationError,
    InternalError,
}

impl ErrorCategory {
    pub open spec fn name(self) -> Seq<char> {
        match self {
            ErrorCategory::ConnectionTimeout => "CONNECTION_TIMEOUT"@,
            ErrorCategory::DeviceOffline => "DEVICE_OFFLINE"@,
            ErrorCategory::InvalidResponse => "INVALID_RESPONSE"@,
            ErrorCategory::AuthenticationFailed => "AUTH_FAILED"@,
            ErrorCategory::ConfigurationError => "CONFIG_ERROR"@,
            ErrorCategory::InternalError => "INTERNAL_ERROR"@,
        }
    }

    pub fn as_str(&self) -> (r: &'static str)
        ensures
            r@ == self.name(),
    {
        match self {
            ErrorCategory::ConnectionTimeout => "CONNECTION_TIMEOUT",
            ErrorCategory::DeviceOffline => "DEVICE_OFFLINE",
            ErrorCategory::InvalidResponse => "INVALID_RESPONSE",
            ErrorCategory::AuthenticationFailed => "AUTH_FAILED",
            ErrorCategory::ConfigurationError => "CONFIG_ERROR",
            ErrorCategory::InternalError => "INTERNAL_ERROR",
        }
    }
}

/// The line that is logged of an error.
pub fn categorized(category: ErrorCategory, message: &str) -> (r: String)
    ensures
        r@ == "["@ + category.name() + "] "@ + message@,
{
    let mut s = text::glue3("[", category.as_str(), "] ");
    s.append(message);
    s
}

/// The health of a device.
#[derive(Debug, PartialEq)]
pub struct DeviceHealthStatus {
    pub device_id: String,
    pub is_online: bool,
    pub last_seen_ms: u64,
    pub consecutive_failures: u32,
    pub last_error: Option<String>,
}

/// The mathematical value of a [`DeviceHealthStatus`].
pub struct HealthV {
    pub device_id: Seq<char>,
    pub is_online: bool,
    pub last_seen_ms: u64,
    pub consecutive_failures: u32,
    pub last_error: Option<Seq<char>>,
}

impl View for DeviceHealthStatus {
    type V = HealthV;

    open spec fn view(&self) -> HealthV {
        HealthV {
            device_id: self.device_id@,
            is_online: self.is_online,
            last_seen_ms: self.last_seen_ms,
            consecutive_failures: self.consecutive_failures,
            last_error: text::view_option(self.last_error),
        }
    }
}

/// The health of a device that is heard of for the first time.
pub open spec fn fresh(device_id: Seq<char>, now: u64) -> HealthV {
    HealthV {
        device_id,
        is_online: true,
        last_seen_ms: now,
        consecutive_failures: 0,
        last_error: None,
    }
}

/// What holds of the health of every device: one that counts as online has failed twice in a
/// row at most.
pub open spec fn sound(h: HealthV) -> bool {
    h.is_online ==> h.consecutive_failures <= 2
}

/// The health of a device after a failure: failures count while the device is online, and the
/// third in a row takes it offline.
pub open spec fn failed(h: HealthV, message: Seq<char>) -> HealthV {
    let failures = if h.is_online {
        (h.consecutive_failures + 1) as u32
    } else {
        h.consecutive_failures
    };
    HealthV {
        is_online: h.is_online && failures < 3,
        consecutive_failures: failures,
        last_error: Some(message),
        ..h
    }
}

/// The health of the devices.
pub struct HealthTable {
    pub devices: StrMap<DeviceHealthStatus>,
}

/// The health of each device, by its name.
pub open spec fn health_of(devices: Map<Seq<char>, DeviceHealthStatus>) -> Map<Seq<char>, HealthV> {
    Map::new(|k: Seq<char>| devices.dom().contains(k), |k: Seq<char>| devices[k]@)
}

/// The health of a device, or that of a fresh one.
pub open spec fn known_or_fresh(m: Map<Seq<char>, HealthV>, id: Seq<char>, now: u64) -> HealthV {
    if m.dom().contains(id) {
        m[id]
    } else {
        fresh(id, now)
    }
}

fn copy_option(o: &Option<String>) -> (r: Option<String>)
    ensures
        text::view_option(r) == text::view_option(*o),
{
    match o {
        Some(s) => Some(s.clone()),
        None => None,
    }
}

impl DeviceHealthStatus {
    pub fn duplicate(&self) -> (r: DeviceHealthStatus)
        ensures
            r@ == self@,
    {
        DeviceHealthStatus {
            device_id: self.device_id.clone(),
            is_online: self.is_online,
            last_seen_ms: self.last_seen_ms,
            consecutive_failures: self.consecutive_failures,
            last_error: copy_option(&self.last_error),
        }
    }
}

impl HealthTable {
    /// The health of each device, by its name.
    pub open spec fn health(&self) -> Map<Seq<char>, HealthV> {
        health_of(self.devices@)
    }

    /// Every device is in the table once, and its health is sound.
    pub open spec fn wf(&self) -> bool {
        self.devices.unique() && forall|k: Seq<char>|
            self.health().dom().contains(k) ==> sound(#[trigger] self.health()[k])
    }

    pub fn new() -> (r: Self)
        ensures
            r.wf(),
            r.health() == Map::<Seq<char>, HealthV>::empty(),
    {
        let r = HealthTable { devices: StrMap::new() };
        proof {
            assert(r.health() =~= Map::<Seq<char>, HealthV>::empty());
        }
        r
    }

    fn lookup(&self, device_id: &str, now_ms: u64) -> (r: DeviceHealthStatus)
        ensures
            r@ == known_or_fresh(self.health(), device_id@, now_ms),
    {
        match self.devices.get(device_id) {
            Some(h) => h.duplicate(),
            None => DeviceHealthStatus {
                device_id: device_id.to_owned(),
                is_online: true,
                last_seen_ms: now_ms,
                consecutive_failures: 0,
                last_error: None,
            },
        }
    }

    fn store(&mut self, device_id: &str, h: DeviceHealthStatus)
        requires
            old(self).wf(),
            sound(h@),
        ensures
            final(self).wf(),
            final(self).health() == old(self).health().insert(device_id@, h@),
    {
        self.devices.insert(device_id.to_owned(), h);
        proof {
            assert(self.health() =~= old(self).health().insert(device_id@, h@));
        }
    }

    /// Takes down that a device has answered.
    pub fn mark_device_online(&mut self, device_id: &str, now_ms: u64)
        requires
            old(self).wf(),
        ensures
            final(self).wf(),
            final(self).health() == old(self).health().insert(
                device_id@,
                (HealthV {
                    device_id: known_or_fresh(old(self).health(), device_id@, now_ms).device_id,
                    is_online: true,
                    last_seen_ms: now_ms,
                    consecutive_failures: 0,
                    last_error: None,
                }),
            ),
    {
        let mut h = self.lookup(device_id, now_ms);
        h.is_online = true;
        h.last_seen_ms = now_ms;
        h.consecutive_failures = 0;
        h.last_error = None;
        self.store(device_id, h);
    }

    /// Takes down that a device has failed, and tells whether that is to be shown: it is while
    /// the device still counts as online.
    pub fn record_failure(&mut self, device_id: &str, message: &str, now_ms: u64) -> (show: bool)
        requires
            old(self).wf(),
        ensures
            final(self).wf(),
            show == known_or_fresh(old(self).health(), device_id@, now_ms).is_online,
            final(self).health() == old(self).health().insert(
                device_id@,
                failed(known_or_fresh(old(self).health(), device_id@, now_ms), message@),
            ),
    {
        let mut h = self.lookup(device_id, now_ms);
        let was_online = h.is_online;
        if was_online {
            h.consecutive_failures = h.consecutive_failures + 1;
        }
        h.last_error = Some(message.to_owned());
        if h.consecutive_failures >= 3 {
            h.is_online = false;
        }
        self.store(device_id, h);
        was_online
    }

    /// Forgets the failures of all devices. Those that are offline stay so.
    pub fn reset_failures(&mut self)
        requires
            old(self).wf(),
        ensures
            final(self).wf(),
            final(self).health().dom() == old(self).health().dom(),
            forall|k: Seq<char>|
                old(self).health().dom().contains(k) ==> #[trigger] final(self).health()[k] == (
                HealthV {
                    consecutive_failures: 0,
                    last_error: None,
                    ..old(self).health()[k]
                }),
    {
        let mut out: StrMap<DeviceHealthStatus> = StrMap::new();
        let mut i: usize = 0;
        while i < self.devices.entries.len()
            invariant
                i <= self.devices.entries@.len(),
                self.devices.unique(),
                out.unique(),
                out@.dom() == strmap::assoc(self.devices.entries@.take(i as int)).dom(),
                forall|k: Seq<char>|
                    out@.dom().contains(k) ==> (#[trigger] out@[k])@ == (HealthV {
                        consecutive_failures: 0,
                        last_error: None,
                        ..strmap::assoc(self.devices.entries@.take(i as int))[k]@
                    }),
            decreases self.devices.entries@.len() - i,
        {
            let mut h = self.devices.entries[i].1.duplicate();
            h.consecutive_failures = 0;
            h.last_error = None;
            out.insert(self.devices.entries[i].0.clone(), h);
            proof {
                assert(self.devices.entries@.take(i + 1).drop_last() =~= self.devices.entries@.take(
                    i as int,
                ));
                assert(out@.dom() =~= strmap::assoc(self.devices.entries@.take(i + 1)).dom());
            }
            i += 1;
        }
        proof {
            assert(self.devices.entries@.take(i as int) =~= self.devices.entries@);
        }
        let ghost before = self.health();
        self.devices = out;
        proof {
            assert(self.health().dom() =~= before.dom());
            assert forall|k: Seq<char>| before.dom().contains(k) implies #[trigger] self.health()[k]
                == (HealthV { consecutive_failures: 0, last_error: None, ..before[k] }) by {
                assert(out@.dom().contains(k));
            }
        }
    }

    /// The health of all devices as a list.
    pub fn report(&self) -> (r: Json)
        ensures
            r@ == JsonV::List(
                Seq::new(
                    self.devices.entries@.len(),
                    |i: int| health_json(self.devices.entries@[i].1@),
                ),
            ),
    {
        let mut out: Vec<Json> = Vec::new();
        let mut i: usize = 0;
        while i < self.devices.entries.len()
            invariant
                i <= self.devices.entries@.len(),
                out@.len() == i,
                forall|j: int|
                    0 <= j < i ==> (#[trigger] out@[j])@ == health_json(
                        self.devices.entries@[j].1@,
                    ),
            decreases self.devices.entries@.len() - i,
        {
            out.push(status_json(&self.devices.entries[i].1));
            i += 1;
        }
        proof {
            json::list_view_index(out@);
            assert(json::list_view(out@) =~= Seq::new(
                self.devices.entries@.len(),
                |j: int| health_json(self.devices.entries@[j].1@),
            ));
        }
        Json::List(out)
    }
}

/// The health of a device as JSON.
pub open spec fn health_json(h: HealthV) -> JsonV {
    JsonV::Object(
        Map::<Seq<char>, JsonV>::empty().insert("device_id"@, JsonV::Text(h.device_id)).insert(
            "is_online"@,
            JsonV::Bool(h.is_online),
        ).insert("last_seen_ms"@, JsonV::Unsigned(h.last_seen_ms)).insert(
            "consecutive_failures"@,
            JsonV::Unsigned(h.consecutive_failures as u64),
        ).insert(
            "last_error"@,
            match h.last_error {
                Some(e) => JsonV::Text(e),
                None => JsonV::Null,
            },
        ),
    )
}

fn status_json(h: &DeviceHealthStatus) -> (r: Json)
    ensures
        r@ == health_json(h@),
{
    let mut m = json::empty_object();
    json::put(&mut m, "device_id", json::text(h.device_id.as_str()));
    json::put(&mut m, "is_online", Json::Bool(h.is_online));
    json::put(&mut m, "last_seen_ms", Json::Unsigned(h.last_seen_ms));
    json::put(&mut m, "consecutive_failures", Json::Unsigned(h.consecutive_failures as u64));
    let error = match &h.last_error {
        Some(e) => json::text(e.as_str()),
        None => Json::Null,
    };
    json::put(&mut m, "last_error", error);
    Json::Object(m)
}

/// A device that fails goes offline with its third failure in a row and not before, and an
/// answer brings it back.
pub proof fn third_failure_takes_offline(id: Seq<char>, now: u64, a: Seq<char>, b: Seq<char>, c: Seq<char>)
    ensures
        failed(fresh(id, now), a).is_online,
        failed(failed(fresh(id, now), a), b).is_online,
        !failed(failed(failed(fresh(id, now), a), b), c).is_online,
{
}

/// A failure leaves the health of a device sound.
pub proof fn failing_stays_sound(h: HealthV, message: Seq<char>)
    requires
        sound(h),
    ensures
        sound(failed(h, message)),
        failed(h, message).consecutive_failures <= 3 || failed(h, message).consecutive_failures
            == h.consecutive_failures,
{
}

// ---------------------------------------------------------------------------
// Cache of answers
// ---------------------------------------------------------------------------

pub const QUERY_CACHE_TTL_MS: u64 = 30_000;

pub const DEDUP_WINDOW_MS: u64 = 5_000;

pub const DEDUP_KEEP_MS: u64 = 10_000;

/// An answer and when it was given.
pub struct StoredAnswer {
    pub data: String,
    pub timestamp_ms: u64,
}

/// Answers by the question.
pub struct AnswerStore {
    pub answers: StrMap<StoredAnswer>,
}

pub open spec fn stored_of(m: Map<Seq<char>, StoredAnswer>) -> Map<Seq<char>, (Seq<char>, u64)> {
    Map::new(
        |k: Seq<char>| m.dom().contains(k),
        |k: Seq<char>| (m[k].data@, m[k].timestamp_ms),
    )
}

/// The answer to a question, if there is one that is younger than `ttl`.
pub open spec fn young_answer(
    m: Map<Seq<char>, (Seq<char>, u64)>,
    key: Seq<char>,
    now: u64,
    ttl: u64,
) -> Option<Seq<char>> {
    if m.dom().contains(key) && alerts::since(now, m[key].1) < ttl {
        Some(m[key].0)
    } else {
        None
    }
}

/// The answers that are younger than `ttl`.
pub open spec fn young_only(m: Map<Seq<char>, (Seq<char>, u64)>, now: u64, ttl: u64) -> Map<
    Seq<char>,
    (Seq<char>, u64),
> {
    Map::new(
        |k: Seq<char>| m.dom().contains(k) && alerts::since(now, m[k].1) < ttl,
        |k: Seq<char>| m[k],
    )
}

impl AnswerStore {
    /// The answers by the question, each with its time.
    pub open spec fn stored(&self) -> Map<Seq<char>, (Seq<char>, u64)> {
        stored_of(self.answers@)
    }

    /// Every question is in the store once.
    pub open spec fn wf(&self) -> bool {
        self.answers.unique()
    }

    pub fn new() -> (r: Self)
        ensures
            r.wf(),
            r.stored() == Map::<Seq<char>, (Seq<char>, u64)>::empty(),
    {
        let r = AnswerStore { answers: StrMap::new() };
        proof {
            assert(r.stored() =~= Map::<Seq<char>, (Seq<char>, u64)>::empty());
        }
        r
    }

    /// The answer to a question, if there is one that is younger than `ttl`.
    pub fn young(&self, key: &str, now_ms: u64, ttl: u64) -> (r: Option<String>)
        ensures
            text::view_option(r) == young_answer(self.stored(), key@, now_ms, ttl),
    {
        match self.answers.get(key) {
            Some(a) => if now_ms.saturating_sub(a.timestamp_ms) < ttl {
                Some(a.data.clone())
            } else {
                None
            },
            None => None,
        }
    }

    /// Stores an answer.
    pub fn store(&mut self, key: &str, data: &str, now_ms: u64)
        requires
            old(self).wf(),
        ensures
            final(self).wf(),
            final(self).stored() == old(self).stored().insert(key@, (data@, now_ms)),
    {
        self.answers.insert(
            key.to_owned(),
            StoredAnswer { data: data.to_owned(), timestamp_ms: now_ms },
        );
        proof {
            assert(self.stored() =~= old(self).stored().insert(key@, (data@, now_ms)));
        }
    }

    /// Forgets the answers that are not younger than `ttl`.
    pub fn forget_old(&mut self, now_ms: u64, ttl: u64)
        requires
            old(self).wf(),
        ensures
            final(self).wf(),
            final(self).stored() == young_only(old(self).stored(), now_ms, ttl),
    {
        let mut out: StrMap<StoredAnswer> = StrMap::new();
        let mut i: usize = 0;
        proof {
            assert(stored_of(out@) =~= young_only(
                stored_of(strmap::assoc(self.answers.entries@.take(0))),
                now_ms,
                ttl,
            ));
        }
        while i < self.answers.entries.len()
            invariant
                i <= self.answers.entries@.len(),
                self.answers.unique(),
                out.unique(),
                stored_of(out@) == young_only(
                    stored_of(strmap::assoc(self.answers.entries@.take(i as int))),
                    now_ms,
                    ttl,
                ),
            decreases self.answers.entries@.len() - i,
        {
            let ghost seen = self.answers.entries@.take(i as int);
            let ghost e = self.answers.entries@[i as int];
            proof {
                assert(self.answers.entries@.take(i + 1).drop_last() =~= seen);
                assert forall|j: int| 0 <= j < seen.len() implies (#[trigger] seen[j]).0@
                    != e.0@ by {
                    assert(seen[j] == self.answers.entries@[j]);
                }
                strmap::assoc_absent(seen, e.0@);
            }
            let ghost old_out = out@;
            let age = now_ms.saturating_sub(self.answers.entries[i].1.timestamp_ms);
            if age < ttl {
                out.insert(
                    self.answers.entries[i].0.clone(),
                    StoredAnswer {
                        data: self.answers.entries[i].1.data.clone(),
                        timestamp_ms: self.answers.entries[i].1.timestamp_ms,
                    },
                );
            }
            proof {
                let one = (e.1.data@, e.1.timestamp_ms);
                let before = stored_of(strmap::assoc(seen));
                assert(strmap::assoc(self.answers.entries@.take(i + 1)) == strmap::assoc(seen).insert(
                    e.0@,
                    e.1,
                ));
                assert(stored_of(strmap::assoc(seen).insert(e.0@, e.1)) =~= before.insert(
                    e.0@,
                    one,
                ));
                if age < ttl {
                    assert(stored_of(out@) =~= stored_of(old_out).insert(e.0@, one));
                    assert(young_only(before.insert(e.0@, one), now_ms, ttl) =~= young_only(
                        before,
                        now_ms,
                        ttl,
                    ).insert(e.0@, one));
                } else {
                    assert(!before.dom().contains(e.0@));
                    assert(young_only(before.insert(e.0@, one), now_ms, ttl) =~= young_only(
                        before,
                        now_ms,
                        ttl,
                    ));
                }
                assert(stored_of(out@) =~= young_only(
                    stored_of(strmap::assoc(self.answers.entries@.take(i + 1))),
                    now_ms,
                    ttl,
                ));
            }
            i += 1;
        }
        proof {
            assert(self.answers.entries@.take(i as int) =~= self.answers.entries@);
        }
        self.answers = out;
    }

    /// Forgets all answers.
    pub fn clear(&mut self)
        ensures
            final(self).wf(),
            final(self).stored() == Map::<Seq<char>, (Seq<char>, u64)>::empty(),
    {
        self.answers = StrMap::new();
        proof {
            assert(self.stored() =~= Map::<Seq<char>, (Seq<char>, u64)>::empty());
        }
    }

    /// The answer to a question: the stored one while it is young; else the one that `fetch`
    /// gives together with the time at which it came, which is stored.
    pub fn get_or_cache_query<F: FnOnce() -> Option<(String, u64)>>(
        &mut self,
        key: &str,
        now_ms: u64,
        fetch: F,
    ) -> (r: Option<String>)
        requires
            old(self).wf(),
            fetch.requires(()),
        ensures
            final(self).wf(),
            match young_answer(old(self).stored(), key@, now_ms, QUERY_CACHE_TTL_MS) {
                Some(data) => text::view_option(r) == Some(data) && final(self).stored() == old(self).stored(),
                None => exists|got: Option<(String, u64)>|
                    fetch.ensures((), got) && match got {
                        Some((data, at)) => text::view_option(r) == Some(data@) && final(self).stored() == old(self).stored().insert(key@, (data@, at)),
                        None => r is None && final(self).stored() == old(self).stored(),
                    },
            },
    {
        if let Some(data) = self.young(key, now_ms, QUERY_CACHE_TTL_MS) {
            return Some(data);
        }
        match fetch() {
            Some((data, at)) => {
                self.store(key, data.as_str(), at);
                Some(data)
            },
            None => None,
        }
    }

    /// The answer to a question that was just asked, if it was.
    pub fn just_answered(&self, key: &str, now_ms: u64) -> (r: Option<String>)
        ensures
            text::view_option(r) == young_answer(self.stored(), key@, now_ms, DEDUP_WINDOW_MS),
    {
        self.young(key, now_ms, DEDUP_WINDOW_MS)
    }

    /// The answer to a question, asked once within five seconds: the stored one if it is that
    /// young, and else the one that `fetch` gives, which is stored; then old answers are
    /// forgotten.
    pub fn get_deduplicated_request<F: FnOnce() -> Option<String>>(
        &mut self,
        key: &str,
        now_ms: u64,
        fetch: F,
    ) -> (r: Option<String>)
        requires
            old(self).wf(),
            fetch.requires(()),
        ensures
            final(self).wf(),
            match young_answer(old(self).stored(), key@, now_ms, DEDUP_WINDOW_MS) {
                Some(data) => text::view_option(r) == Some(data) && final(self).stored() == old(self).stored(),
                None => exists|got: Option<String>|
                    fetch.ensures((), got) && match got {
                        Some(data) => text::view_option(r) == Some(data@) && final(self).stored()
                            == young_only(
                            old(self).stored().insert(key@, (data@, now_ms)),
                            now_ms,
                            DEDUP_KEEP_MS,
                        ),
                        None => r is None && final(self).stored() == old(self).stored(),
                    },
            },
    {
        if let Some(data) = self.just_answered(key, now_ms) {
            return Some(data);
        }
        match fetch() {
            Some(data) => {
                self.store(key, data.as_str(), now_ms);
                self.forget_old(now_ms, DEDUP_KEEP_MS);
                Some(data)
            },
            None => None,
        }
    }
}

/// An answer that was stored is found while it is young, and only then.
pub proof fn stored_answers_are_found(
    m: Map<Seq<char>, (Seq<char>, u64)>,
    key: Seq<char>,
    data: Seq<char>,
    at: u64,
    now: u64,
    ttl: u64,
)
    ensures
        young_answer(m.insert(key, (data, at)), key, now, ttl) == if alerts::since(now, at) < ttl {
            Some(data)
        } else {
            None
        },
{
}

// ---------------------------------------------------------------------------
// Limit on requests
// ---------------------------------------------------------------------------

pub const RATE_LIMIT_WINDOW_MS: u64 = 60_000;

pub const RATE_LIMIT_MAX_REQUESTS: usize = 100;

/// The times of the requests to each endpoint.
pub struct RateLimiter {
    pub requests: StrMap<Vec<u64>>,
}

/// The times that lie less than a minute back.
pub open spec fn recent(times: Seq<u64>, now: u64) -> Seq<u64>
    decreases times.len(),
{
    if times.len() == 0 {
        Seq::empty()
    } else {
        let before = recent(times.drop_last(), now);
        if alerts::since(now, times.last()) < RATE_LIMIT_WINDOW_MS {
            before.push(times.last())
        } else {
            before
        }
    }
}

pub open spec fn times_of(m: Map<Seq<char>, Vec<u64>>, endpoint: Seq<char>) -> Seq<u64> {
    if m.dom().contains(endpoint) {
        m[endpoint]@
    } else {
        Seq::empty()
    }
}

fn keep_recent(times: &Vec<u64>, now_ms: u64) -> (r: Vec<u64>)
    ensures
        r@ == recent(times@, now_ms),
{
    let mut out: Vec<u64> = Vec::new();
    let mut i: usize = 0;
    while i < times.len()
        invariant
            i <= times@.len(),
            out@ == recent(times@.take(i as int), now_ms),
        decreases times@.len() - i,
    {
        proof {
            assert(times@.take(i + 1).drop_last() =~= times@.take(i as int));
        }
        if now_ms.saturating_sub(times[i]) < RATE_LIMIT_WINDOW_MS {
            out.push(times[i]);
        }
        i += 1;
    }
    proof {
        assert(times@.take(i as int) =~= times@);
    }
    out
}

impl RateLimiter {
    /// No more than a hundred requests to an endpoint are remembered.
    pub open spec fn wf(&self) -> bool {
        forall|endpoint: Seq<char>|
            (#[trigger] times_of(self.requests@, endpoint)).len() <= RATE_LIMIT_MAX_REQUESTS
    }

    pub fn new() -> (r: Self)
        ensures
            r.wf(),
            r.requests@ == Map::<Seq<char>, Vec<u64>>::empty(),
    {
        RateLimiter { requests: StrMap::new() }
    }

    /// Admits a request, unless a hundred were admitted within the last minute.
    pub fn check_rate_limit(&mut self, endpoint: &str, now_ms: u64) -> (r: Result<(), String>)
        ensures
            ({
                let times = recent(times_of(old(self).requests@, endpoint@), now_ms);
                &&& match r {
                    Ok(_) => times.len() < RATE_LIMIT_MAX_REQUESTS && times_of(
                        final(self).requests@,
                        endpoint@,
                    ) == times.push(now_ms),
                    Err(e) => times.len() >= RATE_LIMIT_MAX_REQUESTS && times_of(
                        final(self).requests@,
                        endpoint@,
                    ) == times && e@ == "Rate limit exceeded for "@ + endpoint@
                        + ": 100 requests/min"@,
                }
                &&& forall|other: Seq<char>|
                    other != endpoint@ ==> #[trigger] times_of(final(self).requests@, other)
                        == times_of(old(self).requests@, other)
            }),
            old(self).wf() ==> final(self).wf(),
    {
        proof {
            recent_is_short(times_of(self.requests@, endpoint@), now_ms);
        }
        let mut times = match self.requests.get(endpoint) {
            Some(t) => keep_recent(t, now_ms),
            None => {
                proof {
                    assert(recent(Seq::<u64>::empty(), now_ms) =~= Seq::<u64>::empty());
                }
                Vec::new()
            },
        };
        let full = times.len() >= RATE_LIMIT_MAX_REQUESTS;
        if !full {
            times.push(now_ms);
        }
        self.requests.insert(endpoint.to_owned(), times);
        proof {
            if old(self).wf() {
                assert forall|other: Seq<char>|
                    (#[trigger] times_of(self.requests@, other)).len()
                        <= RATE_LIMIT_MAX_REQUESTS by {
                    assert(times_of(old(self).requests@, other).len() <= RATE_LIMIT_MAX_REQUESTS);
                }
            }
        }
        if full {
            return Err(text::glue3("Rate limit exceeded for ", endpoint, ": 100 requests/min"));
        }
        Ok(())
    }
}

proof fn recent_is_short(times: Seq<u64>, now: u64)
    ensures
        recent(times, now).len() <= times.len(),
    decreases times.len(),
{
    if times.len() > 0 {
        recent_is_short(times.drop_last(), now);
    }
}

/// Only requests of the last minute count.
pub proof fn only_recent_requests_count(times: Seq<u64>, now: u64, i: int)
    requires
        0 <= i < recent(times, now).len(),
    ensures
        alerts::since(now, recent(times, now)[i]) < RATE_LIMIT_WINDOW_MS,
    decreases times.len(),
{
    if times.len() > 0 {
        let before = recent(times.drop_last(), now);
        if i < before.len() {
            only_recent_requests_count(times.drop_last(), now, i);
        }
    }
}

// ---------------------------------------------------------------------------
// Connections
// ---------------------------------------------------------------------------

pub const CONNECTION_REUSE_MS: u64 = 300_000;

/// A connection that was used.
pub struct PooledConnection {
    pub host: String,
    pub port: u16,
    pub last_used_ms: u64,
    pub connection_type: String,
}

/// The connections that were used, by their key.
pub struct ConnectionPool {
    pub connections: StrMap<PooledConnection>,
}

pub open spec fn connection_key(host: Seq<char>, port: u16, kind: Seq<char>) -> Seq<char> {
    kind + ":"@ + host + ":"@ + numerals::dec(port as nat)
}

impl ConnectionPool {
    pub fn new() -> (r: Self)
        ensures
            r.connections@ == Map::<Seq<char>, PooledConnection>::empty(),
    {
        ConnectionPool { connections: StrMap::new() }
    }

    /// The key of a connection. Its use is taken down, unless the last one lies less than five
    /// minutes back.
    pub fn get_pooled_connection(&mut self, host: &str, port: u16, conn_type: &str, now_ms: u64) -> (key:
        String)
        ensures
            key@ == connection_key(host@, port, conn_type@),
            ({
                let before = old(self).connections@;
                if before.dom().contains(key@) && alerts::since(now_ms, before[key@].last_used_ms)
                    < CONNECTION_REUSE_MS {
                    final(self).connections@ == before
                } else {
                    let now = final(self).connections@;
                    &&& now == before.insert(key@, now[key@])
                    &&& now[key@].host@ == host@
                    &&& now[key@].port == port
                    &&& now[key@].last_used_ms == now_ms
                    &&& now[key@].connection_type@ == conn_type@
                }
            }),
    {
        let mut key = text::glue3(conn_type, ":", host);
        key.append(":");
        key.append(numerals::dec_u64(port as u64).as_str());
        if let Some(c) = self.connections.get(key.as_str()) {
            if now_ms.saturating_sub(c.last_used_ms) < CONNECTION_REUSE_MS {
                return key;
            }
        }
        let connection = PooledConnection {
            host: host.to_owned(),
            port,
            last_used_ms: now_ms,
            connection_type: conn_type.to_owned(),
        };
        self.connections.insert(key.clone(), connection);
        proof {
            assert(self.connections@ =~= old(self).connections@.insert(
                key@,
                self.connections@[key@],
            ));
        }
        key
    }
}

// ---------------------------------------------------------------------------
// Managed questions
// ---------------------------------------------------------------------------

/// The key of a device in the cache.
pub fn device_key(kind: &str, ip: &str) -> (r: String)
    ensures
        r@ == kind@ + ":"@ + ip@,
{
    text::glue3(kind, ":", ip)
}

/// The key of an SNMP device in the cache, with its community and port, or the usual ones.
pub fn snmp_cache_key(kind: &str, ip: &str, community: &Option<String>, port: Option<u16>) -> (r:
    String)
    ensures
        r@ == kind@ + ":"@ + ip@ + ":"@ + (match community {
            Some(c) => c@,
            None => "public"@,
        }) + ":"@ + numerals::dec(
            match port {
                Some(p) => p as nat,
                None => 161,
            },
        ),
{
    let mut s = text::glue3(kind, ":", ip);
    s.append(":");
    match community {
        Some(c) => {
            s.append(c.as_str());
        },
        None => {
            s.append("public");
        },
    }
    s.append(":");
    let p: u16 = match port {
        Some(p) => p,
        None => 161,
    };
    s.append(numerals::dec_u64(p as u64).as_str());
    s
}

/// The value that a stored answer stands for, given what came of reading it.
pub fn readable(parsed: Result<Json, String>) -> (r: Option<Json>)
    ensures
        match (r, parsed) {
            (Some(v), Ok(j)) => v == j,
            (None, Err(_)) => true,
            _ => false,
        },
{
    match parsed {
        Ok(j) => Some(j),
        Err(_) => None,
    }
}

/// The value of a stored answer, if there is one and it reads as JSON.
pub open spec fn answer_value(answer: Option<Seq<char>>) -> Option<JsonV> {
    match answer {
        Some(s) => match json::json_of_text(s) {
            Ok(v) => Some(v),
            Err(_) => None,
        },
        None => None,
    }
}

pub open spec fn view_value(o: Option<Json>) -> Option<JsonV> {
    match o {
        Some(j) => Some(j@),
        None => None,
    }
}

/// The value of a stored answer.
pub fn stored_value(answer: &Option<String>) -> (r: Option<Json>)
    ensures
        view_value(r) == answer_value(text::view_option(*answer)),
{
    match answer {
        Some(s) => readable(json::parse_json(s.as_str())),
        None => None,
    }
}

/// What a managed question finds without asking the device: the answer that was just given,
/// else the cached one.
pub open spec fn known_value(
    dedup: Map<Seq<char>, (Seq<char>, u64)>,
    cache: Map<Seq<char>, (Seq<char>, u64)>,
    dedup_key: Option<Seq<char>>,
    cache_key: Seq<char>,
    now: u64,
) -> Option<JsonV> {
    let just = match dedup_key {
        Some(k) => answer_value(young_answer(dedup, k, now, DEDUP_WINDOW_MS)),
        None => None,
    };
    match just {
        Some(v) => Some(v),
        None => answer_value(young_answer(cache, cache_key, now, QUERY_CACHE_TTL_MS)),
    }
}

/// Looks for an answer to a managed question that need not be asked.
pub fn known_answer(
    dedup: &AnswerStore,
    cache: &AnswerStore,
    dedup_key: &Option<String>,
    cache_key: &str,
    now_ms: u64,
) -> (r: Option<Json>)
    ensures
        view_value(r) == known_value(
            dedup.stored(),
            cache.stored(),
            text::view_option(*dedup_key),
            cache_key@,
            now_ms,
        ),
{
    if let Some(k) = dedup_key {
        let just = stored_value(&dedup.just_answered(k.as_str(), now_ms));
        if just.is_some() {
            return just;
        }
    }
    stored_value(&cache.young(cache_key, now_ms, QUERY_CACHE_TTL_MS))
}

// ---------------------------------------------------------------------------
// What the bookkeeping keeps
// ---------------------------------------------------------------------------

/// The health of a device in a table.
pub open spec fn health_in(t: HealthTable, id: Seq<char>) -> Option<HealthV> {
    if t.health().dom().contains(id) {
        Some(t.health()[id])
    } else {
        None
    }
}

/// A device that answers is online with no failures, seen now; the others stay as they are.
pub proof fn answers_bring_online(
    t: &mut HealthTable,
    id: &str,
    now_ms: u64,
    other: Seq<char>,
    r: (),
)
    requires
        old(t).wf(),
        call_ensures(HealthTable::mark_device_online, (t, id, now_ms), r),
    ensures
        health_in(*final(t), id@) is Some,
        ({
            let h = health_in(*final(t), id@)->0;
            h.is_online && h.last_seen_ms == now_ms && h.consecutive_failures == 0
                && h.last_error is None
        }),
        other != id@ ==> health_in(*final(t), other) == health_in(*old(t), other),
{
}

/// A failure counts while the device is online; the third in a row takes it offline; it is
/// shown while the device was online before; the error is kept, and when the device was last
/// seen stays.
pub proof fn failures_take_offline(
    t: &mut HealthTable,
    id: &str,
    message: &str,
    now_ms: u64,
    other: Seq<char>,
    show: bool,
)
    requires
        old(t).wf(),
        call_ensures(HealthTable::record_failure, (t, id, message, now_ms), show),
    ensures
        health_in(*final(t), id@) is Some,
        ({
            let h = health_in(*final(t), id@)->0;
            &&& h.last_error == Some(message@)
            &&& match health_in(*old(t), id@) {
                None => show && h.is_online && h.consecutive_failures == 1 && h.last_seen_ms
                    == now_ms,
                Some(b) => {
                    &&& show == b.is_online
                    &&& h.last_seen_ms == b.last_seen_ms
                    &&& b.is_online ==> h.consecutive_failures == b.consecutive_failures + 1
                    &&& b.is_online ==> h.is_online == (b.consecutive_failures < 2)
                    &&& !b.is_online ==> !h.is_online && h.consecutive_failures
                        == b.consecutive_failures
                },
            }
        }),
        other != id@ ==> health_in(*final(t), other) == health_in(*old(t), other),
{
    if let Some(b) = health_in(*old(t), id@) {
        assert(sound(old(t).health()[id@]));
    }
}

/// Forgetting the failures brings no device online and none offline.
pub proof fn resetting_keeps_the_state(t: &mut HealthTable, id: Seq<char>, r: ())
    requires
        old(t).wf(),
        call_ensures(HealthTable::reset_failures, (t,), r),
    ensures
        health_in(*final(t), id) is Some <==> health_in(*old(t), id) is Some,
        health_in(*old(t), id) matches Some(b) ==> ({
            let h = health_in(*final(t), id)->0;
            h.is_online == b.is_online && h.last_seen_ms == b.last_seen_ms && h.consecutive_failures
                == 0 && h.last_error is None
        }),
{
}

/// An answer that was stored is found again under its question for thirty seconds, counted from
/// when it came, and under no other question.
pub proof fn answers_are_found_for_thirty_seconds(
    store: &mut AnswerStore,
    key: &str,
    data: &str,
    at: u64,
    after: &AnswerStore,
    question: &str,
    now_ms: u64,
    stored: (),
    r: Option<String>,
)
    requires
        old(store).wf(),
        call_ensures(AnswerStore::store, (store, key, data, at), stored),
        *after == *final(store),
        call_ensures(AnswerStore::young, (after, question, now_ms, QUERY_CACHE_TTL_MS), r),
    ensures
        QUERY_CACHE_TTL_MS == 30_000,
        question@ == key@ && at <= now_ms < at + 30_000 ==> r is Some && (r->0)@ == data@,
        question@ == key@ && now_ms >= at + 30_000 ==> r is None,
        question@ != key@ && !old(store).stored().dom().contains(question@) ==> r is None,
{
}

/// A question that was answered within five seconds is not asked again.
pub proof fn repeated_questions_are_not_asked(
    store: &AnswerStore,
    key: &str,
    now_ms: u64,
    at: u64,
    data: Seq<char>,
    r: Option<String>,
)
    requires
        store.stored().dom().contains(key@),
        store.stored()[key@] == (data, at),
        call_ensures(AnswerStore::just_answered, (store, key, now_ms), r),
    ensures
        at <= now_ms < at + 5_000 ==> r is Some && (r->0)@ == data,
        now_ms >= at + 5_000 ==> r is None,
{
}

/// Old answers are forgotten, and exactly those.
pub proof fn old_answers_are_forgotten(
    store: &mut AnswerStore,
    now_ms: u64,
    ttl: u64,
    key: Seq<char>,
    r: (),
)
    requires
        old(store).wf(),
        call_ensures(AnswerStore::forget_old, (store, now_ms, ttl), r),
    ensures
        old(store).stored().dom().contains(key) ==> ({
            let at = old(store).stored()[key].1;
            &&& now_ms >= at + ttl ==> !final(store).stored().dom().contains(key)
            &&& now_ms < at + ttl && now_ms >= at ==> final(store).stored().dom().contains(key)
                && final(store).stored()[key] == old(store).stored()[key]
        }),
        !old(store).stored().dom().contains(key) ==> !final(store).stored().dom().contains(key),
{
}

proof fn recent_requests_stay(times: Seq<u64>, now: u64)
    requires
        forall|i: int| 0 <= i < times.len() ==> (#[trigger] times[i]) <= now < times[i] + 60_000,
    ensures
        recent(times, now) == times,
    decreases times.len(),
{
    if times.len() > 0 {
        assert forall|i: int| 0 <= i < times.drop_last().len() implies (#[trigger] times.drop_last()[i])
            <= now < times.drop_last()[i] + 60_000 by {
            assert(times.drop_last()[i] == times[i]);
        }
        recent_requests_stay(times.drop_last(), now);
        assert(times[times.len() - 1] <= now);
        assert(times.drop_last().push(times.last()) =~= times);
    } else {
        assert(times =~= Seq::<u64>::empty());
    }
}

proof fn old_requests_go(times: Seq<u64>, now: u64)
    requires
        forall|i: int| 0 <= i < times.len() ==> now >= (#[trigger] times[i]) + 60_000,
    ensures
        recent(times, now).len() == 0,
    decreases times.len(),
{
    if times.len() > 0 {
        assert forall|i: int| 0 <= i < times.drop_last().len() implies now >= (
        #[trigger] times.drop_last()[i]) + 60_000 by {
            assert(times.drop_last()[i] == times[i]);
        }
        old_requests_go(times.drop_last(), now);
        assert(now >= times[times.len() - 1] + 60_000);
    }
}

/// A hundred requests within a minute are admitted and one more is not; after the minute they no
/// longer count; endpoints do not count against each other.
pub proof fn a_hundred_requests_a_minute(
    l: &mut RateLimiter,
    endpoint: &str,
    now_ms: u64,
    other: Seq<char>,
    r: Result<(), String>,
)
    requires
        call_ensures(RateLimiter::check_rate_limit, (l, endpoint, now_ms), r),
    ensures
        ({
            let times = times_of(old(l).requests@, endpoint@);
            &&& (forall|i: int|
                0 <= i < times.len() ==> (#[trigger] times[i]) <= now_ms < times[i] + 60_000)
                    ==> (r is Ok
                <==> times.len() < 100) && (r is Ok ==> times_of(final(l).requests@, endpoint@)
                == times.push(now_ms)) && (r is Err ==> times_of(final(l).requests@, endpoint@)
                == times)
            &&& (forall|i: int|
                0 <= i < times.len() ==> now_ms >= (#[trigger] times[i]) + 60_000) ==> r is Ok
                && times_of(final(l).requests@, endpoint@) == seq![now_ms]
        }),
        other != endpoint@ ==> times_of(final(l).requests@, other) == times_of(
            old(l).requests@,
            other,
        ),
{
    let times = times_of(old(l).requests@, endpoint@);
    if forall|i: int| 0 <= i < times.len() ==> (#[trigger] times[i]) <= now_ms < times[i] + 60_000 {
        recent_requests_stay(times, now_ms);
    }
    if forall|i: int| 0 <= i < times.len() ==> now_ms >= (#[trigger] times[i]) + 60_000 {
        old_requests_go(times, now_ms);
        assert(recent(times, now_ms) =~= Seq::<u64>::empty());
        assert(recent(times, now_ms).push(now_ms) =~= seq![now_ms]);
    }
}

/// A connection is used again for five minutes, and then taken down anew.
pub proof fn connections_are_used_for_five_minutes(
    pool: &mut ConnectionPool,
    host: &str,
    port: u16,
    kind: &str,
    now_ms: u64,
    key: String,
)
    requires
        call_ensures(ConnectionPool::get_pooled_connection, (pool, host, port, kind, now_ms), key),
    ensures
        final(pool).connections@.dom().contains(key@),
        ({
            let before = old(pool).connections@;
            let after = final(pool).connections@[key@];
            &&& !before.dom().contains(key@) ==> after.last_used_ms == now_ms && after.port == port
                && after.host@ == host@
            &&& before.dom().contains(key@) && before[key@].last_used_ms <= now_ms
                < before[key@].last_used_ms + 300_000 ==> after == before[key@]
            &&& before.dom().contains(key@) && now_ms >= before[key@].last_used_ms + 300_000
                ==> after.last_used_ms == now_ms
        }),
{
}

/// The answer that was just given goes before the cached one; where neither is young enough the
/// device is asked.
pub proof fn known_answers_are_preferred(
    dedup: &AnswerStore,
    cache: &AnswerStore,
    key: &Option<String>,
    cache_key: &str,
    now_ms: u64,
    just: Seq<char>,
    cached: Seq<char>,
    a: u64,
    b: u64,
    r: Option<Json>,
)
    requires
        call_ensures(known_answer, (dedup, cache, key, cache_key, now_ms), r),
        cache.stored().dom().contains(cache_key@),
        cache.stored()[cache_key@] == (cached, b),
    ensures
        *key is None && b <= now_ms < b + 30_000 ==> (json::json_of_text(cached) matches Ok(v)
            ==> r is Some
            && (r->0)@ == v),
        *key is None && now_ms >= b + 30_000 ==> r is None,
        *key matches Some(k) ==> dedup.stored().dom().contains(k@)
            && dedup.stored()[k@] == (just, a)
            && a <= now_ms < a + 5_000 ==> (json::json_of_text(just) matches Ok(v) ==> r is Some
                && (
        r->0)@ == v),
        *key matches Some(k) ==> dedup.stored().dom().contains(k@)
            && dedup.stored()[k@] == (just, a)
            && now_ms >= a + 5_000 && b <= now_ms < b + 30_000
                ==> (json::json_of_text(cached) matches Ok(
            v,
        ) ==> r is Some && (r->0)@ == v),
{
}

/// Devices of different kinds or addresses have different keys, if neither kind has a colon.
pub proof fn devices_have_keys_of_their_own(
    kind: &str,
    ip: &str,
    other_kind: &str,
    other_ip: &str,
    a: String,
    b: String,
)
    requires
        !kind@.contains(':'),
        !other_kind@.contains(':'),
        call_ensures(device_key, (kind, ip), a),
        call_ensures(device_key, (other_kind, other_ip), b),
    ensures
        a@ == b@ ==> kind@ == other_kind@ && ip@ == other_ip@,
{
    reveal_strlit(":");
    if a@ == b@ {
        let k = kind@.len() as int;
        let m = other_kind@.len() as int;
        assert(a@[k] == ':' && b@[m] == ':');
        if k < m {
            assert(b@[k] == other_kind@[k]);
        } else if m < k {
            assert(a@[m] == kind@[m]);
        }
        assert(a@.take(k) =~= kind@);
        assert(b@.take(k) =~= other_kind@);
        assert(a@.skip(k + 1) =~= ip@);
        assert(b@.skip(k + 1) =~= other_ip@);
    }
}

/// An answer is looked for under the kind, the address, the community and the port: two devices
/// of one kind at different ports do not share answers.
pub proof fn answers_are_not_shared(
    kind: &str,
    ip: &str,
    community: &Option<String>,
    p: u16,
    q: u16,
    a: String,
    b: String,
)
    requires
        p != q,
        call_ensures(snmp_cache_key, (kind, ip, community, Some(p)), a),
        call_ensures(snmp_cache_key, (kind, ip, community, Some(q)), b),
    ensures
        a@ != b@,
        text::begins(a@, kind@ + ":"@ + ip@),
        text::ends(a@, numerals::dec(p as nat)),
{
    numerals::decimals_are_told_apart(p as int, q as int);
    let lead = kind@ + ":"@ + ip@ + ":"@ + (match community {
        Some(c) => c@,
        None => "public"@,
    }) + ":"@;
    assert(a@.skip(lead.len() as int) =~= numerals::dec(p as nat));
    assert(b@.skip(lead.len() as int) =~= numerals::dec(q as nat));
    let start = kind@ + ":"@ + ip@;
    assert(a@.take(start.len() as int) =~= start);
}

/// An error carries the name of its category in brackets before the message.
pub proof fn errors_carry_their_category(
    category: ErrorCategory,
    message: &str,
    name: &'static str,
    r: String,
)
    requires
        call_ensures(ErrorCategory::as_str, (&category,), name),
        call_ensures(categorized, (category, message), r),
    ensures
        r@ == "["@ + name@ + "] "@ + message@,
        category is DeviceOffline ==> name@ == "DEVICE_OFFLINE"@,
        category is ConnectionTimeout ==> name@ == "CONNECTION_TIMEOUT"@,
        category is InvalidResponse ==> name@ == "INVALID_RESPONSE"@,
        category is AuthenticationFailed ==> name@ == "AUTH_FAILED"@,
        category is ConfigurationError ==> name@ == "CONFIG_ERROR"@,
        category is InternalError ==> name@ == "INTERNAL_ERROR"@,
{
}

} // verus!

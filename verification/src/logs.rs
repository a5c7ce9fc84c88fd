//! Log entries: how they are cleaned, how long they are kept, in what order they are shown;
//! and the history of configuration backups.

use std::collections::hash_map::DefaultHasher;
use std::hash::Hasher;

use vstd::prelude::*;
use vstd::std_specs::hash::DefaultHasherAdditionalSpecFns;
use vstd::string::*;
use vstd::utf8::*;

use crate::json;
use crate::json::{Json, JsonV};
use crate::numerals;
use crate::text;

verus! {

pub const LOG_RETENTION_DAYS: u64 = 90;

pub const LOG_RETENTION_MS: u64 = 7_776_000_000;

pub const LOG_PRUNE_INTERVAL_MS: u64 = 43_200_000;

pub const LOG_ROTATION_SIZE_BYTES: u64 = 52_428_800;

pub const LOG_COMPRESSION_THRESHOLD_MS: u64 = 604_800_000;

/// An entry of a log.
#[derive(Debug, PartialEq)]
pub struct AppLogEntry {
    pub timestamp_ms: u64,
    pub level: String,
    pub message: String,
}

/// The mathematical value of an [`AppLogEntry`].
pub struct LogV {
    pub timestamp_ms: u64,
    pub level: Seq<char>,
    pub message: Seq<char>,
}

impl View for AppLogEntry {
    type V = LogV;

    open spec fn view(&self) -> LogV {
        LogV { timestamp_ms: self.timestamp_ms, level: self.level@, message: self.message@ }
    }
}

pub open spec fn entries(list: Seq<AppLogEntry>) -> Seq<LogV> {
    Seq::new(list.len(), |i: int| list[i]@)
}

impl AppLogEntry {
    /// A copy of an entry.
    pub fn duplicate(&self) -> (r: AppLogEntry)
        ensures
            r@ == self@,
    {
        AppLogEntry {
            timestamp_ms: self.timestamp_ms,
            level: self.level.clone(),
            message: self.message.clone(),
        }
    }
}

// ---------------------------------------------------------------------------
// Writing
// ---------------------------------------------------------------------------

/// A message on one line.
pub open spec fn one_line(message: Seq<char>) -> Seq<char> {
    text::replaced(text::replaced(message, '\n', " "@), '\r', " "@)
}

/// The entry that is written for a message: its level is error or info, and it takes one line.
pub fn clean_entry(level: &str, message: &str, timestamp_ms: u64) -> (r: AppLogEntry)
    ensures
        r@ == (LogV {
            timestamp_ms,
            level: if text::alike(level@, "error"@) {
                "error"@
            } else {
                "info"@
            },
            message: one_line(message@),
        }),
{
    let clean_level = if text::eq_ignore_ascii_case(level, "error") {
        "error"
    } else {
        "info"
    };
    let no_feed = text::replace(message, '\n', " ");
    AppLogEntry {
        timestamp_ms,
        level: clean_level.to_owned(),
        message: text::replace(no_feed.as_str(), '\r', " "),
    }
}

/// Whether an entry also goes to the log of errors.
pub fn goes_to_error_log(entry: &AppLogEntry) -> (r: bool)
    ensures
        r == (entry@.level == "error"@),
{
    text::same(entry.level.as_str(), "error")
}

proof fn replaced_has_none(s: Seq<char>, from: char, to: Seq<char>, c: char)
    requires
        !to.contains(c),
        c == from || !s.contains(c),
    ensures
        !text::replaced(s, from, to).contains(c),
    decreases s.len(),
{
    if s.len() > 0 {
        let front = s.drop_last();
        if c != from {
            if front.contains(c) {
                let i = choose|i: int| 0 <= i < front.len() && front[i] == c;
                assert(s[i] == c);
            }
            assert(s.last() == s[s.len() - 1]);
        }
        replaced_has_none(front, from, to, c);
        let before = text::replaced(front, from, to);
        let now = text::replaced(s, from, to);
        if now.contains(c) {
            let i = choose|i: int| 0 <= i < now.len() && now[i] == c;
            if i < before.len() {
                assert(before[i] == c);
            } else if s.last() == from {
                assert(to[i - before.len()] == c);
            } else {
                assert(now[i] == s.last());
            }
        }
    }
}

/// A message that is written takes one line: it holds no end of a line.
pub proof fn written_messages_take_one_line(message: Seq<char>)
    ensures
        !one_line(message).contains('\n'),
        !one_line(message).contains('\r'),
{
    reveal_strlit(" ");
    let no_feed = text::replaced(message, '\n', " "@);
    replaced_has_none(message, '\n', " "@, '\n');
    replaced_has_none(no_feed, '\r', " "@, '\n');
    replaced_has_none(no_feed, '\r', " "@, '\r');
}

/// The text that is logged of a panic.
pub fn panic_message(payload: &Option<String>, location: &Option<String>) -> (r: String)
    ensures
        r@ == "PANIC: "@ + (match payload {
            Some(p) => p@,
            None => "Unbekannter Panic-Fehler"@,
        }) + " @ "@ + (match location {
            Some(l) => l@,
            None => "unbekannter Ort"@,
        }),
{
    let what = match payload {
        Some(p) => p.clone(),
        None => "Unbekannter Panic-Fehler".to_owned(),
    };
    let place = match location {
        Some(l) => l.clone(),
        None => "unbekannter Ort".to_owned(),
    };
    let mut s = text::glue3("PANIC: ", what.as_str(), " @ ");
    s.append(place.as_str());
    s
}

// ---------------------------------------------------------------------------
// Keeping
// ---------------------------------------------------------------------------

/// The time before which entries are dropped.
pub open spec fn cutoff_of(now_ms: u64) -> u64 {
    if now_ms >= LOG_RETENTION_MS {
        (now_ms - LOG_RETENTION_MS) as u64
    } else {
        0
    }
}

/// The timestamp before which entries are dropped.
pub fn cutoff_timestamp_ms(now_ms: u64) -> (r: u64)
    ensures
        r == cutoff_of(now_ms),
{
    now_ms.saturating_sub(LOG_RETENTION_MS)
}

/// The entries that are not older than a timestamp, in their order.
pub open spec fn kept(list: Seq<LogV>, cutoff: u64) -> Seq<LogV>
    decreases list.len(),
{
    if list.len() == 0 {
        Seq::empty()
    } else {
        let before = kept(list.drop_last(), cutoff);
        if list.last().timestamp_ms >= cutoff {
            before.push(list.last())
        } else {
            before
        }
    }
}

/// Drops the entries that are older than a timestamp.
pub fn keep_recent(list: &Vec<AppLogEntry>, cutoff: u64) -> (r: Vec<AppLogEntry>)
    ensures
        entries(r@) == kept(entries(list@), cutoff),
{
    let ghost all = entries(list@);
    let mut out: Vec<AppLogEntry> = Vec::new();
    let mut i: usize = 0;
    proof {
        assert(entries(out@) =~= kept(all.take(0), cutoff));
    }
    while i < list.len()
        invariant
            i <= list@.len(),
            all == entries(list@),
            entries(out@) == kept(all.take(i as int), cutoff),
        decreases list@.len() - i,
    {
        proof {
            assert(all.take(i + 1).drop_last() =~= all.take(i as int));
            assert(all.take(i + 1).last() == list@[i as int]@);
        }
        if list[i].timestamp_ms >= cutoff {
            let ghost before = out@;
            out.push(list[i].duplicate());
            proof {
                assert(entries(out@) =~= entries(before).push(list@[i as int]@));
            }
        }
        i += 1;
    }
    proof {
        assert(all.take(i as int) =~= all);
    }
    out
}

/// What is kept is recent, and nothing recent is dropped.
pub proof fn keeping_is_exact(list: Seq<LogV>, cutoff: u64, e: LogV)
    ensures
        kept(list, cutoff).contains(e) <==> list.contains(e) && e.timestamp_ms >= cutoff,
    decreases list.len(),
{
    if list.len() > 0 {
        let front = list.drop_last();
        keeping_is_exact(front, cutoff, e);
        let before = kept(front, cutoff);
        let now = kept(list, cutoff);
        assert(list.last() == list[list.len() - 1]);
        if list.contains(e) {
            let i = choose|i: int| 0 <= i < list.len() && list[i] == e;
            if i < front.len() {
                assert(front[i] == e);
                assert(front.contains(e));
            }
        }
        if front.contains(e) {
            let i = choose|i: int| 0 <= i < front.len() && front[i] == e;
            assert(list[i] == e);
        }
        if before.contains(e) {
            let i = choose|i: int| 0 <= i < before.len() && before[i] == e;
            assert(now[i] == e);
        }
        if list.last().timestamp_ms >= cutoff {
            assert(now[before.len() as int] == list.last());
            if now.contains(e) {
                let i = choose|i: int| 0 <= i < now.len() && now[i] == e;
                if i < before.len() {
                    assert(before[i] == e);
                }
            }
        }
    }
}

/// Entries are kept for ninety days.
pub proof fn entries_are_kept_for_ninety_days(list: Seq<LogV>, now_ms: u64, e: LogV)
    requires
        list.contains(e),
    ensures
        kept(list, cutoff_of(now_ms)).contains(e) <==> now_ms <= e.timestamp_ms
            + LOG_RETENTION_DAYS * 24 * 60 * 60 * 1000,
{
    keeping_is_exact(list, cutoff_of(now_ms), e);
}

/// When old entries were dropped last.
pub struct PruneGate {
    pub last_ms: u64,
}

impl PruneGate {
    pub fn new() -> (r: Self)
        ensures
            r.last_ms == 0,
    {
        PruneGate { last_ms: 0 }
    }

    /// Whether old entries are to be dropped now: every twelve hours at most.
    pub fn due(&mut self, now_ms: u64) -> (r: bool)
        ensures
            r == (now_ms >= old(self).last_ms && now_ms - old(self).last_ms
                >= LOG_PRUNE_INTERVAL_MS),
            final(self).last_ms == if r {
                now_ms
            } else {
                old(self).last_ms
            },
    {
        if now_ms.saturating_sub(self.last_ms) >= LOG_PRUNE_INTERVAL_MS {
            self.last_ms = now_ms;
            return true;
        }
        false
    }
}

/// Whether a log has grown so large that a new one is begun.
pub fn needs_rotation(size_bytes: u64) -> (r: bool)
    ensures
        r == (size_bytes > LOG_ROTATION_SIZE_BYTES),
{
    size_bytes > LOG_ROTATION_SIZE_BYTES
}

/// The name under which a full log is kept.
pub fn rotated_name(log_file: &str, stamp: &str) -> (r: String)
    ensures
        r@ == log_file@ + "."@ + stamp@,
{
    text::glue3(log_file, ".", stamp)
}

/// Whether a file is a log that is to be compressed: one with the extension `log` that has not
/// changed for seven days.
pub open spec fn is_compressed(extension: Option<Seq<char>>, path: Seq<char>, age_cutoff: int, changed: u64) -> bool {
    extension == Some("log"@) && changed < age_cutoff && !text::ends(path, ".gz"@)
}

pub fn should_compress(extension: &Option<String>, path: &str, now_ms: u64, changed_ms: u64) -> (r:
    bool)
    ensures
        r == is_compressed(
            text::view_option(*extension),
            path@,
            if now_ms >= LOG_COMPRESSION_THRESHOLD_MS {
                now_ms - LOG_COMPRESSION_THRESHOLD_MS
            } else {
                0
            },
            changed_ms,
        ),
{
    let log = match extension {
        Some(e) => text::same(e.as_str(), "log"),
        None => false,
    };
    log && changed_ms < now_ms.saturating_sub(LOG_COMPRESSION_THRESHOLD_MS) && !text::ends_with(
        path,
        ".gz",
    )
}

/// The name of a compressed log.
pub fn compressed_name(path: &str) -> (r: String)
    ensures
        r@ == path@ + ".gz"@,
{
    text::glue(path, ".gz")
}

// ---------------------------------------------------------------------------
// Showing
// ---------------------------------------------------------------------------

/// A list in which the newest entry comes first, with one more entry: it goes behind all that
/// are not older.
pub open spec fn with_entry(list: Seq<LogV>, e: LogV) -> Seq<LogV>
    decreases list.len(),
{
    if list.len() > 0 && list[0].timestamp_ms >= e.timestamp_ms {
        seq![list[0]] + with_entry(list.skip(1), e)
    } else {
        seq![e] + list
    }
}

/// The entries with the newest first; those of one time in their order.
pub open spec fn newest_first(list: Seq<LogV>) -> Seq<LogV>
    decreases list.len(),
{
    if list.len() == 0 {
        Seq::empty()
    } else {
        with_entry(newest_first(list.drop_last()), list.last())
    }
}

/// The newest `max` entries, the newest first.
pub open spec fn shown(list: Seq<LogV>, max: nat) -> Seq<LogV> {
    let sorted = newest_first(list);
    if sorted.len() > max {
        sorted.take(max as int)
    } else {
        sorted
    }
}

/// The entries from the last to the first.
pub open spec fn backwards(list: Seq<AppLogEntry>) -> Seq<LogV> {
    Seq::new(list.len(), |i: int| list[list.len() - 1 - i]@)
}

fn add_entry(asc: &mut Vec<AppLogEntry>, e: AppLogEntry)
    ensures
        backwards(final(asc)@) == with_entry(backwards(old(asc)@), e@),
{
    let ghost start = asc@;
    let mut k: usize = asc.len();
    proof {
        assert(start.take(k as int) =~= start);
        assert(backwards(start.skip(k as int)) =~= Seq::<LogV>::empty());
        assert(Seq::<LogV>::empty() + with_entry(backwards(start), e@) =~= with_entry(
            backwards(start),
            e@,
        ));
    }
    while k > 0 && asc[k - 1].timestamp_ms >= e.timestamp_ms
        invariant
            k <= start.len(),
            asc@ == start,
            with_entry(backwards(start), e@) == backwards(start.skip(k as int)) + with_entry(
                backwards(start.take(k as int)),
                e@,
            ),
        decreases k,
    {
        proof {
            let head = backwards(start.take(k as int));
            let rest = backwards(start.take(k - 1));
            assert(head[0] == start[k - 1]@);
            assert(head.skip(1) =~= rest);
            assert(backwards(start.skip(k - 1)) =~= backwards(start.skip(k as int)) + seq![
                start[k - 1]@,
            ]);
            assert(backwards(start.skip(k - 1)) + with_entry(rest, e@) =~= backwards(
                start.skip(k as int),
            ) + (seq![start[k - 1]@] + with_entry(rest, e@)));
        }
        k -= 1;
    }
    asc.insert(k, e);
    proof {
        let head = backwards(start.take(k as int));
        assert(k > 0 ==> head[0] == start[k - 1]@);
        assert(backwards(asc@) =~= backwards(start.skip(k as int)) + (seq![e@] + head));
    }
}

/// Puts the newest entries first and keeps as many as are wanted, 2000 where nothing is said.
pub fn sort_and_limit(list: &Vec<AppLogEntry>, limit: Option<usize>) -> (r: Vec<AppLogEntry>)
    ensures
        entries(r@) == shown(
            entries(list@),
            match limit {
                Some(n) => n as nat,
                None => 2000,
            },
        ),
{
    let ghost all = entries(list@);
    let mut asc: Vec<AppLogEntry> = Vec::new();
    let mut i: usize = 0;
    proof {
        assert(backwards(asc@) =~= newest_first(all.take(0)));
    }
    while i < list.len()
        invariant
            i <= list@.len(),
            all == entries(list@),
            backwards(asc@) == newest_first(all.take(i as int)),
        decreases list@.len() - i,
    {
        proof {
            assert(all.take(i + 1).drop_last() =~= all.take(i as int));
            assert(all.take(i + 1).last() == list@[i as int]@);
        }
        add_entry(&mut asc, list[i].duplicate());
        i += 1;
    }
    proof {
        assert(all.take(i as int) =~= all);
    }
    let max: usize = match limit {
        Some(n) => n,
        None => 2000,
    };
    let n = asc.len();
    let count: usize = if n > max {
        max
    } else {
        n
    };
    let mut out: Vec<AppLogEntry> = Vec::new();
    let mut k: usize = 0;
    while k < count
        invariant
            k <= count <= n,
            n == asc@.len(),
            out@.len() == k,
            forall|j: int| 0 <= j < k ==> (#[trigger] out@[j])@ == backwards(asc@)[j],
        decreases count - k,
    {
        out.push(asc[n - 1 - k].duplicate());
        k += 1;
    }
    proof {
        assert(entries(out@) =~= shown(all, max as nat));
    }
    out
}

/// Whether the newest entries come first.
pub open spec fn in_order(list: Seq<LogV>) -> bool {
    forall|i: int, j: int|
        0 <= i < j < list.len() ==> (#[trigger] list[i]).timestamp_ms >= (
        #[trigger] list[j]).timestamp_ms
}

proof fn with_entry_sorted(list: Seq<LogV>, e: LogV)
    requires
        in_order(list),
    ensures
        in_order(with_entry(list, e)),
        with_entry(list, e).to_multiset() == list.to_multiset().insert(e),
        with_entry(list, e).len() == list.len() + 1,
    decreases list.len(),
{
    vstd::seq_lib::lemma_multiset_commutative(seq![e], list);
    assert(seq![e].to_multiset() =~= vstd::multiset::Multiset::<LogV>::singleton(e)) by {
        seq![e].to_multiset_ensures();
        assert(seq![e] =~= Seq::<LogV>::empty().push(e));
        Seq::<LogV>::empty().to_multiset_ensures();
    }
    if list.len() > 0 && list[0].timestamp_ms >= e.timestamp_ms {
        let rest = list.skip(1);
        let first = list[0];
        assert forall|i: int, j: int| 0 <= i < j < rest.len() implies (
        #[trigger] rest[i]).timestamp_ms >= (#[trigger] rest[j]).timestamp_ms by {
            assert(rest[i] == list[i + 1]);
            assert(rest[j] == list[j + 1]);
        }
        with_entry_sorted(rest, e);
        let tail = with_entry(rest, e);
        let now = seq![first] + tail;
        vstd::seq_lib::lemma_multiset_commutative(seq![first], tail);
        vstd::seq_lib::lemma_multiset_commutative(seq![first], rest);
        assert(seq![first] + rest =~= list);
        assert(now.to_multiset() =~= list.to_multiset().insert(e));
        assert forall|j: int| 0 <= j < tail.len() implies first.timestamp_ms >= (
        #[trigger] tail[j]).timestamp_ms by {
            tail.to_multiset_ensures();
            rest.to_multiset_ensures();
            assert(tail.to_multiset().count(tail[j]) > 0);
            if tail[j] != e {
                assert(rest.to_multiset().count(tail[j]) > 0);
                let k = choose|k: int| 0 <= k < rest.len() && rest[k] == tail[j];
                assert(rest[k] == list[k + 1]);
                assert(list[0].timestamp_ms >= list[k + 1].timestamp_ms);
            }
        }
        assert forall|i: int, j: int| 0 <= i < j < now.len() implies (
        #[trigger] now[i]).timestamp_ms >= (#[trigger] now[j]).timestamp_ms by {
            assert(now[j] == tail[j - 1]);
            if i > 0 {
                assert(now[i] == tail[i - 1]);
            }
        }
    } else {
        let now = seq![e] + list;
        assert(now.to_multiset() =~= list.to_multiset().insert(e));
        assert forall|i: int, j: int| 0 <= i < j < now.len() implies (
        #[trigger] now[i]).timestamp_ms >= (#[trigger] now[j]).timestamp_ms by {
            assert(now[j] == list[j - 1]);
            if i > 0 {
                assert(now[i] == list[i - 1]);
            } else if j > 1 {
                assert(list[0].timestamp_ms >= list[j - 1].timestamp_ms);
            }
        }
    }
}

/// Showing the newest first loses no entry, adds none, and puts none before a newer one.
pub proof fn newest_first_sorts(list: Seq<LogV>)
    ensures
        in_order(newest_first(list)),
        newest_first(list).to_multiset() == list.to_multiset(),
    decreases list.len(),
{
    if list.len() > 0 {
        let front = list.drop_last();
        newest_first_sorts(front);
        with_entry_sorted(newest_first(front), list.last());
        front.to_multiset_ensures();
        assert(front.push(list.last()) =~= list);
    } else {
        assert(newest_first(list) =~= list);
    }
}

/// An entry as JSON.
pub open spec fn entry_json(e: LogV) -> JsonV {
    JsonV::Object(
        Map::<Seq<char>, JsonV>::empty().insert(
            "timestamp_ms"@,
            JsonV::Unsigned(e.timestamp_ms),
        ).insert("level"@, JsonV::Text(e.level)).insert("message"@, JsonV::Text(e.message)),
    )
}

pub open spec fn entries_json(list: Seq<LogV>) -> JsonV {
    JsonV::List(Seq::new(list.len(), |i: int| entry_json(list[i])))
}

fn list_json(list: &Vec<AppLogEntry>) -> (r: Json)
    ensures
        r@ == entries_json(entries(list@)),
{
    let mut out: Vec<Json> = Vec::new();
    let mut i: usize = 0;
    while i < list.len()
        invariant
            i <= list@.len(),
            out@.len() == i,
            forall|j: int| 0 <= j < i ==> (#[trigger] out@[j])@ == entry_json(list@[j]@),
        decreases list@.len() - i,
    {
        let mut m = json::empty_object();
        json::put(&mut m, "timestamp_ms", Json::Unsigned(list[i].timestamp_ms));
        json::put(&mut m, "level", json::text(list[i].level.as_str()));
        json::put(&mut m, "message", json::text(list[i].message.as_str()));
        out.push(Json::Object(m));
        i += 1;
    }
    proof {
        json::list_view_index(out@);
        assert(json::list_view(out@) =~= Seq::new(
            entries(list@).len(),
            |j: int| entry_json(entries(list@)[j]),
        ));
    }
    Json::List(out)
}

/// The two logs as they are shown.
pub fn logs_response(
    system: &Vec<AppLogEntry>,
    errors: &Vec<AppLogEntry>,
    limit: Option<usize>,
) -> (r: Json)
    ensures
        r@ == ({
            let max = match limit {
                Some(n) => n as nat,
                None => 2000,
            };
            JsonV::Object(
                Map::<Seq<char>, JsonV>::empty().insert(
                    "system"@,
                    entries_json(shown(entries(system@), max)),
                ).insert("errors"@, entries_json(shown(entries(errors@), max))),
            )
        }),
{
    let mut m = json::empty_object();
    json::put(&mut m, "system", list_json(&sort_and_limit(system, limit)));
    json::put(&mut m, "errors", list_json(&sort_and_limit(errors, limit)));
    Json::Object(m)
}

// ---------------------------------------------------------------------------
// Configuration backups
// ---------------------------------------------------------------------------

/// A backup of the configuration.
pub struct ConfigVersion {
    pub timestamp_ms: u64,
    pub version_num: u32,
    pub hash: String,
    pub backup_path: String,
}

/// The backups of this run, the oldest first; at most fifty are remembered.
pub struct ConfigVersions {
    pub list: Vec<ConfigVersion>,
}

impl ConfigVersions {
    /// At most fifty backups are remembered.
    pub open spec fn wf(&self) -> bool {
        self.list@.len() <= 50
    }

    pub fn new() -> (r: Self)
        ensures
            r.wf(),
            r.list@.len() == 0,
    {
        ConfigVersions { list: Vec::new() }
    }

    /// Whether a configuration differs from the last one that was backed up.
    pub fn is_new(&self, hash: &str) -> (r: bool)
        ensures
            r == (self.list@.len() == 0 || self.list@.last().hash@ != hash@),
    {
        let n = self.list.len();
        if n == 0 {
            return true;
        }
        !text::same(self.list[n - 1].hash.as_str(), hash)
    }

    /// The number of the next backup.
    pub fn next_number(&self) -> (r: u32)
        requires
            self.wf(),
        ensures
            r == self.list@.len() + 1,
    {
        self.list.len() as u32 + 1
    }

    /// Remembers a backup; of more than fifty the oldest is forgotten.
    pub fn record(&mut self, version: ConfigVersion)
        requires
            old(self).wf(),
        ensures
            final(self).wf(),
            final(self).list@ == if old(self).list@.len() == 50 {
                old(self).list@.push(version).skip(1)
            } else {
                old(self).list@.push(version)
            },
    {
        self.list.push(version);
        if self.list.len() > 50 {
            let ghost full = self.list@;
            self.list.remove(0);
            proof {
                assert(self.list@ =~= full.skip(1));
            }
        }
    }
}

/// The mark by which configurations are compared: a hash value in hexadecimal.
pub fn hash_mark(hash: u64) -> (r: String)
    ensures
        r@ == numerals::hex_lower(hash as nat),
{
    numerals::hex_u64(hash)
}

/// The hash value of a text: that of its bytes and of the byte that ends every text.
pub open spec fn text_hash(content: Seq<char>) -> u64 {
    DefaultHasher::spec_finish(seq![encode_utf8(content), seq![0xffu8]])
}

/// The mark of a configuration, by its text.
pub fn content_mark(content: &str) -> (r: String)
    ensures
        r@ == numerals::hex_lower(text_hash(content@) as nat),
{
    let bytes = numerals::bytes_of(content);
    let end: Vec<u8> = vec![0xff];
    let mut hasher = DefaultHasher::new();
    hasher.write(bytes.as_slice());
    hasher.write(end.as_slice());
    proof {
        assert(end@ =~= seq![0xffu8]);
        assert(hasher@ =~= seq![encode_utf8(content@), seq![0xffu8]]);
    }
    hash_mark(hasher.finish())
}

/// The name of the file of a backup.
pub fn backup_name(version_num: u32, stamp: &str) -> (r: String)
    ensures
        r@ == "config.v"@ + numerals::dec(version_num as nat) + "."@ + stamp@ + ".json"@,
{
    let mut s = text::glue3("config.v", numerals::dec_u64(version_num as u64).as_str(), ".");
    s.append(stamp);
    s.append(".json");
    s
}

// ---------------------------------------------------------------------------
// What the log keeps
// ---------------------------------------------------------------------------

/// An entry that is written has the level error or info, and only errors have the first; its
/// message is the given one with each end of a line made a blank; and it goes to the log of
/// errors where it is one.
pub proof fn written_entries_are_clean(
    level: &str,
    message: &str,
    timestamp_ms: u64,
    i: int,
    entry: AppLogEntry,
    error: bool,
)
    requires
        call_ensures(clean_entry, (level, message, timestamp_ms), entry),
        call_ensures(goes_to_error_log, (&entry,), error),
    ensures
        entry.timestamp_ms == timestamp_ms,
        error <==> text::alike(level@, "error"@),
        error ==> entry.level@ == "error"@,
        !error ==> entry.level@ == "info"@,
        entry.message@.len() == message@.len(),
        0 <= i < message@.len() ==> entry.message@[i] == (if message@[i] == '\n'
            || message@[i] == '\r' {
            ' '
        } else {
            message@[i]
        }),
{
    reveal_strlit("error");
    reveal_strlit("info");
    reveal_strlit(" ");
    assert("error"@.len() == 5 && "info"@.len() == 4);
    let no_feed = text::replaced(message@, '\n', " "@);
    one_for_one(message@, '\n', " "@, i);
    one_for_one(no_feed, '\r', " "@, i);
}

proof fn one_for_one(s: Seq<char>, from: char, to: Seq<char>, i: int)
    requires
        to.len() == 1,
    ensures
        text::replaced(s, from, to).len() == s.len(),
        0 <= i < s.len() ==> text::replaced(s, from, to)[i] == (if s[i] == from {
            to[0]
        } else {
            s[i]
        }),
    decreases s.len(),
{
    if s.len() > 0 {
        one_for_one(s.drop_last(), from, to, i);
        let before = text::replaced(s.drop_last(), from, to);
        let now = text::replaced(s, from, to);
        assert(before.len() == s.len() - 1);
        if i == s.len() - 1 {
            assert(s.last() == s[i]);
            assert(now[i] == (if s[i] == from {
                to[0]
            } else {
                s[i]
            }));
        } else if 0 <= i < s.len() - 1 {
            assert(s.drop_last()[i] == s[i]);
            assert(now[i] == before[i]);
        }
    }
}

/// Entries are dropped where they are more than ninety days old, and only there.
pub proof fn the_cutoff_is_ninety_days_back(now_ms: u64, r: u64)
    requires
        call_ensures(cutoff_timestamp_ms, (now_ms,), r),
    ensures
        now_ms >= 90 * 24 * 3600 * 1000 ==> now_ms - r == 90 * 24 * 3600 * 1000,
        now_ms < 90 * 24 * 3600 * 1000 ==> r == 0,
{
}

/// Old entries are looked for at most every twelve hours, and then again only after twelve more.
pub proof fn pruning_waits_twelve_hours(gate: &mut PruneGate, now_ms: u64, r: bool)
    requires
        call_ensures(PruneGate::due, (gate, now_ms), r),
    ensures
        r <==> now_ms >= old(gate).last_ms + 12 * 3600 * 1000,
        r ==> final(gate).last_ms == now_ms,
        !r ==> final(gate).last_ms == old(gate).last_ms,
{
}

/// A new log is begun where the old one is larger than fifty mebibytes.
pub proof fn logs_grow_to_fifty_mebibytes(size_bytes: u64, r: bool)
    requires
        call_ensures(needs_rotation, (size_bytes,), r),
    ensures
        r <==> size_bytes > 50 * 1024 * 1024,
{
}

/// A log that has not changed for more than seven days is compressed, once, and nothing else is.
pub proof fn logs_are_compressed_after_a_week(
    extension: &Option<String>,
    path: &str,
    now_ms: u64,
    changed_ms: u64,
    name: String,
    r: bool,
)
    requires
        call_ensures(should_compress, (extension, path, now_ms, changed_ms), r),
        call_ensures(compressed_name, (path,), name),
    ensures
        r ==> *extension is Some && (extension->0)@ == "log"@ && now_ms > changed_ms + 7 * 24 * 3600
            * 1000,
        *extension is Some && (extension->0)@ == "log"@
            && now_ms > changed_ms + 7 * 24 * 3600 * 1000
            && !text::ends(path@, ".gz"@) ==> r,
        text::ends(name@, ".gz"@),
        text::begins(name@, path@),
{
    assert(name@.skip(name@.len() - ".gz"@.len()) =~= ".gz"@);
    assert(name@.take(path@.len() as int) =~= path@);
}

/// At most as many entries are shown as are wanted, 2000 where nothing is said; the newest come
/// first; and where there are no more than that, none is left out.
pub proof fn the_newest_entries_are_shown(
    list: &Vec<AppLogEntry>,
    limit: Option<usize>,
    i: int,
    j: int,
    r: Vec<AppLogEntry>,
)
    requires
        call_ensures(sort_and_limit, (list, limit), r),
    ensures
        limit matches Some(n) ==> r@.len() <= n,
        limit is None ==> r@.len() <= 2000,
        r@.len() <= list@.len(),
        limit matches Some(n) ==> n >= list@.len() ==> r@.len() == list@.len(),
        limit matches Some(n) ==> n < list@.len() ==> r@.len() == n,
        0 <= i < j < r@.len() ==> r@[i].timestamp_ms >= r@[j].timestamp_ms,
{
    let all = entries(list@);
    let sorted = newest_first(all);
    newest_first_sorts(all);
    sorted.to_multiset_ensures();
    all.to_multiset_ensures();
    assert(entries(r@).len() == r@.len());
    if 0 <= i < j < r@.len() {
        assert(entries(r@)[i] == r@[i]@ && entries(r@)[j] == r@[j]@);
        assert(sorted[i] == entries(r@)[i] && sorted[j] == entries(r@)[j]);
    }
}

/// A configuration is backed up where it differs from the last one that was, and the last one is
/// not backed up again; of fifty backups the oldest is forgotten.
pub proof fn changes_are_backed_up(
    versions: &mut ConfigVersions,
    version: ConfigVersion,
    after: &ConfigVersions,
    mark: &str,
    recorded: (),
    is_new: bool,
)
    requires
        old(versions).wf(),
        call_ensures(ConfigVersions::record, (versions, version), recorded),
        *after == *final(versions),
        call_ensures(ConfigVersions::is_new, (after, mark), is_new),
    ensures
        is_new <==> mark@ != version.hash@,
        final(versions).list@.last() == version,
        old(versions).list@.len() < 50 ==> final(versions).list@.len() == old(versions).list@.len()
            + 1,
        old(versions).list@.len() == 50 ==> final(versions).list@.len() == 50
            && final(versions).list@[0] == old(versions).list@[1],
{
}

/// Entries older than the cutoff go, and no others, and the rest keep their order.
pub proof fn old_entries_go(list: Seq<LogV>, e: LogV, cutoff: u64)
    ensures
        e.timestamp_ms >= cutoff ==> kept(list.push(e), cutoff) == kept(list, cutoff).push(e),
        e.timestamp_ms < cutoff ==> kept(list.push(e), cutoff) == kept(list, cutoff),
        kept(Seq::empty(), cutoff).len() == 0,
{
    assert(list.push(e).drop_last() =~= list);
}

/// The answer lists the newest entries of both logs, each with its time, its level and its
/// message.
pub proof fn both_logs_are_answered(
    system: &Vec<AppLogEntry>,
    errors: &Vec<AppLogEntry>,
    limit: Option<usize>,
    a: Vec<AppLogEntry>,
    b: Vec<AppLogEntry>,
    i: int,
    r: Json,
)
    requires
        call_ensures(sort_and_limit, (system, limit), a),
        call_ensures(sort_and_limit, (errors, limit), b),
        call_ensures(logs_response, (system, errors, limit), r),
    ensures
        r@.get("system"@) is Some && r@.get("system"@)->0 is List,
        r@.get("errors"@) is Some && r@.get("errors"@)->0 is List,
        (r@.get("system"@)->0->List_0).len() == a@.len(),
        (r@.get("errors"@)->0->List_0).len() == b@.len(),
        0 <= i < a@.len() ==> (r@.get("system"@)->0->List_0)[i].get("message"@) == Some(
            JsonV::Text(a@[i].message@),
        ) && (r@.get("system"@)->0->List_0)[i].get("timestamp_ms"@) == Some(
            JsonV::Unsigned(a@[i].timestamp_ms),
        ) && (r@.get("system"@)->0->List_0)[i].get("level"@) == Some(JsonV::Text(a@[i].level@)),
        0 <= i < b@.len() ==> (r@.get("errors"@)->0->List_0)[i].get("message"@) == Some(
            JsonV::Text(b@[i].message@),
        ),
{
    reveal_strlit("system");
    reveal_strlit("errors");
    reveal_strlit("timestamp_ms");
    reveal_strlit("level");
    reveal_strlit("message");
    assert("system"@[0] == 's' && "errors"@[0] == 'e');
    assert("timestamp_ms"@.len() == 12 && "level"@.len() == 5 && "message"@.len() == 7);
    assert(entries(a@).len() == a@.len() && entries(b@).len() == b@.len());
    if 0 <= i < a@.len() {
        assert(entries(a@)[i] == a@[i]@);
        assert(entries_json(entries(a@))->List_0[i] == entry_json(a@[i]@));
    }
    if 0 <= i < b@.len() {
        assert(entries(b@)[i] == b@[i]@);
        assert(entries_json(entries(b@))->List_0[i] == entry_json(b@[i]@));
    }
}

/// A panic is logged with what is known of it and of its place.
pub proof fn panics_are_logged(what: String, place: String, known: String, unknown: String)
    requires
        call_ensures(panic_message, (&Some(what), &Some(place)), known),
        call_ensures(panic_message, (&None::<String>, &None::<String>), unknown),
    ensures
        known@ == "PANIC: "@ + what@ + " @ "@ + place@,
        text::begins(unknown@, "PANIC: "@),
{
    assert(unknown@.take("PANIC: "@.len() as int) =~= "PANIC: "@);
}

/// Backups of different versions have different names, and a log that is put away keeps its name
/// in front.
pub proof fn put_away_files_have_names_of_their_own(
    a: u32,
    b: u32,
    stamp: &str,
    file: &str,
    one: String,
    other: String,
    log: String,
)
    requires
        a != b,
        !stamp@.contains('.'),
        call_ensures(backup_name, (a, stamp), one),
        call_ensures(backup_name, (b, stamp), other),
        call_ensures(rotated_name, (file, stamp), log),
    ensures
        one@ != other@,
        text::ends(one@, ".json"@),
        text::begins(log@, file@) && text::ends(log@, stamp@),
{
    numerals::decimals_are_told_apart(a as int, b as int);
    let x = numerals::dec(a as nat);
    let y = numerals::dec(b as nat);
    let lead = "config.v"@;
    let tail = "."@ + stamp@ + ".json"@;
    let n = lead.len() as int;
    assert(one@.subrange(n, one@.len() - tail.len()) =~= x);
    assert(other@.subrange(n, other@.len() - tail.len()) =~= y);
    assert(one@.skip(one@.len() - ".json"@.len()) =~= ".json"@);
    assert(log@.take(file@.len() as int) =~= file@);
    assert(log@.skip(log@.len() - stamp@.len()) =~= stamp@);
}

} // verus!

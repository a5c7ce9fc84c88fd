//! The other devices that answer SNMP: the storage, the switch and the router.
//!
//! For each there is a list of objects to ask for, and a report that is put together from the
//! answers. An answer is the bytes that came, or nothing.

use vstd::prelude::*;
use vstd::string::*;

use crate::json;
use crate::json::{Json, JsonV};
use crate::numerals;
use crate::snmp;
use crate::strmap::StrMap;
use crate::text;
use crate::ups;

verus! {

/// The answers as mathematical values.
pub open spec fn answers(list: Seq<Option<Vec<u8>>>) -> Seq<Option<Seq<u8>>> {
    Seq::new(list.len(), |i: int| ups::view_bytes(list[i]))
}

/// The octet string in an answer.
pub open spec fn answer_octets(answer: Option<Seq<u8>>) -> Option<Seq<char>> {
    match answer {
        Some(bytes) => snmp::reply_text(bytes),
        None => None,
    }
}

/// What an answer says as text.
pub open spec fn answer_text(answer: Option<Seq<u8>>) -> Option<Seq<char>> {
    match answer {
        Some(bytes) => snmp::reply_as_text(bytes),
        None => None,
    }
}

pub open spec fn with_text(m: Map<Seq<char>, JsonV>, key: Seq<char>, s: Option<Seq<char>>) -> Map<
    Seq<char>,
    JsonV,
> {
    match s {
        Some(v) => m.insert(key, JsonV::Text(v)),
        None => m,
    }
}

pub open spec fn with_number(m: Map<Seq<char>, JsonV>, key: Seq<char>, n: Option<i64>) -> Map<
    Seq<char>,
    JsonV,
> {
    match n {
        Some(v) => m.insert(key, json::integer(v)),
        None => m,
    }
}

fn octets_in(answer: &Option<Vec<u8>>) -> (r: Option<String>)
    ensures
        text::view_option(r) == answer_octets(ups::view_bytes(*answer)),
{
    match answer {
        Some(bytes) => snmp::extract_snmp_octet_string(bytes.as_slice()),
        None => None,
    }
}

fn text_in(answer: &Option<Vec<u8>>) -> (r: Option<String>)
    ensures
        text::view_option(r) == answer_text(ups::view_bytes(*answer)),
{
    match answer {
        Some(bytes) => snmp::snmp_text(bytes.as_slice()),
        None => None,
    }
}

fn put_text(m: &mut StrMap<Json>, key: &str, s: Option<String>)
    ensures
        json::fields(*final(m)) == with_text(json::fields(*old(m)), key@, text::view_option(s)),
{
    if let Some(v) = s {
        json::put(m, key, Json::Text(v));
    }
}

fn put_number(m: &mut StrMap<Json>, key: &str, n: Option<i64>)
    ensures
        json::fields(*final(m)) == with_number(json::fields(*old(m)), key@, n),
{
    if let Some(v) = n {
        json::put(m, key, json::number(v));
    }
}

/// The community to ask with: the given one, or the usual one.
pub fn community_or_default(community: Option<String>) -> (r: String)
    ensures
        r@ == match community {
            Some(c) => c@,
            None => "projektil"@,
        },
{
    match community {
        Some(c) => c,
        None => "projektil".to_owned(),
    }
}

/// The port to ask at: the given one, or the usual one.
pub fn port_or_default(port: Option<u16>) -> (r: u16)
    ensures
        r == match port {
            Some(p) => p,
            None => 161,
        },
{
    match port {
        Some(p) => p,
        None => 161,
    }
}

// ---------------------------------------------------------------------------
// Storage
// ---------------------------------------------------------------------------

pub const NAS_QUERY_COUNT: usize = 23;

/// A column of the table of volumes groups (3) or of disks (2) of the storage.
pub open spec fn syno_cell(table: u32, column: u32, row: u32) -> Seq<u32> {
    seq![1u32, 3, 6, 1, 4, 1, 6574, table, 1, 1, column, row]
}

/// The objects that the storage is asked for: seven of the system, then name and status of
/// two volume groups, then name, status and temperature of four disks.
pub open spec fn nas_oid(i: usize) -> Seq<u32> {
    match i {
        0 => seq![1u32, 3, 6, 1, 2, 1, 1, 5, 0],
        1 => seq![1u32, 3, 6, 1, 2, 1, 1, 3, 0],
        2 => seq![1u32, 3, 6, 1, 2, 1, 25, 1, 1, 0],
        3 => seq![1u32, 3, 6, 1, 4, 1, 6574, 1, 1, 0],
        4 => seq![1u32, 3, 6, 1, 4, 1, 6574, 1, 2, 0],
        5 => seq![1u32, 3, 6, 1, 4, 1, 6574, 1, 5, 1, 0],
        6 => seq![1u32, 3, 6, 1, 4, 1, 6574, 1, 5, 3, 0],
        7 => syno_cell(3, 2, 0),
        8 => syno_cell(3, 3, 0),
        9 => syno_cell(3, 2, 1),
        10 => syno_cell(3, 3, 1),
        11 => syno_cell(2, 2, 0),
        12 => syno_cell(2, 5, 0),
        13 => syno_cell(2, 6, 0),
        14 => syno_cell(2, 2, 1),
        15 => syno_cell(2, 5, 1),
        16 => syno_cell(2, 6, 1),
        17 => syno_cell(2, 2, 2),
        18 => syno_cell(2, 5, 2),
        19 => syno_cell(2, 6, 2),
        20 => syno_cell(2, 2, 3),
        21 => syno_cell(2, 5, 3),
        _ => syno_cell(2, 6, 3),
    }
}

fn syno(table: u32, column: u32, row: u32) -> (r: Vec<u32>)
    ensures
        r@ == syno_cell(table, column, row),
{
    vec![1, 3, 6, 1, 4, 1, 6574, table, 1, 1, column, row]
}

pub fn nas_query(i: usize) -> (r: Vec<u32>)
    ensures
        r@ == nas_oid(i),
{
    match i {
        0 => vec![1, 3, 6, 1, 2, 1, 1, 5, 0],
        1 => vec![1, 3, 6, 1, 2, 1, 1, 3, 0],
        2 => vec![1, 3, 6, 1, 2, 1, 25, 1, 1, 0],
        3 => vec![1, 3, 6, 1, 4, 1, 6574, 1, 1, 0],
        4 => vec![1, 3, 6, 1, 4, 1, 6574, 1, 2, 0],
        5 => vec![1, 3, 6, 1, 4, 1, 6574, 1, 5, 1, 0],
        6 => vec![1, 3, 6, 1, 4, 1, 6574, 1, 5, 3, 0],
        7 => syno(3, 2, 0),
        8 => syno(3, 3, 0),
        9 => syno(3, 2, 1),
        10 => syno(3, 3, 1),
        11 => syno(2, 2, 0),
        12 => syno(2, 5, 0),
        13 => syno(2, 6, 0),
        14 => syno(2, 2, 1),
        15 => syno(2, 5, 1),
        16 => syno(2, 6, 1),
        17 => syno(2, 2, 2),
        18 => syno(2, 5, 2),
        19 => syno(2, 6, 2),
        20 => syno(2, 2, 3),
        21 => syno(2, 5, 3),
        _ => syno(2, 6, 3),
    }
}

pub open spec fn or_name(name: Option<Seq<char>>, what: Seq<char>, row: nat) -> JsonV {
    JsonV::Text(
        match name {
            Some(s) => s,
            None => what + numerals::dec(row + 1),
        },
    )
}

pub open spec fn or_zero(n: Option<i64>) -> JsonV {
    match n {
        Some(v) => json::integer(v),
        None => JsonV::Unsigned(0),
    }
}

/// The first `n` volume groups that gave an answer.
pub open spec fn raid_rows(a: Seq<Option<Seq<u8>>>, n: nat) -> Seq<JsonV>
    decreases n,
{
    if n == 0 {
        Seq::empty()
    } else {
        let row = (n - 1) as nat;
        let before = raid_rows(a, row);
        let name = answer_octets(a[7 + 2 * row as int]);
        let status = ups::answer_number(a[8 + 2 * row as int]);
        if name is Some || status is Some {
            before.push(
                JsonV::Object(
                    Map::<Seq<char>, JsonV>::empty().insert(
                        "index"@,
                        JsonV::Unsigned(row as u64),
                    ).insert("name"@, or_name(name, "RAID "@, row)).insert(
                        "status"@,
                        or_zero(status),
                    ),
                ),
            )
        } else {
            before
        }
    }
}

/// The first `n` disks that gave an answer.
pub open spec fn disk_rows(a: Seq<Option<Seq<u8>>>, n: nat) -> Seq<JsonV>
    decreases n,
{
    if n == 0 {
        Seq::empty()
    } else {
        let row = (n - 1) as nat;
        let before = disk_rows(a, row);
        let name = answer_octets(a[11 + 3 * row as int]);
        let status = ups::answer_number(a[12 + 3 * row as int]);
        let temp = ups::answer_number(a[13 + 3 * row as int]);
        if name is Some || status is Some || temp is Some {
            before.push(
                JsonV::Object(
                    Map::<Seq<char>, JsonV>::empty().insert(
                        "index"@,
                        JsonV::Unsigned(row as u64),
                    ).insert("name"@, or_name(name, "Disk "@, row)).insert(
                        "status"@,
                        or_zero(status),
                    ).insert("temp_c"@, or_zero(temp)),
                ),
            )
        } else {
            before
        }
    }
}

pub open spec fn with_rows(m: Map<Seq<char>, JsonV>, key: Seq<char>, rows: Seq<JsonV>) -> Map<
    Seq<char>,
    JsonV,
> {
    if rows.len() > 0 {
        m.insert(key, JsonV::List(rows))
    } else {
        m
    }
}

/// Allocation unit, size and use of a volume, under names that begin with `volume`.
pub open spec fn with_volume(
    m: Map<Seq<char>, JsonV>,
    volume: Seq<char>,
    usage: Option<(i64, i64, i64)>,
) -> Map<Seq<char>, JsonV> {
    match usage {
        Some((alloc, size, used)) => m.insert(
            volume + "_alloc_units"@,
            json::integer(alloc),
        ).insert(volume + "_size_units"@, json::integer(size)).insert(
            volume + "_used_units"@,
            json::integer(used),
        ),
        None => m,
    }
}

/// What the storage said of itself.
pub open spec fn nas_system(a: Seq<Option<Seq<u8>>>) -> Map<Seq<char>, JsonV> {
    let m0 = Map::<Seq<char>, JsonV>::empty();
    let m1 = with_text(m0, "sys_name"@, answer_octets(a[0]));
    let m2 = with_number(m1, "snmp_uptime_ticks"@, ups::answer_number(a[1]));
    let m3 = with_number(m2, "sys_uptime_ticks"@, ups::answer_number(a[2]));
    let m4 = with_number(m3, "system_status"@, ups::answer_number(a[3]));
    let m5 = with_number(m4, "system_temp_c"@, ups::answer_number(a[4]));
    let m6 = with_text(m5, "model"@, answer_octets(a[5]));
    with_text(m6, "dsm_version"@, answer_octets(a[6]))
}

pub open spec fn nas_fields(
    a: Seq<Option<Seq<u8>>>,
    vol1: Option<(i64, i64, i64)>,
    vol2: Option<(i64, i64, i64)>,
) -> Map<Seq<char>, JsonV> {
    let m1 = with_rows(nas_system(a), "raids"@, raid_rows(a, 2));
    let m2 = with_rows(m1, "disks"@, disk_rows(a, 4));
    with_volume(with_volume(m2, "vol1"@, vol1), "vol2"@, vol2)
}

/// The report on the storage: an error where not one answer gave anything.
pub open spec fn nas_outcome(
    a: Seq<Option<Seq<u8>>>,
    vol1: Option<(i64, i64, i64)>,
    vol2: Option<(i64, i64, i64)>,
) -> Result<JsonV, Seq<char>> {
    let m = nas_fields(a, vol1, vol2);
    if m == Map::<Seq<char>, JsonV>::empty() {
        Err("NAS antwortet nicht auf SNMP-Abfragen"@)
    } else {
        Ok(JsonV::Object(m))
    }
}

fn name_or(name: Option<String>, what: &str, row: usize) -> (r: Json)
    requires
        row < 16,
    ensures
        r@ == or_name(text::view_option(name), what@, row as nat),
{
    match name {
        Some(s) => Json::Text(s),
        None => Json::Text(text::glue(what, numerals::dec_u64((row + 1) as u64).as_str())),
    }
}

fn number_or_zero(n: Option<i64>) -> (r: Json)
    ensures
        r@ == or_zero(n),
{
    match n {
        Some(v) => json::number(v),
        None => Json::Unsigned(0),
    }
}

fn raids(replies: &Vec<Option<Vec<u8>>>) -> (r: Vec<Json>)
    requires
        replies@.len() == NAS_QUERY_COUNT,
    ensures
        json::list_view(r@) == raid_rows(answers(replies@), 2),
{
    let ghost a = answers(replies@);
    let mut out: Vec<Json> = Vec::new();
    let mut row: usize = 0;
    while row < 2
        invariant
            row <= 2,
            replies@.len() == NAS_QUERY_COUNT,
            a == answers(replies@),
            json::list_view(out@) == raid_rows(a, row as nat),
        decreases 2 - row,
    {
        let name = octets_in(&replies[7 + 2 * row]);
        let status = ups::number_in(&replies[8 + 2 * row]);
        if name.is_some() || status.is_some() {
            let mut m = json::empty_object();
            json::put(&mut m, "index", Json::Unsigned(row as u64));
            json::put(&mut m, "name", name_or(name, "RAID ", row));
            json::put(&mut m, "status", number_or_zero(status));
            let ghost before = out@;
            let item = Json::Object(m);
            proof {
                assert(item@ == JsonV::Object(json::fields(m)));
            }
            out.push(item);
            proof {
                assert(out@.drop_last() =~= before);
            }
        }
        row += 1;
    }
    out
}

fn disks(replies: &Vec<Option<Vec<u8>>>) -> (r: Vec<Json>)
    requires
        replies@.len() == NAS_QUERY_COUNT,
    ensures
        json::list_view(r@) == disk_rows(answers(replies@), 4),
{
    let ghost a = answers(replies@);
    let mut out: Vec<Json> = Vec::new();
    let mut row: usize = 0;
    while row < 4
        invariant
            row <= 4,
            replies@.len() == NAS_QUERY_COUNT,
            a == answers(replies@),
            json::list_view(out@) == disk_rows(a, row as nat),
        decreases 4 - row,
    {
        let name = octets_in(&replies[11 + 3 * row]);
        let status = ups::number_in(&replies[12 + 3 * row]);
        let temp = ups::number_in(&replies[13 + 3 * row]);
        if name.is_some() || status.is_some() || temp.is_some() {
            let mut m = json::empty_object();
            json::put(&mut m, "index", Json::Unsigned(row as u64));
            json::put(&mut m, "name", name_or(name, "Disk ", row));
            json::put(&mut m, "status", number_or_zero(status));
            json::put(&mut m, "temp_c", number_or_zero(temp));
            let ghost before = out@;
            let item = Json::Object(m);
            proof {
                assert(item@ == JsonV::Object(json::fields(m)));
            }
            out.push(item);
            proof {
                assert(out@.drop_last() =~= before);
            }
        }
        row += 1;
    }
    out
}

fn put_rows(m: &mut StrMap<Json>, key: &str, rows: Vec<Json>)
    ensures
        json::fields(*final(m)) == with_rows(
            json::fields(*old(m)),
            key@,
            json::list_view(rows@),
        ),
{
    proof {
        json::list_view_index(rows@);
    }
    if rows.len() > 0 {
        json::put(m, key, Json::List(rows));
    }
}

fn put_volume(m: &mut StrMap<Json>, volume: &str, usage: Option<(i64, i64, i64)>)
    ensures
        json::fields(*final(m)) == with_volume(json::fields(*old(m)), volume@, usage),
{
    if let Some((alloc, size, used)) = usage {
        json::put(m, text::glue(volume, "_alloc_units").as_str(), json::number(alloc));
        json::put(m, text::glue(volume, "_size_units").as_str(), json::number(size));
        json::put(m, text::glue(volume, "_used_units").as_str(), json::number(used));
    }
}

/// Puts the report on the storage together from the answers to its questions, in their order,
/// and the use of its two volumes.
pub fn nas_status(
    replies: &Vec<Option<Vec<u8>>>,
    vol1: Option<(i64, i64, i64)>,
    vol2: Option<(i64, i64, i64)>,
) -> (r: Result<Json, String>)
    requires
        replies@.len() == NAS_QUERY_COUNT,
    ensures
        json::view_result(r) == nas_outcome(answers(replies@), vol1, vol2),
{
    let mut m = json::empty_object();
    put_text(&mut m, "sys_name", octets_in(&replies[0]));
    put_number(&mut m, "snmp_uptime_ticks", ups::number_in(&replies[1]));
    put_number(&mut m, "sys_uptime_ticks", ups::number_in(&replies[2]));
    put_number(&mut m, "system_status", ups::number_in(&replies[3]));
    put_number(&mut m, "system_temp_c", ups::number_in(&replies[4]));
    put_text(&mut m, "model", octets_in(&replies[5]));
    put_text(&mut m, "dsm_version", octets_in(&replies[6]));
    put_rows(&mut m, "raids", raids(replies));
    put_rows(&mut m, "disks", disks(replies));
    put_volume(&mut m, "vol1", vol1);
    put_volume(&mut m, "vol2", vol2);
    if json::no_fields(&m) {
        return Err("NAS antwortet nicht auf SNMP-Abfragen".to_owned());
    }
    Ok(Json::Object(m))
}

/// Where the search for a volume in the table of storage areas stands.
#[derive(Clone, Copy, Debug, PartialEq, Eq, Structural)]
pub enum VolumeStep {
    /// The description of a row is asked for.
    Descr(u32),
    /// The row is found, and its allocation unit is asked for.
    Alloc(u32),
    /// Its size is asked for.
    Size(u32, i64),
    /// Its use is asked for.
    Used(u32, i64, i64),
    Found(i64, i64, i64),
    Missing,
}

pub const STORAGE_ROWS: u32 = 96;

pub open spec fn storage_cell(column: u32, row: u32) -> Seq<u32> {
    seq![1u32, 3, 6, 1, 2, 1, 25, 2, 3, 1, column, row]
}

pub open spec fn volume_oid(step: VolumeStep) -> Option<Seq<u32>> {
    match step {
        VolumeStep::Descr(row) => Some(storage_cell(3, row)),
        VolumeStep::Alloc(row) => Some(storage_cell(4, row)),
        VolumeStep::Size(row, _) => Some(storage_cell(5, row)),
        VolumeStep::Used(row, _, _) => Some(storage_cell(6, row)),
        VolumeStep::Found(_, _, _) => None,
        VolumeStep::Missing => None,
    }
}

/// What an answer makes of the search for the volume that is mounted at `mount`.
pub open spec fn volume_step(step: VolumeStep, mount: Seq<char>, answer: Option<Seq<u8>>) -> VolumeStep {
    match step {
        VolumeStep::Descr(row) => {
            let hit = match answer_octets(answer) {
                Some(s) => text::trimmed(s) == mount,
                None => false,
            };
            if hit {
                VolumeStep::Alloc(row)
            } else if row >= STORAGE_ROWS {
                VolumeStep::Missing
            } else {
                VolumeStep::Descr((row + 1) as u32)
            }
        },
        VolumeStep::Alloc(row) => match ups::answer_number(answer) {
            Some(n) => VolumeStep::Size(row, n),
            None => VolumeStep::Missing,
        },
        VolumeStep::Size(row, alloc) => match ups::answer_number(answer) {
            Some(n) => VolumeStep::Used(row, alloc, n),
            None => VolumeStep::Missing,
        },
        VolumeStep::Used(row, alloc, size) => match ups::answer_number(answer) {
            Some(n) => VolumeStep::Found(alloc, size, n),
            None => VolumeStep::Missing,
        },
        other => other,
    }
}

fn storage(column: u32, row: u32) -> (r: Vec<u32>)
    ensures
        r@ == storage_cell(column, row),
{
    vec![1, 3, 6, 1, 2, 1, 25, 2, 3, 1, column, row]
}

impl VolumeStep {
    /// The search begins with the first row.
    pub fn start() -> (r: Self)
        ensures
            r == VolumeStep::Descr(1),
    {
        VolumeStep::Descr(1)
    }

    /// The object to ask for next; none when the search is over.
    pub fn next_oid(&self) -> (r: Option<Vec<u32>>)
        ensures
            ups::view_oid(r) == volume_oid(*self),
    {
        match *self {
            VolumeStep::Descr(row) => Some(storage(3, row)),
            VolumeStep::Alloc(row) => Some(storage(4, row)),
            VolumeStep::Size(row, _) => Some(storage(5, row)),
            VolumeStep::Used(row, _, _) => Some(storage(6, row)),
            VolumeStep::Found(_, _, _) => None,
            VolumeStep::Missing => None,
        }
    }

    /// The step that follows on an answer.
    pub fn absorb(&self, mount: &str, answer: &Option<Vec<u8>>) -> (r: Self)
        ensures
            r == volume_step(*self, mount@, ups::view_bytes(*answer)),
    {
        match *self {
            VolumeStep::Descr(row) => {
                let hit = match octets_in(answer) {
                    Some(s) => text::same(text::trim(s.as_str()).as_str(), mount),
                    None => false,
                };
                if hit {
                    VolumeStep::Alloc(row)
                } else if row >= STORAGE_ROWS {
                    VolumeStep::Missing
                } else {
                    VolumeStep::Descr(row + 1)
                }
            },
            VolumeStep::Alloc(row) => match ups::number_in(answer) {
                Some(n) => VolumeStep::Size(row, n),
                None => VolumeStep::Missing,
            },
            VolumeStep::Size(row, alloc) => match ups::number_in(answer) {
                Some(n) => VolumeStep::Used(row, alloc, n),
                None => VolumeStep::Missing,
            },
            VolumeStep::Used(row, alloc, size) => match ups::number_in(answer) {
                Some(n) => VolumeStep::Found(alloc, size, n),
                None => VolumeStep::Missing,
            },
            other => other,
        }
    }

    /// Allocation unit, size and use of the volume, if the search has found them.
    pub fn usage(&self) -> (r: Option<(i64, i64, i64)>)
        ensures
            r == match *self {
                VolumeStep::Found(alloc, size, used) => Some((alloc, size, used)),
                _ => None,
            },
    {
        match *self {
            VolumeStep::Found(alloc, size, used) => Some((alloc, size, used)),
            _ => None,
        }
    }
}

/// How many questions a search still asks at most.
pub open spec fn volume_questions_left(step: VolumeStep) -> nat {
    match step {
        VolumeStep::Descr(row) => if row >= STORAGE_ROWS {
            4
        } else {
            (4 + STORAGE_ROWS - row) as nat
        },
        VolumeStep::Alloc(_) => 3,
        VolumeStep::Size(_, _) => 2,
        VolumeStep::Used(_, _, _) => 1,
        _ => 0,
    }
}

/// Every answer brings the search for a volume closer to its end.
pub proof fn volume_search_ends(step: VolumeStep, mount: Seq<char>, answer: Option<Seq<u8>>)
    requires
        volume_oid(step) is Some,
    ensures
        volume_questions_left(volume_step(step, mount, answer)) < volume_questions_left(step),
        volume_oid(volume_step(step, mount, answer)) is None <==> volume_questions_left(
            volume_step(step, mount, answer),
        ) == 0,
{
}

// ---------------------------------------------------------------------------
// Switch
// ---------------------------------------------------------------------------

pub const POE_QUERY_COUNT: usize = 9;

/// A value of a group of ports that share a power supply.
pub open spec fn poe_cell(column: u32, group: u32) -> Seq<u32> {
    seq![1u32, 3, 6, 1, 2, 1, 105, 1, 3, 1, 1, column, group]
}

/// The objects that the switch is asked for: description, name, uptime; state, limit and use
/// of the power supply of group 1; the same of group 2.
pub open spec fn poe_oid(i: usize) -> Seq<u32> {
    match i {
        0 => seq![1u32, 3, 6, 1, 2, 1, 1, 1, 0],
        1 => seq![1u32, 3, 6, 1, 2, 1, 1, 5, 0],
        2 => seq![1u32, 3, 6, 1, 2, 1, 1, 3, 0],
        3 => poe_cell(3, 1),
        4 => poe_cell(2, 1),
        5 => poe_cell(4, 1),
        6 => poe_cell(3, 2),
        7 => poe_cell(2, 2),
        _ => poe_cell(4, 2),
    }
}

fn poe(column: u32, group: u32) -> (r: Vec<u32>)
    ensures
        r@ == poe_cell(column, group),
{
    vec![1, 3, 6, 1, 2, 1, 105, 1, 3, 1, 1, column, group]
}

pub fn poe_query(i: usize) -> (r: Vec<u32>)
    ensures
        r@ == poe_oid(i),
{
    match i {
        0 => vec![1, 3, 6, 1, 2, 1, 1, 1, 0],
        1 => vec![1, 3, 6, 1, 2, 1, 1, 5, 0],
        2 => vec![1, 3, 6, 1, 2, 1, 1, 3, 0],
        3 => poe(3, 1),
        4 => poe(2, 1),
        5 => poe(4, 1),
        6 => poe(3, 2),
        7 => poe(2, 2),
        _ => poe(4, 2),
    }
}

/// Whether question `i` is asked: one on group 2 only where the one on group 1 gave no number.
pub open spec fn poe_asked(i: usize, a: Seq<Option<Seq<u8>>>) -> bool {
    i < 6 || ups::answer_number(a[i - 3]) is None
}

/// Decides whether question `i` is asked, after the answers to the questions before it.
pub fn poe_is_asked(i: usize, replies: &Vec<Option<Vec<u8>>>) -> (r: bool)
    requires
        i < POE_QUERY_COUNT,
        replies@.len() == i,
    ensures
        r == poe_asked(i, answers(replies@)),
{
    i < 6 || ups::number_in(&replies[i - 3]).is_none()
}

pub open spec fn first_number(a: Option<Seq<u8>>, b: Option<Seq<u8>>) -> Option<i64> {
    match ups::answer_number(a) {
        Some(n) => Some(n),
        None => ups::answer_number(b),
    }
}

fn first_of(a: &Option<Vec<u8>>, b: &Option<Vec<u8>>) -> (r: Option<i64>)
    ensures
        r == first_number(ups::view_bytes(*a), ups::view_bytes(*b)),
{
    match ups::number_in(a) {
        Some(n) => Some(n),
        None => ups::number_in(b),
    }
}

pub open spec fn not_negative(n: i64) -> i64 {
    if n < 0 {
        0
    } else {
        n
    }
}

/// The power figures of the switch: state, limit, use, and what is left where both are known.
pub open spec fn with_power(
    m: Map<Seq<char>, JsonV>,
    state: Option<i64>,
    limit: Option<i64>,
    used: Option<i64>,
) -> Map<Seq<char>, JsonV> {
    let m1 = with_number(m, "poe_oper_status"@, state);
    let m2 = with_number(m1, "poe_power_limit_w"@, limit);
    let m3 = with_number(m2, "poe_power_used_w"@, used);
    if limit is Some && used is Some {
        m3.insert(
            "poe_power_free_w"@,
            json::integer(not_negative((limit->0).wrapping_sub(used->0))),
        )
    } else {
        m3
    }
}

/// The model that a lowercase description of the switch names.
pub open spec fn switch_model(probe: Seq<char>) -> Seq<char> {
    if text::has(probe, "m4250-8g2xf-poe+"@) {
        "Netgear M4250-8G2XF-PoE+"@
    } else if text::has(probe, "m4250-40g8f-poe+"@) {
        "Netgear M4250-40G8F-PoE+"@
    } else if text::has(probe, "m4250-26g4xf-poe+"@) {
        "Netgear M4250-26G4XF-PoE+"@
    } else {
        "Unknown"@
    }
}

pub fn detect_switch_model(probe: &str) -> (r: String)
    ensures
        r@ == switch_model(probe@),
{
    if text::contains(probe, "m4250-8g2xf-poe+") {
        "Netgear M4250-8G2XF-PoE+".to_owned()
    } else if text::contains(probe, "m4250-40g8f-poe+") {
        "Netgear M4250-40G8F-PoE+".to_owned()
    } else if text::contains(probe, "m4250-26g4xf-poe+") {
        "Netgear M4250-26G4XF-PoE+".to_owned()
    } else {
        "Unknown".to_owned()
    }
}

pub open spec fn or_empty(s: Option<Seq<char>>) -> Seq<char> {
    match s {
        Some(v) => v,
        None => Seq::empty(),
    }
}

/// The text in which the model of the switch is looked for.
pub open spec fn switch_probe(a: Seq<Option<Seq<u8>>>) -> Seq<char> {
    or_empty(answer_text(a[0])) + " "@ + or_empty(answer_text(a[1]))
}

/// The report on the switch. `probe` is the lowercase text in which the model is looked for.
pub open spec fn poe_report(
    community: Seq<char>,
    a: Seq<Option<Seq<u8>>>,
    probe: Seq<char>,
) -> JsonV {
    let m1 = with_text(Map::empty(), "sys_descr"@, answer_text(a[0]));
    let m2 = with_text(m1, "sys_name"@, answer_text(a[1]));
    let m3 = with_number(m2, "sys_uptime_ticks"@, ups::answer_number(a[2]));
    let m4 = with_power(
        m3,
        first_number(a[3], a[6]),
        first_number(a[4], a[7]),
        first_number(a[5], a[8]),
    );
    JsonV::Object(
        m4.insert("detected_model"@, JsonV::Text(switch_model(probe))).insert(
            "snmp_community_used"@,
            JsonV::Text(community),
        ),
    )
}

fn text_or_empty(s: &Option<String>) -> (r: String)
    ensures
        r@ == or_empty(text::view_option(*s)),
{
    match s {
        Some(v) => v.clone(),
        None => String::new(),
    }
}

/// Puts the report on the switch together, given the lowercase text in which the model is
/// looked for.
pub fn poe_status_with(community: &str, replies: &Vec<Option<Vec<u8>>>, probe: &str) -> (r: Json)
    requires
        replies@.len() == POE_QUERY_COUNT,
    ensures
        r@ == poe_report(community@, answers(replies@), probe@),
{
    let mut m = json::empty_object();
    put_text(&mut m, "sys_descr", text_in(&replies[0]));
    put_text(&mut m, "sys_name", text_in(&replies[1]));
    put_number(&mut m, "sys_uptime_ticks", ups::number_in(&replies[2]));
    let state = first_of(&replies[3], &replies[6]);
    let limit = first_of(&replies[4], &replies[7]);
    let used = first_of(&replies[5], &replies[8]);
    put_number(&mut m, "poe_oper_status", state);
    put_number(&mut m, "poe_power_limit_w", limit);
    put_number(&mut m, "poe_power_used_w", used);
    if let Some(l) = limit {
        if let Some(u) = used {
            let left = l.wrapping_sub(u);
            let free: i64 = if left < 0 {
                0
            } else {
                left
            };
            json::put(&mut m, "poe_power_free_w", json::number(free));
        }
    }
    json::put(&mut m, "detected_model", Json::Text(detect_switch_model(probe)));
    json::put(&mut m, "snmp_community_used", json::text(community));
    Json::Object(m)
}

/// Puts the report on the switch together from the answers to its questions, in their order.
pub fn poe_switch_status(community: &str, replies: &Vec<Option<Vec<u8>>>) -> (r: Json)
    requires
        replies@.len() == POE_QUERY_COUNT,
    ensures
        r@ == poe_report(
            community@,
            answers(replies@),
            text::unicode_lowercase(switch_probe(answers(replies@))),
        ),
        text::is_ascii_text(switch_probe(answers(replies@))) ==> r@ == poe_report(
            community@,
            answers(replies@),
            text::lowered(switch_probe(answers(replies@))),
        ),
{
    let descr = text_or_empty(&text_in(&replies[0]));
    let name = text_or_empty(&text_in(&replies[1]));
    let probe = text::to_lowercase(text::glue3(descr.as_str(), " ", name.as_str()).as_str());
    poe_status_with(community, replies, probe.as_str())
}

// ---------------------------------------------------------------------------
// Router
// ---------------------------------------------------------------------------

pub const ROUTER_TEXT_COUNT: usize = 18;

pub const ROUTER_NUMBER_COUNT: usize = 2;

/// The objects of the router that are read as text.
pub open spec fn router_text(i: usize) -> (Seq<char>, Seq<u32>) {
    match i {
        0 => ("sys_descr"@, seq![1u32, 3, 6, 1, 2, 1, 1, 1, 0]),
        1 => ("sys_name"@, seq![1u32, 3, 6, 1, 2, 1, 1, 5, 0]),
        2 => ("device_name"@, seq![1u32, 3, 6, 1, 4, 1, 48690, 1, 2, 0]),
        3 => ("product_code"@, seq![1u32, 3, 6, 1, 4, 1, 48690, 1, 3, 0]),
        4 => ("fw_version"@, seq![1u32, 3, 6, 1, 4, 1, 48690, 1, 6, 0]),
        5 => ("device_uptime_s"@, seq![1u32, 3, 6, 1, 4, 1, 48690, 1, 7, 0]),
        6 => ("cpu_usage"@, seq![1u32, 3, 6, 1, 4, 1, 48690, 1, 8, 0]),
        7 => ("modem_model"@, seq![1u32, 3, 6, 1, 4, 1, 48690, 2, 2, 1, 4, 1]),
        8 => ("net_state"@, seq![1u32, 3, 6, 1, 4, 1, 48690, 2, 2, 1, 11, 1]),
        9 => ("signal"@, seq![1u32, 3, 6, 1, 4, 1, 48690, 2, 2, 1, 12, 1]),
        10 => ("operator"@, seq![1u32, 3, 6, 1, 4, 1, 48690, 2, 2, 1, 13, 1]),
        11 => ("connection_state"@, seq![1u32, 3, 6, 1, 4, 1, 48690, 2, 2, 1, 15, 1]),
        12 => ("network_type"@, seq![1u32, 3, 6, 1, 4, 1, 48690, 2, 2, 1, 16, 1]),
        13 => ("cell_id"@, seq![1u32, 3, 6, 1, 4, 1, 48690, 2, 2, 1, 18, 1]),
        14 => ("sinr"@, seq![1u32, 3, 6, 1, 4, 1, 48690, 2, 2, 1, 19, 1]),
        15 => ("rsrp"@, seq![1u32, 3, 6, 1, 4, 1, 48690, 2, 2, 1, 20, 1]),
        16 => ("rsrq"@, seq![1u32, 3, 6, 1, 4, 1, 48690, 2, 2, 1, 21, 1]),
        _ => ("modem_ip"@, seq![1u32, 3, 6, 1, 4, 1, 48690, 2, 2, 1, 24, 1]),
    }
}

pub fn router_text_query(i: usize) -> (r: (String, Vec<u32>))
    ensures
        (r.0@, r.1@) == router_text(i),
{
    match i {
        0 => ("sys_descr".to_owned(), vec![1, 3, 6, 1, 2, 1, 1, 1, 0]),
        1 => ("sys_name".to_owned(), vec![1, 3, 6, 1, 2, 1, 1, 5, 0]),
        2 => ("device_name".to_owned(), vec![1, 3, 6, 1, 4, 1, 48690, 1, 2, 0]),
        3 => ("product_code".to_owned(), vec![1, 3, 6, 1, 4, 1, 48690, 1, 3, 0]),
        4 => ("fw_version".to_owned(), vec![1, 3, 6, 1, 4, 1, 48690, 1, 6, 0]),
        5 => ("device_uptime_s".to_owned(), vec![1, 3, 6, 1, 4, 1, 48690, 1, 7, 0]),
        6 => ("cpu_usage".to_owned(), vec![1, 3, 6, 1, 4, 1, 48690, 1, 8, 0]),
        7 => ("modem_model".to_owned(), vec![1, 3, 6, 1, 4, 1, 48690, 2, 2, 1, 4, 1]),
        8 => ("net_state".to_owned(), vec![1, 3, 6, 1, 4, 1, 48690, 2, 2, 1, 11, 1]),
        9 => ("signal".to_owned(), vec![1, 3, 6, 1, 4, 1, 48690, 2, 2, 1, 12, 1]),
        10 => ("operator".to_owned(), vec![1, 3, 6, 1, 4, 1, 48690, 2, 2, 1, 13, 1]),
        11 => ("connection_state".to_owned(), vec![1, 3, 6, 1, 4, 1, 48690, 2, 2, 1, 15, 1]),
        12 => ("network_type".to_owned(), vec![1, 3, 6, 1, 4, 1, 48690, 2, 2, 1, 16, 1]),
        13 => ("cell_id".to_owned(), vec![1, 3, 6, 1, 4, 1, 48690, 2, 2, 1, 18, 1]),
        14 => ("sinr".to_owned(), vec![1, 3, 6, 1, 4, 1, 48690, 2, 2, 1, 19, 1]),
        15 => ("rsrp".to_owned(), vec![1, 3, 6, 1, 4, 1, 48690, 2, 2, 1, 20, 1]),
        16 => ("rsrq".to_owned(), vec![1, 3, 6, 1, 4, 1, 48690, 2, 2, 1, 21, 1]),
        _ => ("modem_ip".to_owned(), vec![1, 3, 6, 1, 4, 1, 48690, 2, 2, 1, 24, 1]),
    }
}

/// The objects of the router that are read as numbers.
pub open spec fn router_number(i: usize) -> (Seq<char>, Seq<u32>) {
    match i {
        0 => ("sys_uptime_ticks"@, seq![1u32, 3, 6, 1, 2, 1, 1, 3, 0]),
        _ => ("mobile_uptime_s"@, seq![1u32, 3, 6, 1, 4, 1, 48690, 2, 3, 0]),
    }
}

pub fn router_number_query(i: usize) -> (r: (String, Vec<u32>))
    ensures
        (r.0@, r.1@) == router_number(i),
{
    match i {
        0 => ("sys_uptime_ticks".to_owned(), vec![1, 3, 6, 1, 2, 1, 1, 3, 0]),
        _ => ("mobile_uptime_s".to_owned(), vec![1, 3, 6, 1, 4, 1, 48690, 2, 3, 0]),
    }
}

/// What the first `n` texts of the router give.
pub open spec fn router_texts(a: Seq<Option<Seq<u8>>>, n: nat) -> Map<Seq<char>, JsonV>
    decreases n,
{
    if n == 0 {
        Map::empty()
    } else {
        with_text(
            router_texts(a, (n - 1) as nat),
            router_text((n - 1) as usize).0,
            answer_text(a[n - 1]),
        )
    }
}

/// What its first `n` numbers add.
pub open spec fn router_numbers(
    m: Map<Seq<char>, JsonV>,
    a: Seq<Option<Seq<u8>>>,
    n: nat,
) -> Map<Seq<char>, JsonV>
    decreases n,
{
    if n == 0 {
        m
    } else {
        with_number(
            router_numbers(m, a, (n - 1) as nat),
            router_number((n - 1) as usize).0,
            ups::answer_number(a[n - 1]),
        )
    }
}

/// The model that a lowercase description of the router names.
pub open spec fn router_model(descr: Seq<char>) -> Seq<char> {
    if text::has(descr, "rutx50"@) {
        "Teltonika RUTX50"@
    } else {
        "Unknown"@
    }
}

/// The report on the router. `descr` is its description in lower case.
pub open spec fn router_report(
    texts: Seq<Option<Seq<u8>>>,
    numbers: Seq<Option<Seq<u8>>>,
    descr: Seq<char>,
) -> JsonV {
    JsonV::Object(
        router_numbers(
            router_texts(texts, ROUTER_TEXT_COUNT as nat),
            numbers,
            ROUTER_NUMBER_COUNT as nat,
        ).insert("detected_model"@, JsonV::Text(router_model(descr))),
    )
}

/// Puts the report on the router together, given its description in lower case.
pub fn router_status_with(
    texts: &Vec<Option<Vec<u8>>>,
    numbers: &Vec<Option<Vec<u8>>>,
    descr: &str,
) -> (r: Json)
    requires
        texts@.len() == ROUTER_TEXT_COUNT,
        numbers@.len() == ROUTER_NUMBER_COUNT,
    ensures
        r@ == router_report(answers(texts@), answers(numbers@), descr@),
{
    let mut m = json::empty_object();
    let mut i: usize = 0;
    while i < ROUTER_TEXT_COUNT
        invariant
            i <= ROUTER_TEXT_COUNT,
            texts@.len() == ROUTER_TEXT_COUNT,
            json::fields(m) == router_texts(answers(texts@), i as nat),
        decreases ROUTER_TEXT_COUNT - i,
    {
        let (key, _) = router_text_query(i);
        put_text(&mut m, key.as_str(), text_in(&texts[i]));
        i += 1;
    }
    let ghost told = json::fields(m);
    let mut k: usize = 0;
    while k < ROUTER_NUMBER_COUNT
        invariant
            k <= ROUTER_NUMBER_COUNT,
            numbers@.len() == ROUTER_NUMBER_COUNT,
            json::fields(m) == router_numbers(told, answers(numbers@), k as nat),
        decreases ROUTER_NUMBER_COUNT - k,
    {
        let (key, _) = router_number_query(k);
        put_number(&mut m, key.as_str(), ups::number_in(&numbers[k]));
        k += 1;
    }
    let model = if text::contains(descr, "rutx50") {
        "Teltonika RUTX50"
    } else {
        "Unknown"
    };
    json::put(&mut m, "detected_model", json::text(model));
    Json::Object(m)
}

/// Puts the report on the router together from the answers to its questions, in their order.
pub fn rutx50_status(texts: &Vec<Option<Vec<u8>>>, numbers: &Vec<Option<Vec<u8>>>) -> (r: Json)
    requires
        texts@.len() == ROUTER_TEXT_COUNT,
        numbers@.len() == ROUTER_NUMBER_COUNT,
    ensures
        r@ == router_report(
            answers(texts@),
            answers(numbers@),
            text::unicode_lowercase(or_empty(answer_text(answers(texts@)[0]))),
        ),
        text::is_ascii_text(or_empty(answer_text(answers(texts@)[0]))) ==> r@ == router_report(
            answers(texts@),
            answers(numbers@),
            text::lowered(or_empty(answer_text(answers(texts@)[0]))),
        ),
{
    let descr = text_or_empty(&text_in(&texts[0]));
    let lowered = text::to_lowercase(descr.as_str());
    router_status_with(texts, numbers, lowered.as_str())
}

// ---------------------------------------------------------------------------
// All of them
// ---------------------------------------------------------------------------

/// Every object that the storage is asked for may be asked for.
pub proof fn nas_queries_allowed(i: usize, step: VolumeStep)
    ensures
        snmp::oid_fault(nas_oid(i)) is None,
        volume_oid(step) is Some ==> snmp::oid_fault(volume_oid(step)->0) is None,
{
    allowed_below(nas_oid(i));
    if volume_oid(step) is Some {
        allowed_below(volume_oid(step)->0);
    }
}

/// Every object that the switch is asked for may be asked for.
pub proof fn poe_queries_allowed(i: usize)
    ensures
        snmp::oid_fault(poe_oid(i)) is None,
{
    allowed_below(poe_oid(i));
}

/// Every object that the router is asked for may be asked for.
pub proof fn router_queries_allowed(i: usize)
    ensures
        snmp::oid_fault(router_text(i).1) is None,
        snmp::oid_fault(router_number(i).1) is None,
{
    router_texts_allowed(i);
    allowed_below(router_number(i).1);
}

proof fn router_texts_allowed(i: usize)
    ensures
        snmp::oid_fault(router_text(i).1) is None,
{
    allowed_below(router_text(i).1);
}

proof fn allowed_below(oid: Seq<u32>)
    requires
        7 <= oid.len() <= 128,
        oid[0] == 1 && oid[1] == 3 && oid[2] == 6 && oid[3] == 1 && oid[5] == 1,
        (oid[4] == 2 && (oid[6] == 1 || oid[6] == 25 || oid[6] == 105)) || (oid[4] == 4 && (oid[6]
            == 6574 || oid[6] == 48690)),
    ensures
        snmp::oid_fault(oid) is None,
{
    let i: usize = if oid[4] == 4 {
        if oid[6] == 6574 {
            7
        } else {
            8
        }
    } else if oid[6] == 1 {
        0
    } else if oid[6] == 25 {
        2
    } else {
        4
    };
    assert(oid.take(7) =~= snmp::allowed_root(i));
    assert(snmp::below(oid, snmp::allowed_root(i)));
}

// ---------------------------------------------------------------------------
// What the reports say
// ---------------------------------------------------------------------------

proof fn power_names_differ()
    ensures
        "poe_oper_status"@.len() == 15,
        "poe_power_limit_w"@.len() == 17,
        "poe_power_used_w"@.len() == 16,
        "poe_power_free_w"@.len() == 16,
        "poe_power_used_w"@[10] == 'u',
        "poe_power_free_w"@[10] == 'f',
        "sys_descr"@.len() == 9,
        "sys_name"@.len() == 8,
        "sys_uptime_ticks"@.len() == 16,
        "sys_uptime_ticks"@[10] == '_',
        "detected_model"@.len() == 14,
        "snmp_community_used"@.len() == 19,
{
    reveal_strlit("poe_oper_status");
    reveal_strlit("poe_power_limit_w");
    reveal_strlit("poe_power_used_w");
    reveal_strlit("poe_power_free_w");
    reveal_strlit("sys_descr");
    reveal_strlit("sys_name");
    reveal_strlit("sys_uptime_ticks");
    reveal_strlit("detected_model");
    reveal_strlit("snmp_community_used");
}

/// Of the power of the switch, what is free and what is used make up the limit, and nothing is
/// free where more is used than the limit allows. Group 2 counts only where group 1 is silent.
pub proof fn free_power_is_what_is_left(
    community: &str,
    replies: &Vec<Option<Vec<u8>>>,
    limit: i64,
    used: i64,
    r: Json,
)
    requires
        replies@.len() == POE_QUERY_COUNT,
        ups::says(replies@[4], limit) || (ups::says_nothing(replies@[4]) && ups::says(
            replies@[7],
            limit,
        )),
        ups::says(replies@[5], used) || (ups::says_nothing(replies@[5]) && ups::says(
            replies@[8],
            used,
        )),
        i64::MIN <= limit - used <= i64::MAX,
        call_ensures(poe_switch_status, (community, replies), r),
    ensures
        json::integer_at(r@, "poe_power_limit_w"@) == Some(limit),
        json::integer_at(r@, "poe_power_used_w"@) == Some(used),
        used <= limit ==> json::integer_at(r@, "poe_power_free_w"@) is Some && json::integer_at(
            r@,
            "poe_power_free_w"@,
        )->0 + used == limit,
        used > limit ==> json::integer_at(r@, "poe_power_free_w"@) == Some(0i64),
{
    power_names_differ();
    let a = answers(replies@);
    assert(a[4] == ups::view_bytes(replies@[4]) && a[5] == ups::view_bytes(replies@[5]));
    assert(a[7] == ups::view_bytes(replies@[7]) && a[8] == ups::view_bytes(replies@[8]));
    assert(first_number(a[4], a[7]) == Some(limit));
    assert(first_number(a[5], a[8]) == Some(used));
}

/// Where limit or use are not known, nothing is said of what is free; the other figures of the
/// switch are those of its answers.
pub proof fn switch_figures_are_its_answers(
    community: &str,
    replies: &Vec<Option<Vec<u8>>>,
    n: i64,
    r: Json,
)
    requires
        replies@.len() == POE_QUERY_COUNT,
        call_ensures(poe_switch_status, (community, replies), r),
    ensures
        ups::says(replies@[2], n) ==> json::integer_at(r@, "sys_uptime_ticks"@) == Some(n),
        ups::says(replies@[3], n) ==> json::integer_at(r@, "poe_oper_status"@) == Some(n),
        ups::says_nothing(replies@[3]) && ups::says(replies@[6], n) ==> json::integer_at(
            r@,
            "poe_oper_status"@,
        ) == Some(n),
        ups::says(replies@[4], n) ==> json::integer_at(r@, "poe_power_limit_w"@) == Some(n),
        ups::says(replies@[5], n) ==> json::integer_at(r@, "poe_power_used_w"@) == Some(n),
        ups::says_nothing(replies@[4]) && ups::says_nothing(replies@[7]) ==> r@.get(
            "poe_power_free_w"@,
        ) is None && r@.get("poe_power_limit_w"@) is None,
        ups::says_nothing(replies@[5]) && ups::says_nothing(replies@[8]) ==> r@.get(
            "poe_power_free_w"@,
        ) is None && r@.get("poe_power_used_w"@) is None,
        r@.get("snmp_community_used"@) == Some(JsonV::Text(community@)),
{
    power_names_differ();
    let a = answers(replies@);
    assert(forall|i: int| 0 <= i < 9 ==> #[trigger] a[i] == ups::view_bytes(replies@[i]));
}

/// The questions for the power of group 2 are those for group 1 in another row: first state,
/// then limit, then use.
pub proof fn both_groups_are_asked_alike(i: usize, one: Vec<u32>, two: Vec<u32>)
    requires
        3 <= i < 6,
        call_ensures(poe_query, (i,), one),
        call_ensures(poe_query, ((i + 3) as usize,), two),
    ensures
        one@.len() == 13 && two@.len() == 13,
        one@.take(12) == two@.take(12),
        one@[12] == 1 && two@[12] == 2,
        one@.take(7) == seq![1u32, 3, 6, 1, 2, 1, 105],
        i == 3 ==> one@[11] == 3,
        i == 4 ==> one@[11] == 2,
        i == 5 ==> one@[11] == 4,
{
    assert(one@.take(12) =~= two@.take(12));
    assert(one@.take(7) =~= seq![1u32, 3, 6, 1, 2, 1, 105]);
}

/// The model of the switch is told by its type number, and unknown without one.
pub proof fn switch_model_is_named(probe: &str, r: String)
    requires
        call_ensures(detect_switch_model, (probe,), r),
    ensures
        text::has(probe@, "m4250-8g2xf-poe+"@) ==> r@ == "Netgear M4250-8G2XF-PoE+"@,
        text::has(probe@, "m4250-40g8f-poe+"@) && !text::has(probe@, "m4250-8g2xf-poe+"@) ==> r@
            == "Netgear M4250-40G8F-PoE+"@,
        r@ != "Unknown"@ ==> text::has(probe@, text::lowered(r@).skip(8)),
        !text::has(probe@, "m4250-8g2xf-poe+"@) && !text::has(probe@, "m4250-40g8f-poe+"@)
            && !text::has(probe@, "m4250-26g4xf-poe+"@) ==> r@ == "Unknown"@,
{
    reveal_strlit("Netgear M4250-8G2XF-PoE+");
    reveal_strlit("Netgear M4250-40G8F-PoE+");
    reveal_strlit("Netgear M4250-26G4XF-PoE+");
    reveal_strlit("m4250-8g2xf-poe+");
    reveal_strlit("m4250-40g8f-poe+");
    reveal_strlit("m4250-26g4xf-poe+");
    assert(text::lowered("Netgear M4250-8G2XF-PoE+"@).skip(8) =~= "m4250-8g2xf-poe+"@);
    assert(text::lowered("Netgear M4250-40G8F-PoE+"@).skip(8) =~= "m4250-40g8f-poe+"@);
    assert(text::lowered("Netgear M4250-26G4XF-PoE+"@).skip(8) =~= "m4250-26g4xf-poe+"@);
}

/// The name of row `i` of the router: its texts, its numbers, and the model.
spec fn router_name(i: usize) -> Seq<char> {
    if i < ROUTER_TEXT_COUNT {
        router_text(i).0
    } else if i < ROUTER_TEXT_COUNT + ROUTER_NUMBER_COUNT {
        router_number((i - ROUTER_TEXT_COUNT) as usize).0
    } else {
        "detected_model"@
    }
}

spec fn router_mark(i: usize) -> int {
    match i {
        0 => 162290,
        1 => 145893,
        2 => 193125,
        3 => 211045,
        4 => 177006,
        5 => 258675,
        6 => 160229,
        7 => 194284,
        8 => 161637,
        9 => 113132,
        10 => 145394,
        11 => 274917,
        12 => 210789,
        13 => 127460,
        14 => 80370,
        15 => 80240,
        16 => 80241,
        17 => 145136,
        18 => 276979,
        19 => 259827,
        _ => 242284,
    }
}

proof fn router_marks(i: usize)
    requires
        i <= 20,
    ensures
        ({
            let s = router_name(i);
            (s.len() * 128 + s[0] as int) * 128 + s.last() as int == router_mark(i)
        }),
{
    match i {
        0 => {
            reveal_strlit("sys_descr");
        },
        1 => {
            reveal_strlit("sys_name");
        },
        2 => {
            reveal_strlit("device_name");
        },
        3 => {
            reveal_strlit("product_code");
        },
        4 => {
            reveal_strlit("fw_version");
        },
        5 => {
            reveal_strlit("device_uptime_s");
        },
        6 => {
            reveal_strlit("cpu_usage");
        },
        7 => {
            reveal_strlit("modem_model");
        },
        8 => {
            reveal_strlit("net_state");
        },
        9 => {
            reveal_strlit("signal");
        },
        10 => {
            reveal_strlit("operator");
        },
        11 => {
            reveal_strlit("connection_state");
        },
        12 => {
            reveal_strlit("network_type");
        },
        13 => {
            reveal_strlit("cell_id");
        },
        14 => {
            reveal_strlit("sinr");
        },
        15 => {
            reveal_strlit("rsrp");
        },
        16 => {
            reveal_strlit("rsrq");
        },
        17 => {
            reveal_strlit("modem_ip");
        },
        18 => {
            reveal_strlit("sys_uptime_ticks");
        },
        19 => {
            reveal_strlit("mobile_uptime_s");
        },
        _ => {
            reveal_strlit("detected_model");
        },
    }
}

proof fn router_names_differ(i: usize, j: usize)
    requires
        i <= 20,
        j <= 20,
        i != j,
    ensures
        router_name(i) != router_name(j),
{
    router_marks(i);
    router_marks(j);
}

proof fn router_text_found(a: Seq<Option<Seq<u8>>>, n: nat, i: usize)
    requires
        i < n <= ROUTER_TEXT_COUNT,
    ensures
        answer_text(a[i as int]) matches Some(s)
            ==> router_texts(a, n).dom().contains(router_text(i).0)
            && router_texts(a, n)[router_text(i).0] == JsonV::Text(s),
        answer_text(a[i as int]) is None ==> !router_texts(a, n).dom().contains(router_text(i).0),
    decreases n,
{
    let last = (n - 1) as usize;
    if i < last {
        router_text_found(a, (n - 1) as nat, i);
        router_names_differ(i, last);
    } else {
        router_text_absent(a, (n - 1) as nat, i);
    }
}

proof fn router_text_absent(a: Seq<Option<Seq<u8>>>, n: nat, i: usize)
    requires
        n <= i <= 20,
        n <= ROUTER_TEXT_COUNT,
    ensures
        !router_texts(a, n).dom().contains(router_name(i)),
    decreases n,
{
    if n > 0 {
        router_text_absent(a, (n - 1) as nat, i);
        router_names_differ((n - 1) as usize, i);
    }
}

/// Every text and every number that the router answers is reported under the name of the
/// question, and what it does not answer is left out.
pub proof fn router_figures_are_its_answers(
    texts: &Vec<Option<Vec<u8>>>,
    numbers: &Vec<Option<Vec<u8>>>,
    i: usize,
    k: usize,
    asked: (String, Vec<u32>),
    counted: (String, Vec<u32>),
    n: i64,
    r: Json,
)
    requires
        texts@.len() == 18,
        numbers@.len() == 2,
        i < 18,
        k < 2,
        call_ensures(router_text_query, (i,), asked),
        call_ensures(router_number_query, (k,), counted),
        call_ensures(rutx50_status, (texts, numbers), r),
    ensures
        texts@[i as int] matches Some(bytes) ==> (snmp::reply_as_text(bytes@) matches Some(s)
            ==> r@.get(asked.0@) == Some(JsonV::Text(s))),
        texts@[i as int] is None ==> r@.get(asked.0@) is None,
        ups::says(numbers@[k as int], n) ==> json::integer_at(r@, counted.0@) == Some(n),
        ups::says_nothing(numbers@[k as int]) ==> r@.get(counted.0@) is None,
{
    let a = answers(texts@);
    let b = answers(numbers@);
    assert(a[i as int] == ups::view_bytes(texts@[i as int]));
    assert(b[k as int] == ups::view_bytes(numbers@[k as int]));
    router_text_found(a, 18, i);
    router_names_differ(i, 18);
    router_names_differ(i, 19);
    router_names_differ(i, 20);
    router_names_differ(18, 19);
    router_names_differ(18, 20);
    router_names_differ(19, 20);
    router_text_absent(a, 18, 18);
    router_text_absent(a, 18, 19);
    assert(router_name(18) == router_number(0).0);
    assert(router_name(19) == router_number(1).0);
    reveal_with_fuel(router_numbers, 3);
}

proof fn rows_of_disks(a: Seq<Option<Seq<u8>>>, n: nat, row: nat)
    requires
        row < n,
        answer_octets(a[11 + 3 * row as int]) is Some || ups::answer_number(a[12 + 3 * row as int])
            is Some || ups::answer_number(a[13 + 3 * row as int]) is Some,
    ensures
        exists|k: int|
            0 <= k < disk_rows(a, n).len() && (#[trigger] disk_rows(a, n)[k]).get("index"@) == Some(
                JsonV::Unsigned(row as u64),
            ) && disk_rows(a, n)[k].get("temp_c"@) == Some(
                or_zero(ups::answer_number(a[13 + 3 * row as int])),
            ) && disk_rows(a, n)[k].get("status"@) == Some(
                or_zero(ups::answer_number(a[12 + 3 * row as int])),
            ),
    decreases n,
{
    reveal_strlit("index");
    reveal_strlit("name");
    reveal_strlit("status");
    reveal_strlit("temp_c");
    assert("index"@.len() == 5 && "name"@.len() == 4 && "status"@.len() == 6
        && "temp_c"@.len() == 6);
    assert("status"@[0] == 's' && "temp_c"@[0] == 't');
    let before = disk_rows(a, (n - 1) as nat);
    if row < n - 1 {
        rows_of_disks(a, (n - 1) as nat, row);
        let k = choose|k: int|
            0 <= k < before.len() && (#[trigger] before[k]).get("index"@) == Some(
                JsonV::Unsigned(row as u64),
            ) && before[k].get("temp_c"@) == Some(
                or_zero(ups::answer_number(a[13 + 3 * row as int])),
            ) && before[k].get("status"@) == Some(
                or_zero(ups::answer_number(a[12 + 3 * row as int])),
            );
        assert(disk_rows(a, n)[k] == before[k]);
    } else {
        assert(disk_rows(a, n)[before.len() as int].get("index"@) == Some(
            JsonV::Unsigned(row as u64),
        ));
    }
}

proof fn storage_names_differ()
    ensures
        "raids"@.len() == 5 && "disks"@.len() == 5 && "raids"@[0] == 'r' && "disks"@[0] == 'd',
        "vol1"@ =~= seq!['v', 'o', 'l', '1'],
        "vol2"@ =~= seq!['v', 'o', 'l', '2'],
        "_alloc_units"@.len() == 12 && "_alloc_units"@[1] == 'a',
        "_size_units"@.len() == 11 && "_size_units"@[1] == 's',
        "_used_units"@.len() == 11 && "_used_units"@[1] == 'u',
        "sys_name"@.len() == 8 && "snmp_uptime_ticks"@.len() == 17
            && "sys_uptime_ticks"@.len() == 16,
        "system_status"@.len() == 13 && "system_temp_c"@.len() == 13 && "model"@.len() == 5,
        "dsm_version"@.len() == 11,
        "system_status"@[7] == 's' && "system_temp_c"@[7] == 't' && "model"@[0] == 'm',
        "dsm_version"@[0] == 'd',
        "system_status"@[0] == 's' && "snmp_uptime_ticks"@[0] == 's'
            && "sys_uptime_ticks"@[0] == 's',
        "sys_name"@[0] == 's' && "system_temp_c"@[0] == 's',
{
    reveal_strlit("raids");
    reveal_strlit("disks");
    reveal_strlit("vol1");
    reveal_strlit("vol2");
    reveal_strlit("_alloc_units");
    reveal_strlit("_size_units");
    reveal_strlit("_used_units");
    reveal_strlit("sys_name");
    reveal_strlit("snmp_uptime_ticks");
    reveal_strlit("sys_uptime_ticks");
    reveal_strlit("system_status");
    reveal_strlit("system_temp_c");
    reveal_strlit("model");
    reveal_strlit("dsm_version");
}

proof fn nas_keeps(
    m: Map<Seq<char>, JsonV>,
    vol1: Option<(i64, i64, i64)>,
    vol2: Option<(i64, i64, i64)>,
    key: Seq<char>,
)
    requires
        key.len() > 0,
        key[0] != 'v',
    ensures
        with_volume(with_volume(m, "vol1"@, vol1), "vol2"@, vol2).dom().contains(key)
            == m.dom().contains(key),
        m.dom().contains(key) ==> with_volume(with_volume(m, "vol1"@, vol1), "vol2"@, vol2)[key]
            == m[key],
{
    storage_names_differ();
    assert(("vol1"@ + "_alloc_units"@)[0] == 'v');
    assert(("vol1"@ + "_size_units"@)[0] == 'v');
    assert(("vol1"@ + "_used_units"@)[0] == 'v');
    assert(("vol2"@ + "_alloc_units"@)[0] == 'v');
    assert(("vol2"@ + "_size_units"@)[0] == 'v');
    assert(("vol2"@ + "_used_units"@)[0] == 'v');
}

proof fn nas_system_figures(a: Seq<Option<Seq<u8>>>, n: i64)
    ensures
        ups::answer_number(a[1]) == Some(n) ==> nas_system(a).dom().contains("snmp_uptime_ticks"@)
            && nas_system(a)["snmp_uptime_ticks"@] == json::integer(n),
        ups::answer_number(a[2]) == Some(n) ==> nas_system(a).dom().contains("sys_uptime_ticks"@)
            && nas_system(a)["sys_uptime_ticks"@] == json::integer(n),
        ups::answer_number(a[3]) == Some(n) ==> nas_system(a).dom().contains("system_status"@)
            && nas_system(a)["system_status"@] == json::integer(n),
        ups::answer_number(a[4]) == Some(n) ==> nas_system(a).dom().contains("system_temp_c"@)
            && nas_system(a)["system_temp_c"@] == json::integer(n),
{
    storage_names_differ();
}

proof fn nas_figure(
    a: Seq<Option<Seq<u8>>>,
    vol1: Option<(i64, i64, i64)>,
    vol2: Option<(i64, i64, i64)>,
    key: Seq<char>,
)
    requires
        key.len() > 5,
        key[0] == 's',
        nas_system(a).dom().contains(key),
    ensures
        nas_outcome(a, vol1, vol2) is Ok,
        nas_outcome(a, vol1, vol2)->Ok_0.get(key) == Some(nas_system(a)[key]),
{
    storage_names_differ();
    let m1 = with_rows(nas_system(a), "raids"@, raid_rows(a, 2));
    let m2 = with_rows(m1, "disks"@, disk_rows(a, 4));
    nas_keeps(m2, vol1, vol2, key);
    assert(m2.dom().contains(key) && m2[key] == nas_system(a)[key]);
    assert(nas_fields(a, vol1, vol2).dom().contains(key));
    assert(!Map::<Seq<char>, JsonV>::empty().dom().contains(key));
}

/// The figures of the storage are those of its answers.
pub proof fn storage_figures_are_its_answers(
    replies: &Vec<Option<Vec<u8>>>,
    vol1: Option<(i64, i64, i64)>,
    vol2: Option<(i64, i64, i64)>,
    n: i64,
    r: Result<Json, String>,
)
    requires
        replies@.len() == NAS_QUERY_COUNT,
        call_ensures(nas_status, (replies, vol1, vol2), r),
    ensures
        ups::says(replies@[1], n) ==> r is Ok && json::integer_at((r->Ok_0)@, "snmp_uptime_ticks"@)
            == Some(n),
        ups::says(replies@[2], n) ==> r is Ok && json::integer_at((r->Ok_0)@, "sys_uptime_ticks"@)
            == Some(n),
        ups::says(replies@[3], n) ==> r is Ok && json::integer_at((r->Ok_0)@, "system_status"@)
            == Some(n),
        ups::says(replies@[4], n) ==> r is Ok && json::integer_at((r->Ok_0)@, "system_temp_c"@)
            == Some(n),
{
    storage_names_differ();
    let a = answers(replies@);
    assert(a[1] == ups::view_bytes(replies@[1]) && a[2] == ups::view_bytes(replies@[2]));
    assert(a[3] == ups::view_bytes(replies@[3]) && a[4] == ups::view_bytes(replies@[4]));
    nas_system_figures(a, n);
    if ups::says(replies@[1], n) {
        nas_figure(a, vol1, vol2, "snmp_uptime_ticks"@);
    }
    if ups::says(replies@[2], n) {
        nas_figure(a, vol1, vol2, "sys_uptime_ticks"@);
    }
    if ups::says(replies@[3], n) {
        nas_figure(a, vol1, vol2, "system_status"@);
    }
    if ups::says(replies@[4], n) {
        nas_figure(a, vol1, vol2, "system_temp_c"@);
    }
}

/// Each of the four disks that tells its temperature has a row with it.
pub proof fn disks_have_their_temperature(
    replies: &Vec<Option<Vec<u8>>>,
    vol1: Option<(i64, i64, i64)>,
    vol2: Option<(i64, i64, i64)>,
    n: i64,
    row: nat,
    r: Result<Json, String>,
)
    requires
        replies@.len() == NAS_QUERY_COUNT,
        row < 4,
        ups::says(replies@[13 + 3 * row as int], n),
        call_ensures(nas_status, (replies, vol1, vol2), r),
    ensures
        r is Ok,
        exists|list: Seq<JsonV>, k: int|
            (r->Ok_0)@.get("disks"@) == Some(JsonV::List(list)) && 0 <= k < list.len()
                && json::integer_at(#[trigger] list[k], "index"@) == Some(row as i64)
                && json::integer_at(list[k], "temp_c"@) == Some(n),
{
    storage_names_differ();
    let a = answers(replies@);
    assert(a[13 + 3 * row as int] == ups::view_bytes(replies@[13 + 3 * row as int]));
    rows_of_disks(a, 4, row);
    let list = disk_rows(a, 4);
    let k = choose|k: int|
        0 <= k < list.len() && (#[trigger] list[k]).get("index"@) == Some(
            JsonV::Unsigned(row as u64),
        ) && list[k].get("temp_c"@) == Some(or_zero(ups::answer_number(a[13 + 3 * row as int])))
            && list[k].get("status"@) == Some(
            or_zero(ups::answer_number(a[12 + 3 * row as int])),
        );
    let m1 = with_rows(nas_system(a), "raids"@, raid_rows(a, 2));
    let m2 = with_rows(m1, "disks"@, list);
    nas_keeps(m2, vol1, vol2, "disks"@);
    assert(nas_fields(a, vol1, vol2).dom().contains("disks"@));
    assert(!Map::<Seq<char>, JsonV>::empty().dom().contains("disks"@));
    assert((r->Ok_0)@.get("disks"@) == Some(JsonV::List(list)));
    assert(json::integer_at(list[k], "index"@) == Some(row as i64));
}

/// Allocation unit, size and use of a volume are reported under its name.
pub proof fn volumes_are_reported_apart(
    replies: &Vec<Option<Vec<u8>>>,
    one: (i64, i64, i64),
    two: (i64, i64, i64),
    r: Result<Json, String>,
)
    requires
        replies@.len() == NAS_QUERY_COUNT,
        call_ensures(nas_status, (replies, Some(one), Some(two)), r),
    ensures
        r is Ok,
        json::integer_at((r->Ok_0)@, "vol1_alloc_units"@) == Some(one.0),
        json::integer_at((r->Ok_0)@, "vol1_size_units"@) == Some(one.1),
        json::integer_at((r->Ok_0)@, "vol1_used_units"@) == Some(one.2),
        json::integer_at((r->Ok_0)@, "vol2_alloc_units"@) == Some(two.0),
        json::integer_at((r->Ok_0)@, "vol2_size_units"@) == Some(two.1),
        json::integer_at((r->Ok_0)@, "vol2_used_units"@) == Some(two.2),
{
    storage_names_differ();
    reveal_strlit("_alloc_units");
    reveal_strlit("_size_units");
    reveal_strlit("_used_units");
    reveal_strlit("vol1_alloc_units");
    reveal_strlit("vol1_size_units");
    reveal_strlit("vol1_used_units");
    reveal_strlit("vol2_alloc_units");
    reveal_strlit("vol2_size_units");
    reveal_strlit("vol2_used_units");
    let a1 = "vol1"@ + "_alloc_units"@;
    let s1 = "vol1"@ + "_size_units"@;
    let u1 = "vol1"@ + "_used_units"@;
    let a2 = "vol2"@ + "_alloc_units"@;
    let s2 = "vol2"@ + "_size_units"@;
    let u2 = "vol2"@ + "_used_units"@;
    assert(a1 =~= "vol1_alloc_units"@ && s1 =~= "vol1_size_units"@ && u1 =~= "vol1_used_units"@);
    assert(a2 =~= "vol2_alloc_units"@ && s2 =~= "vol2_size_units"@ && u2 =~= "vol2_used_units"@);
    assert(a1.len() == 16 && s1.len() == 15 && u1.len() == 15);
    assert(a2.len() == 16 && s2.len() == 15 && u2.len() == 15);
    assert(a1[3] == '1' && s1[3] == '1' && u1[3] == '1');
    assert(a2[3] == '2' && s2[3] == '2' && u2[3] == '2');
    assert(s1[5] == 's' && u1[5] == 'u' && s2[5] == 's' && u2[5] == 'u');
    let a = answers(replies@);
    let m = nas_fields(a, Some(one), Some(two));
    assert(m.dom().contains(a1));
    assert(!Map::<Seq<char>, JsonV>::empty().dom().contains(a1));
}

/// A volume that is found has the figures of its own row, asked for in turn, and it is found at
/// the row whose description is the place where it is mounted.
pub proof fn volumes_are_found_by_their_mount(
    row: u32,
    mount: &str,
    answer: &Option<Vec<u8>>,
    next: VolumeStep,
    n: i64,
    alloc: i64,
    size: i64,
)
    ensures
        call_ensures(VolumeStep::absorb, (&VolumeStep::Descr(row), mount, answer), next) ==> (next
            == VolumeStep::Alloc(row) <==> (*answer is Some && snmp::reply_text(
            (answer->0)@,
        ) is Some && text::trimmed(snmp::reply_text((answer->0)@)->0) == mount@)),
        call_ensures(VolumeStep::absorb, (&VolumeStep::Alloc(row), mount, answer), next)
            && ups::says(*answer, n) ==> next == VolumeStep::Size(row, n),
        call_ensures(VolumeStep::absorb, (&VolumeStep::Size(row, alloc), mount, answer), next)
            && ups::says(*answer, n) ==> next == VolumeStep::Used(row, alloc, n),
        call_ensures(VolumeStep::absorb, (&VolumeStep::Used(row, alloc, size), mount, answer), next)
            && ups::says(*answer, n) ==> next == VolumeStep::Found(alloc, size, n),
{
}

/// The four questions on a row are for its description, allocation unit, size and use: columns
/// 3 to 6 of the table of storage areas.
pub proof fn rows_are_asked_column_by_column(row: u32, a: i64, b: i64)
    ensures
        volume_oid(VolumeStep::Descr(row)) == Some(
            seq![1u32, 3, 6, 1, 2, 1, 25, 2, 3, 1].push(3).push(row),
        ),
        volume_oid(VolumeStep::Alloc(row)) == Some(
            seq![1u32, 3, 6, 1, 2, 1, 25, 2, 3, 1].push(4).push(row),
        ),
        volume_oid(VolumeStep::Size(row, a)) == Some(
            seq![1u32, 3, 6, 1, 2, 1, 25, 2, 3, 1].push(5).push(row),
        ),
        volume_oid(VolumeStep::Used(row, a, b)) == Some(
            seq![1u32, 3, 6, 1, 2, 1, 25, 2, 3, 1].push(6).push(row),
        ),
{
    let base = seq![1u32, 3, 6, 1, 2, 1, 25, 2, 3, 1];
    assert(storage_cell(3, row) =~= base.push(3).push(row));
    assert(storage_cell(4, row) =~= base.push(4).push(row));
    assert(storage_cell(5, row) =~= base.push(5).push(row));
    assert(storage_cell(6, row) =~= base.push(6).push(row));
}

/// What is free is worked out alike whatever the switch is called.
pub proof fn free_power_does_not_depend_on_the_model(
    community: &str,
    replies: &Vec<Option<Vec<u8>>>,
    probe: &str,
    limit: i64,
    used: i64,
    r: Json,
)
    requires
        replies@.len() == POE_QUERY_COUNT,
        ups::says(replies@[4], limit),
        ups::says(replies@[5], used),
        i64::MIN <= limit - used <= i64::MAX,
        call_ensures(poe_status_with, (community, replies, probe), r),
    ensures
        json::integer_at(r@, "poe_power_limit_w"@) == Some(limit),
        json::integer_at(r@, "poe_power_used_w"@) == Some(used),
        used <= limit ==> json::integer_at(r@, "poe_power_free_w"@) is Some && json::integer_at(
            r@,
            "poe_power_free_w"@,
        )->0 + used == limit,
        used > limit ==> json::integer_at(r@, "poe_power_free_w"@) == Some(0i64),
{
    power_names_differ();
    let a = answers(replies@);
    assert(a[4] == ups::view_bytes(replies@[4]) && a[5] == ups::view_bytes(replies@[5]));
    assert(first_number(a[4], a[7]) == Some(limit));
    assert(first_number(a[5], a[8]) == Some(used));
}

/// A device is asked with the community and at the port that are given, or else with the usual
/// ones.
pub proof fn given_access_is_used(c: String, p: u16, a: String, b: String, x: u16, y: u16)
    requires
        call_ensures(community_or_default, (Some(c),), a),
        call_ensures(community_or_default, (None::<String>,), b),
        call_ensures(port_or_default, (Some(p),), x),
        call_ensures(port_or_default, (None::<u16>,), y),
    ensures
        a@ == c@,
        b@ == "projektil"@,
        x == p,
        y == 161,
{
}

/// The figures of a volume are known only when all of them were read; until then the search asks
/// for the next column of its row.
pub proof fn volumes_are_complete_when_found(
    row: u32,
    alloc: i64,
    size: i64,
    used: i64,
    first: VolumeStep,
    found: Option<(i64, i64, i64)>,
    open: Option<(i64, i64, i64)>,
    asked: Option<Vec<u32>>,
    ended: Option<Vec<u32>>,
)
    requires
        call_ensures(VolumeStep::start, (), first),
        call_ensures(VolumeStep::usage, (&VolumeStep::Found(alloc, size, used),), found),
        call_ensures(VolumeStep::usage, (&VolumeStep::Used(row, alloc, size),), open),
        call_ensures(VolumeStep::next_oid, (&VolumeStep::Used(row, alloc, size),), asked),
        call_ensures(VolumeStep::next_oid, (&VolumeStep::Found(alloc, size, used),), ended),
    ensures
        first == VolumeStep::Descr(1),
        found == Some((alloc, size, used)),
        open is None,
        asked is Some,
        ended is None,
{
}

/// The questions of group 2 are put only where those of group 1 were not answered.
pub proof fn group_two_is_asked_in_silence(
    i: usize,
    replies: &Vec<Option<Vec<u8>>>,
    n: i64,
    r: bool,
)
    requires
        i < POE_QUERY_COUNT,
        replies@.len() == i,
        call_ensures(poe_is_asked, (i, replies), r),
    ensures
        i < 6 ==> r,
        i >= 6 && ups::says(replies@[i - 3], n) ==> !r,
        i >= 6 && ups::says_nothing(replies@[i - 3]) ==> r,
{
    if i >= 6 {
        assert(answers(replies@)[i - 3] == ups::view_bytes(replies@[i - 3]));
    }
}

} // verus!

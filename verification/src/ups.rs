//! The uninterruptible power supply: which objects are asked for, in what order, and what the
//! answers mean.

use vstd::prelude::*;
use vstd::string::*;

use crate::json;
use crate::json::{Json, JsonV};
use crate::numerals;
use crate::snmp;
use crate::strmap::StrMap;
use crate::text;

verus! {

/// The community of the device.
pub const COMMUNITY: &'static str = "projektil";

/// An object of the APC enterprise branch.
pub open spec fn apc_oid(a: u32, b: u32, c: u32) -> Seq<u32> {
    seq![1u32, 3, 6, 1, 4, 1, 318, 1, 1, 1, a, b, c, 0]
}

/// A column of a row of the output table of the standard UPS branch.
pub open spec fn output_oid(column: u32, row: u32) -> Seq<u32> {
    seq![1u32, 3, 6, 1, 2, 1, 33, 1, 4, 4, 1, column, row]
}

fn apc(a: u32, b: u32, c: u32) -> (r: Vec<u32>)
    ensures
        r@ == apc_oid(a, b, c),
{
    vec![1, 3, 6, 1, 4, 1, 318, 1, 1, 1, a, b, c, 0]
}

fn output(column: u32, row: u32) -> (r: Vec<u32>)
    ensures
        r@ == output_oid(column, row),
{
    vec![1, 3, 6, 1, 2, 1, 33, 1, 4, 4, 1, column, row]
}

pub const QUERY_COUNT: usize = 23;

/// The values that make up the status: the name of each and the object that holds it.
pub open spec fn query(i: usize) -> (Seq<char>, Seq<u32>) {
    match i {
        0 => ("bat_status"@, apc_oid(2, 1, 1)),
        1 => ("runtime_ticks"@, apc_oid(2, 2, 3)),
        2 => ("bat_capacity"@, apc_oid(2, 3, 1)),
        3 => ("bat_temp"@, apc_oid(2, 3, 2)),
        4 => ("bat_temp_adv"@, apc_oid(2, 2, 2)),
        5 => ("bat_temp_basic"@, apc_oid(2, 1, 2)),
        6 => ("bat_temp_internal"@, apc_oid(4, 1, 4)),
        7 => ("replace_bat"@, apc_oid(2, 2, 4)),
        8 => ("bat_ok"@, apc_oid(2, 2, 5)),
        9 => ("input_voltage"@, apc_oid(3, 2, 1)),
        10 => ("input_freq"@, apc_oid(3, 2, 4)),
        11 => ("output_v"@, apc_oid(3, 3, 1)),
        12 => ("output_load_mib"@, apc_oid(3, 3, 3)),
        13 => ("hp_output_load"@, apc_oid(4, 3, 3)),
        14 => ("rfc_output_percent_load_0"@, output_oid(5, 0)),
        15 => ("rfc_output_percent_load_1"@, output_oid(5, 1)),
        16 => ("apc_output_load_1"@, apc_oid(4, 2, 4)),
        17 => ("apc_output_load_2"@, apc_oid(4, 2, 5)),
        18 => ("apc_output_load_3"@, apc_oid(4, 2, 6)),
        19 => ("hp_output_current"@, apc_oid(4, 3, 4)),
        20 => ("output_current"@, apc_oid(3, 3, 4)),
        21 => ("output_status"@, apc_oid(4, 1, 1)),
        _ => ("output_online"@, apc_oid(4, 1, 2)),
    }
}

pub fn query_at(i: usize) -> (r: (String, Vec<u32>))
    ensures
        (r.0@, r.1@) == query(i),
{
    match i {
        0 => ("bat_status".to_owned(), apc(2, 1, 1)),
        1 => ("runtime_ticks".to_owned(), apc(2, 2, 3)),
        2 => ("bat_capacity".to_owned(), apc(2, 3, 1)),
        3 => ("bat_temp".to_owned(), apc(2, 3, 2)),
        4 => ("bat_temp_adv".to_owned(), apc(2, 2, 2)),
        5 => ("bat_temp_basic".to_owned(), apc(2, 1, 2)),
        6 => ("bat_temp_internal".to_owned(), apc(4, 1, 4)),
        7 => ("replace_bat".to_owned(), apc(2, 2, 4)),
        8 => ("bat_ok".to_owned(), apc(2, 2, 5)),
        9 => ("input_voltage".to_owned(), apc(3, 2, 1)),
        10 => ("input_freq".to_owned(), apc(3, 2, 4)),
        11 => ("output_v".to_owned(), apc(3, 3, 1)),
        12 => ("output_load_mib".to_owned(), apc(3, 3, 3)),
        13 => ("hp_output_load".to_owned(), apc(4, 3, 3)),
        14 => ("rfc_output_percent_load_0".to_owned(), output(5, 0)),
        15 => ("rfc_output_percent_load_1".to_owned(), output(5, 1)),
        16 => ("apc_output_load_1".to_owned(), apc(4, 2, 4)),
        17 => ("apc_output_load_2".to_owned(), apc(4, 2, 5)),
        18 => ("apc_output_load_3".to_owned(), apc(4, 2, 6)),
        19 => ("hp_output_current".to_owned(), apc(4, 3, 4)),
        20 => ("output_current".to_owned(), apc(3, 3, 4)),
        21 => ("output_status".to_owned(), apc(4, 1, 1)),
        _ => ("output_online".to_owned(), apc(4, 1, 2)),
    }
}

// ---------------------------------------------------------------------------
// The order of the questions
// ---------------------------------------------------------------------------

/// Where a poll of the device stands: what is asked next.
#[derive(Clone, Copy, Debug, PartialEq, Eq, Structural)]
pub enum UpsPhase {
    /// The state of the battery, which also shows whether the device answers at all.
    FastBattery,
    /// Whether the output is online, for the same purpose.
    FastOnline,
    /// A row of the table of values.
    Query(usize),
    /// The capacity in whole percent.
    Capacity,
    /// The temperature in whole degrees: first the advanced, then the basic object.
    Temperature(bool),
    /// Nothing is left to ask.
    Done,
    /// The device did not answer.
    Silent,
}

/// A poll of the device: where it stands, and the values that came so far.
pub struct UpsPoll {
    pub phase: UpsPhase,
    pub values: StrMap<i64>,
}

/// The object that is asked for in a phase.
pub open spec fn phase_oid(phase: UpsPhase) -> Option<Seq<u32>> {
    match phase {
        UpsPhase::FastBattery => Some(apc_oid(2, 1, 1)),
        UpsPhase::FastOnline => Some(apc_oid(4, 1, 2)),
        UpsPhase::Query(k) => Some(query(k).1),
        UpsPhase::Capacity => Some(apc_oid(2, 2, 1)),
        UpsPhase::Temperature(advanced) => Some(
            if advanced {
                apc_oid(2, 2, 2)
            } else {
                apc_oid(2, 1, 2)
            },
        ),
        UpsPhase::Done => None,
        UpsPhase::Silent => None,
    }
}

pub open spec fn view_oid(o: Option<Vec<u32>>) -> Option<Seq<u32>> {
    match o {
        Some(v) => Some(v@),
        None => None,
    }
}

/// A missing value, or zero.
pub open spec fn zero_or_missing(values: Map<Seq<char>, i64>, key: Seq<char>) -> bool {
    !values.dom().contains(key) || values[key] == 0
}

/// Whether the temperature in tenths of a degree is plausible.
pub open spec fn tenths_plausible(values: Map<Seq<char>, i64>) -> bool {
    values.dom().contains("bat_temp"@) && 50 <= values["bat_temp"@] <= 700
}

pub open spec fn celsius_plausible(c: int) -> bool {
    0 < c <= 70
}

/// The temperature taken from a value in whole degrees, where that is plausible.
pub open spec fn with_celsius(values: Map<Seq<char>, i64>, key: Seq<char>) -> Map<Seq<char>, i64> {
    if values.dom().contains(key) && celsius_plausible(values[key] as int) {
        values.insert("bat_temp"@, (values[key] * 10) as i64)
    } else {
        values
    }
}

/// The values with the temperature taken from the other sensors where it is not plausible.
pub open spec fn settled(values: Map<Seq<char>, i64>) -> Map<Seq<char>, i64> {
    if tenths_plausible(values) {
        values
    } else {
        let internal = with_celsius(values, "bat_temp_internal"@);
        let advanced = with_celsius(internal, "bat_temp_adv"@);
        if zero_or_missing(advanced, "bat_temp"@) {
            with_celsius(advanced, "bat_temp_basic"@)
        } else {
            advanced
        }
    }
}

/// Whether the temperature has to be asked for once more.
pub open spec fn temperature_open(values: Map<Seq<char>, i64>) -> bool {
    !tenths_plausible(values) && zero_or_missing(settled(values), "bat_temp"@)
}

/// Where a poll goes on when the capacity is known.
pub open spec fn to_temperature(values: Map<Seq<char>, i64>) -> (UpsPhase, Map<Seq<char>, i64>) {
    (
        if temperature_open(values) {
            UpsPhase::Temperature(true)
        } else {
            UpsPhase::Done
        },
        settled(values),
    )
}

/// Where a poll goes on from row `k` of the table: at the first row from there whose value is
/// not known yet, and behind the table at the capacity, if that is missing or zero.
pub open spec fn to_query(values: Map<Seq<char>, i64>, k: usize) -> (
    UpsPhase,
    Map<Seq<char>, i64>,
)
    decreases QUERY_COUNT - k,
{
    if k >= QUERY_COUNT {
        if zero_or_missing(values, "bat_capacity"@) {
            (UpsPhase::Capacity, values)
        } else {
            to_temperature(values)
        }
    } else if values.dom().contains(query(k).0) {
        to_query(values, (k + 1) as usize)
    } else {
        (UpsPhase::Query(k), values)
    }
}

/// The values with one more that an answer gave.
pub open spec fn stored(values: Map<Seq<char>, i64>, key: Seq<char>, answer: Option<i64>) -> Map<
    Seq<char>,
    i64,
> {
    match answer {
        Some(n) => values.insert(key, n),
        None => values,
    }
}

/// The number in an answer.
pub open spec fn answer_number(answer: Option<Seq<u8>>) -> Option<i64> {
    match answer {
        Some(bytes) => match snmp::reply_number(bytes) {
            Some(n) => Some(n as i64),
            None => None,
        },
        None => None,
    }
}

/// What an answer, or its absence, makes of a poll.
pub open spec fn poll_step(
    phase: UpsPhase,
    values: Map<Seq<char>, i64>,
    answer: Option<i64>,
) -> (UpsPhase, Map<Seq<char>, i64>) {
    match phase {
        UpsPhase::FastBattery => (
            UpsPhase::FastOnline,
            stored(values, "bat_status"@, answer),
        ),
        UpsPhase::FastOnline => {
            let now = stored(values, "output_online"@, answer);
            if !now.dom().contains("bat_status"@) && !now.dom().contains("output_online"@) {
                (UpsPhase::Silent, now)
            } else {
                to_query(now, 0)
            }
        },
        UpsPhase::Query(k) => if k >= QUERY_COUNT {
            to_query(values, k)
        } else {
            to_query(stored(values, query(k).0, answer), (k + 1) as usize)
        },
        UpsPhase::Capacity => to_temperature(
            match answer {
                Some(n) => values.insert("bat_capacity"@, n.wrapping_mul(10)),
                None => values,
            },
        ),
        UpsPhase::Temperature(advanced) => match answer {
            Some(c) => if celsius_plausible(c as int) {
                (UpsPhase::Done, values.insert("bat_temp"@, (c * 10) as i64))
            } else if advanced {
                (UpsPhase::Temperature(false), values)
            } else {
                (UpsPhase::Done, values)
            },
            None => if advanced {
                (UpsPhase::Temperature(false), values)
            } else {
                (UpsPhase::Done, values)
            },
        },
        UpsPhase::Done => (UpsPhase::Done, values),
        UpsPhase::Silent => (UpsPhase::Silent, values),
    }
}

pub open spec fn view_bytes(o: Option<Vec<u8>>) -> Option<Seq<u8>> {
    match o {
        Some(v) => Some(v@),
        None => None,
    }
}

fn is_zero_or_missing(values: &StrMap<i64>, key: &str) -> (r: bool)
    ensures
        r == zero_or_missing(values@, key@),
{
    match values.get(key) {
        Some(n) => *n == 0,
        None => true,
    }
}

fn take_celsius(values: &mut StrMap<i64>, key: &str)
    ensures
        final(values)@ == with_celsius(old(values)@, key@),
{
    let c: i64 = match values.get(key) {
        Some(n) => *n,
        None => 0,
    };
    if c > 0 && c <= 70 {
        values.insert("bat_temp".to_owned(), c * 10);
    }
}

fn settle(values: &mut StrMap<i64>) -> (open: bool)
    ensures
        final(values)@ == settled(old(values)@),
        open == temperature_open(old(values)@),
{
    let plausible = match values.get("bat_temp") {
        Some(n) => 50 <= *n && *n <= 700,
        None => false,
    };
    if plausible {
        return false;
    }
    take_celsius(values, "bat_temp_internal");
    take_celsius(values, "bat_temp_adv");
    if is_zero_or_missing(values, "bat_temp") {
        take_celsius(values, "bat_temp_basic");
    }
    is_zero_or_missing(values, "bat_temp")
}

/// Reads the number in an answer.
pub fn number_in(answer: &Option<Vec<u8>>) -> (r: Option<i64>)
    ensures
        r == answer_number(view_bytes(*answer)),
{
    match answer {
        Some(bytes) => snmp::extract_snmp_value(bytes.as_slice()),
        None => None,
    }
}

impl UpsPoll {
    /// A poll before its first question.
    pub fn new() -> (r: Self)
        ensures
            r.phase == UpsPhase::FastBattery,
            r.values@ == Map::<Seq<char>, i64>::empty(),
    {
        UpsPoll { phase: UpsPhase::FastBattery, values: StrMap::new() }
    }

    /// The object to ask for next; none when the poll is over.
    pub fn next_oid(&self) -> (r: Option<Vec<u32>>)
        ensures
            view_oid(r) == phase_oid(self.phase),
    {
        match self.phase {
            UpsPhase::FastBattery => Some(apc(2, 1, 1)),
            UpsPhase::FastOnline => Some(apc(4, 1, 2)),
            UpsPhase::Query(k) => Some(query_at(k).1),
            UpsPhase::Capacity => Some(apc(2, 2, 1)),
            UpsPhase::Temperature(advanced) => if advanced {
                Some(apc(2, 2, 2))
            } else {
                Some(apc(2, 1, 2))
            },
            UpsPhase::Done => None,
            UpsPhase::Silent => None,
        }
    }

    fn go_to_temperature(&mut self)
        ensures
            (final(self).phase, final(self).values@) == to_temperature(old(self).values@),
    {
        if settle(&mut self.values) {
            self.phase = UpsPhase::Temperature(true);
        } else {
            self.phase = UpsPhase::Done;
        }
    }

    fn go_to_query(&mut self, from: usize)
        ensures
            (final(self).phase, final(self).values@) == to_query(old(self).values@, from),
    {
        let mut k: usize = from;
        while k < QUERY_COUNT
            invariant
                self.values@ == old(self).values@,
                to_query(old(self).values@, from) == to_query(old(self).values@, k),
            decreases QUERY_COUNT - k,
        {
            let (key, _) = query_at(k);
            if !self.values.contains_key(key.as_str()) {
                self.phase = UpsPhase::Query(k);
                return;
            }
            k += 1;
        }
        if is_zero_or_missing(&self.values, "bat_capacity") {
            self.phase = UpsPhase::Capacity;
        } else {
            self.go_to_temperature();
        }
    }

    /// Takes in the answer to the question, or its absence.
    pub fn absorb(&mut self, answer: &Option<Vec<u8>>)
        ensures
            (final(self).phase, final(self).values@) == poll_step(
                old(self).phase,
                old(self).values@,
                answer_number(view_bytes(*answer)),
            ),
    {
        let number = number_in(answer);
        match self.phase {
            UpsPhase::FastBattery => {
                if let Some(n) = number {
                    self.values.insert("bat_status".to_owned(), n);
                }
                self.phase = UpsPhase::FastOnline;
            },
            UpsPhase::FastOnline => {
                if let Some(n) = number {
                    self.values.insert("output_online".to_owned(), n);
                }
                if !self.values.contains_key("bat_status") && !self.values.contains_key(
                    "output_online",
                ) {
                    self.phase = UpsPhase::Silent;
                } else {
                    self.go_to_query(0);
                }
            },
            UpsPhase::Query(k) => {
                if k >= QUERY_COUNT {
                    self.go_to_query(k);
                } else {
                    if let Some(n) = number {
                        let (key, _) = query_at(k);
                        self.values.insert(key, n);
                    }
                    self.go_to_query(k + 1);
                }
            },
            UpsPhase::Capacity => {
                if let Some(n) = number {
                    self.values.insert("bat_capacity".to_owned(), n.wrapping_mul(10));
                }
                self.go_to_temperature();
            },
            UpsPhase::Temperature(advanced) => {
                let c: i64 = match number {
                    Some(n) => n,
                    None => 0,
                };
                if c > 0 && c <= 70 {
                    self.values.insert("bat_temp".to_owned(), c * 10);
                    self.phase = UpsPhase::Done;
                } else if advanced {
                    self.phase = UpsPhase::Temperature(false);
                } else {
                    self.phase = UpsPhase::Done;
                }
            },
            UpsPhase::Done => {},
            UpsPhase::Silent => {},
        }
    }
}

/// How many questions a poll still asks at most.
pub open spec fn questions_left(phase: UpsPhase) -> nat {
    match phase {
        UpsPhase::FastBattery => 28,
        UpsPhase::FastOnline => 27,
        UpsPhase::Query(k) => if k >= QUERY_COUNT {
            4
        } else {
            (3 + QUERY_COUNT - k) as nat
        },
        UpsPhase::Capacity => 3,
        UpsPhase::Temperature(advanced) => if advanced {
            2
        } else {
            1
        },
        UpsPhase::Done => 0,
        UpsPhase::Silent => 0,
    }
}

proof fn to_query_left(values: Map<Seq<char>, i64>, k: usize)
    ensures
        questions_left(to_query(values, k).0) <= (if k >= QUERY_COUNT {
            3int
        } else {
            3 + QUERY_COUNT - k
        }),
        to_query(values, k).0 != UpsPhase::Silent,
    decreases QUERY_COUNT - k,
{
    if k < QUERY_COUNT && values.dom().contains(query(k).0) {
        to_query_left(values, (k + 1) as usize);
    }
}

/// Every answer, and every answer that fails to come, brings a poll closer to its end: after
/// at most 28 questions it is over.
pub proof fn poll_ends(phase: UpsPhase, values: Map<Seq<char>, i64>, answer: Option<i64>)
    requires
        phase_oid(phase) is Some,
    ensures
        questions_left(poll_step(phase, values, answer).0) < questions_left(phase),
        phase_oid(poll_step(phase, values, answer).0) is None <==> questions_left(
            poll_step(phase, values, answer).0,
        ) == 0,
{
    match phase {
        UpsPhase::FastOnline => {
            to_query_left(stored(values, "output_online"@, answer), 0);
        },
        UpsPhase::Query(k) => {
            if k >= QUERY_COUNT {
                to_query_left(values, k);
            } else {
                to_query_left(stored(values, query(k).0, answer), (k + 1) as usize);
            }
        },
        _ => {},
    }
}

proof fn to_query_keeps(values: Map<Seq<char>, i64>, k: usize, key: Seq<char>)
    requires
        values.dom().contains(key),
    ensures
        to_query(values, k).1.dom().contains(key),
    decreases QUERY_COUNT - k,
{
    if k < QUERY_COUNT && values.dom().contains(query(k).0) {
        to_query_keeps(values, (k + 1) as usize, key);
    }
}

/// No step of a poll loses a value that was already there.
pub proof fn poll_keeps_values(
    phase: UpsPhase,
    values: Map<Seq<char>, i64>,
    answer: Option<i64>,
    key: Seq<char>,
)
    requires
        values.dom().contains(key),
    ensures
        poll_step(phase, values, answer).1.dom().contains(key),
{
    match phase {
        UpsPhase::FastOnline => {
            to_query_keeps(stored(values, "output_online"@, answer), 0, key);
        },
        UpsPhase::Query(k) => {
            if k >= QUERY_COUNT {
                to_query_keeps(values, k, key);
            } else {
                to_query_keeps(stored(values, query(k).0, answer), (k + 1) as usize, key);
            }
        },
        _ => {},
    }
}

/// Whether a device that answered has given one of the two values that show it.
pub open spec fn shows_life(phase: UpsPhase, values: Map<Seq<char>, i64>) -> bool {
    phase == UpsPhase::FastBattery || phase == UpsPhase::FastOnline || phase == UpsPhase::Silent
        || values.dom().contains("bat_status"@) || values.dom().contains("output_online"@)
}

/// A poll goes on past the first two questions only with the state of the battery or of the
/// output, and never loses both.
pub proof fn poll_shows_life(phase: UpsPhase, values: Map<Seq<char>, i64>, answer: Option<i64>)
    requires
        shows_life(phase, values),
    ensures
        shows_life(
            poll_step(phase, values, answer).0,
            poll_step(phase, values, answer).1,
        ),
{
    if phase == UpsPhase::FastOnline {
        let now = stored(values, "output_online"@, answer);
        if now.dom().contains("bat_status"@) {
            to_query_keeps(now, 0, "bat_status"@);
        } else if now.dom().contains("output_online"@) {
            to_query_keeps(now, 0, "output_online"@);
        }
    } else if phase != UpsPhase::FastBattery && phase != UpsPhase::Silent {
        if values.dom().contains("bat_status"@) {
            poll_keeps_values(phase, values, answer, "bat_status"@);
        } else {
            poll_keeps_values(phase, values, answer, "output_online"@);
        }
    }
}

proof fn apc_is_allowed(a: u32, b: u32, c: u32)
    ensures
        snmp::oid_fault(apc_oid(a, b, c)) is None,
{
    let oid = apc_oid(a, b, c);
    assert(oid.take(7) =~= snmp::allowed_root(5));
    assert(snmp::below(oid, snmp::allowed_root(5)));
}

proof fn output_is_allowed(column: u32, row: u32)
    ensures
        snmp::oid_fault(output_oid(column, row)) is None,
{
    let oid = output_oid(column, row);
    assert(oid.take(7) =~= snmp::allowed_root(3));
    assert(snmp::below(oid, snmp::allowed_root(3)));
}

/// Every object that a poll asks for may be asked for.
pub proof fn poll_asks_allowed(phase: UpsPhase)
    requires
        phase_oid(phase) is Some,
    ensures
        snmp::oid_fault(phase_oid(phase)->0) is None,
{
    let oid = phase_oid(phase)->0;
    if oid.len() == 14 {
        apc_is_allowed(oid[10], oid[11], oid[12]);
        assert(oid =~= apc_oid(oid[10], oid[11], oid[12]));
    } else {
        output_is_allowed(oid[11], oid[12]);
        assert(oid =~= output_oid(oid[11], oid[12]));
    }
}

// ---------------------------------------------------------------------------
// The status
// ---------------------------------------------------------------------------

/// The value under a key, and zero where there is none.
pub open spec fn value_or_zero(values: Map<Seq<char>, i64>, key: Seq<char>) -> i64 {
    if values.dom().contains(key) {
        values[key]
    } else {
        0
    }
}

fn get_or_zero(values: &StrMap<i64>, key: &str) -> (r: i64)
    ensures
        r == value_or_zero(values@, key@),
{
    match values.get(key) {
        Some(n) => *n,
        None => 0,
    }
}

/// The output current in tenths of an ampere.
pub open spec fn current_tenths(values: Map<Seq<char>, i64>) -> i64 {
    if values.dom().contains("hp_output_current"@) {
        values["hp_output_current"@]
    } else {
        value_or_zero(values, "output_current"@)
    }
}

/// The voltage in tenths of a volt: the output voltage, in tenths from 1000 up and in whole
/// volts from 100 to 300; else the input voltage from 100 to 300 volts; else 230 volts.
pub open spec fn voltage_tenths(values: Map<Seq<char>, i64>) -> int {
    let out = value_or_zero(values, "output_v"@);
    let inp = value_or_zero(values, "input_voltage"@);
    if out >= 1000 {
        out as int
    } else if 100 <= out <= 300 {
        out * 10
    } else if 100 <= inp <= 300 {
        inp * 10
    } else {
        2300
    }
}

/// Current and voltage that the load is calculated from, both in tenths.
pub fn load_inputs(values: &StrMap<i64>) -> (r: (i64, i64))
    ensures
        r.0 == current_tenths(values@),
        r.1 == voltage_tenths(values@),
{
    let current = match values.get("hp_output_current") {
        Some(n) => *n,
        None => get_or_zero(values, "output_current"),
    };
    let out = get_or_zero(values, "output_v");
    let inp = get_or_zero(values, "input_voltage");
    let volts: i64 = if out >= 1000 {
        out
    } else if 100 <= out && out <= 300 {
        out * 10
    } else if 100 <= inp && inp <= 300 {
        inp * 10
    } else {
        2300
    };
    (current, volts)
}

/// A load in percent out of a raw value whose scale is guessed from its size.
pub open spec fn load_percent(raw: int) -> int {
    if raw <= 0 {
        0
    } else if raw <= 100 {
        raw
    } else if raw <= 1000 {
        raw / 10
    } else if raw <= 10000 {
        raw / 100
    } else {
        raw / 10
    }
}

pub fn normalize_ups_load_percent(raw: i64) -> (r: i64)
    ensures
        r == load_percent(raw as int),
{
    if raw <= 0 {
        return 0;
    }
    if raw <= 100 {
        return raw;
    }
    if raw <= 1000 {
        return raw / 10;
    }
    if raw <= 10000 {
        return raw / 100;
    }
    raw / 10
}

/// The limits that the warnings go by.
pub struct UpsThresholds {
    pub load_warn: i64,
    pub v_min: i64,
    pub v_max: i64,
}

pub open spec fn load_warn_of(cfg: JsonV) -> i64 {
    match cfg.get2("thresholds"@, "ups_load_warn"@) {
        Some(v) => match v.as_integer() {
            Some(n) => n,
            None => 80,
        },
        None => 80,
    }
}

/// The load in percent from which on a warning is due.
pub fn load_warning_limit(cfg: &Json) -> (r: i64)
    ensures
        r == load_warn_of(cfg@),
{
    match cfg.get2("thresholds", "ups_load_warn") {
        Some(v) => match v.as_i64() {
            Some(n) => n,
            None => 80,
        },
        None => 80,
    }
}

pub open spec fn noted(list: Seq<Seq<char>>, when: bool, s: Seq<char>) -> Seq<Seq<char>> {
    if when {
        list.push(s)
    } else {
        list
    }
}

pub open spec fn battery_warnings(status: i64) -> Seq<Seq<char>> {
    if status == 3 {
        seq![
            "⚠ BATTERIE MODE AKTIVIERT - UPS AUF BATTERIE!"@,
            "BATTERIE NIEDRIG (bat_status=3)"@,
        ]
    } else if status == 4 {
        seq!["🚨 BATTERIE FEHLER (bat_status=4)"@]
    } else if status != 2 && status != 0 {
        seq!["UNBEKANNTER BATTERIE-STATUS: "@ + numerals::dec_int(status as int)]
    } else {
        Seq::empty()
    }
}

/// The warnings that values call for. `hot` is the battery temperature in degrees as text.
pub open spec fn ups_warnings(
    values: Map<Seq<char>, i64>,
    load_warn: i64,
    v_min: i64,
    v_max: i64,
    hot: Seq<char>,
) -> Seq<Seq<char>> {
    let load = load_percent(value_or_zero(values, "output_load"@) as int);
    let online = value_or_zero(values, "output_online"@);
    let input = value_or_zero(values, "input_voltage"@);
    let runtime = value_or_zero(values, "runtime_ticks"@);
    let secs = runtime / 100;
    let w0 = battery_warnings(value_or_zero(values, "bat_status"@));
    let w1 = noted(
        w0,
        value_or_zero(values, "bat_ok"@) == 0,
        "bat_ok = 0 (Batterie nicht OK)"@,
    );
    let w2 = noted(
        w1,
        load >= load_warn,
        "UPS LAST "@ + numerals::dec_int(load) + "% (Warnschwelle "@ + numerals::dec_int(
            load_warn as int,
        ) + "%)"@,
    );
    let w3 = noted(
        w2,
        online != 1,
        "⚠ OUTPUT nicht online (output_online="@ + numerals::dec_int(online as int) + ")"@,
    );
    let w4 = noted(
        w3,
        input > 0 && (input < v_min || input > v_max),
        "UPS EINGANGSSPANNUNG "@ + numerals::dec_int(input as int) + "V ausserhalb Normal ("@
            + numerals::dec_int(v_min as int) + " - "@ + numerals::dec_int(v_max as int) + "V)"@,
    );
    let w5 = noted(
        w4,
        0 < runtime < 30000,
        "UPS LAUFZEIT NUR "@ + numerals::dec_int(secs / 60) + "min "@ + numerals::dec_int(secs % 60)
            + "sec"@,
    );
    let w6 = noted(
        w5,
        value_or_zero(values, "bat_temp"@) > 450,
        "UPS BATTERIE ÜBERHITZUNG: "@ + hot + "°C"@,
    );
    noted(
        w6,
        value_or_zero(values, "replace_bat"@) == 2,
        "UPS MELDET: BATTERIE TAUSCHEN!"@,
    )
}

/// Appends a text to a list of texts.
pub fn note(list: &mut Vec<String>, s: String)
    ensures
        text::texts(final(list)@) == text::texts(old(list)@).push(s@),
{
    list.push(s);
    proof {
        assert(text::texts(list@) =~= text::texts(old(list)@).push(s@));
    }
}

fn battery_notes(status: i64) -> (r: Vec<String>)
    ensures
        text::texts(r@) == battery_warnings(status),
{
    let mut w: Vec<String> = Vec::new();
    if status == 3 {
        note(&mut w, "⚠ BATTERIE MODE AKTIVIERT - UPS AUF BATTERIE!".to_owned());
        note(&mut w, "BATTERIE NIEDRIG (bat_status=3)".to_owned());
    } else if status == 4 {
        note(&mut w, "🚨 BATTERIE FEHLER (bat_status=4)".to_owned());
    } else if status != 2 && status != 0 {
        note(
            &mut w,
            text::glue("UNBEKANNTER BATTERIE-STATUS: ", numerals::dec_i64(status).as_str()),
        );
    }
    proof {
        assert(text::texts(w@) =~= battery_warnings(status));
    }
    w
}

/// Lists the warnings that the values of a poll call for.
pub fn check_ups_anomalies(data: &StrMap<i64>, t: &UpsThresholds, hot: &str) -> (r: Vec<String>)
    ensures
        text::texts(r@) == ups_warnings(data@, t.load_warn, t.v_min, t.v_max, hot@),
{
    let mut w = battery_notes(get_or_zero(data, "bat_status"));
    if get_or_zero(data, "bat_ok") == 0 {
        note(&mut w, "bat_ok = 0 (Batterie nicht OK)".to_owned());
    }
    let load = normalize_ups_load_percent(get_or_zero(data, "output_load"));
    if load >= t.load_warn {
        let mut s = text::glue3("UPS LAST ", numerals::dec_i64(load).as_str(), "% (Warnschwelle ");
        s.append(numerals::dec_i64(t.load_warn).as_str());
        s.append("%)");
        note(&mut w, s);
    }
    let online = get_or_zero(data, "output_online");
    if online != 1 {
        note(
            &mut w,
            text::glue3(
                "⚠ OUTPUT nicht online (output_online=",
                numerals::dec_i64(online).as_str(),
                ")",
            ),
        );
    }
    let input = get_or_zero(data, "input_voltage");
    if input > 0 && (input < t.v_min || input > t.v_max) {
        let mut s = text::glue3(
            "UPS EINGANGSSPANNUNG ",
            numerals::dec_i64(input).as_str(),
            "V ausserhalb Normal (",
        );
        s.append(numerals::dec_i64(t.v_min).as_str());
        s.append(" - ");
        s.append(numerals::dec_i64(t.v_max).as_str());
        s.append("V)");
        note(&mut w, s);
    }
    let runtime = get_or_zero(data, "runtime_ticks");
    if runtime > 0 && runtime < 30000 {
        let secs: i64 = runtime / 100;
        let mut s = text::glue3(
            "UPS LAUFZEIT NUR ",
            numerals::dec_i64(secs / 60).as_str(),
            "min ",
        );
        s.append(numerals::dec_i64(secs % 60).as_str());
        s.append("sec");
        note(&mut w, s);
    }
    if get_or_zero(data, "bat_temp") > 450 {
        note(&mut w, text::glue3("UPS BATTERIE ÜBERHITZUNG: ", hot, "°C"));
    }
    if get_or_zero(data, "replace_bat") == 2 {
        note(&mut w, "UPS MELDET: BATTERIE TAUSCHEN!".to_owned());
    }
    w
}

/// Numbers as the fields of an object.
pub open spec fn number_fields(values: Map<Seq<char>, i64>) -> Map<Seq<char>, JsonV> {
    Map::new(|k: Seq<char>| values.dom().contains(k), |k: Seq<char>| json::integer(values[k]))
}

/// An object with the given numbers.
pub fn numbers_object(values: &StrMap<i64>) -> (r: StrMap<Json>)
    ensures
        json::fields(r) == number_fields(values@),
{
    let mut out = json::empty_object();
    let mut i: usize = 0;
    proof {
        assert(json::fields(out) =~= number_fields(Map::empty()));
    }
    while i < values.entries.len()
        invariant
            i <= values.entries@.len(),
            json::fields(out) == number_fields(crate::strmap::assoc(values.entries@.take(i as int))),
        decreases values.entries@.len() - i,
    {
        json::put(&mut out, values.entries[i].0.as_str(), json::number(values.entries[i].1));
        proof {
            let before = values.entries@.take(i as int);
            assert(values.entries@.take(i + 1).drop_last() =~= before);
            let e = values.entries@[i as int];
            assert(number_fields(crate::strmap::assoc(before).insert(e.0@, e.1)) =~= number_fields(
                crate::strmap::assoc(before),
            ).insert(e.0@, json::integer(e.1)));
        }
        i += 1;
    }
    proof {
        assert(values.entries@.take(i as int) =~= values.entries@);
    }
    out
}

/// The values with the load that was calculated.
pub open spec fn with_load(values: Map<Seq<char>, i64>, watts: i64, load: i64) -> Map<
    Seq<char>,
    i64,
> {
    values.insert("output_load"@, load).insert("output_load_estimated_watts"@, watts)
}

/// The status of the device as an object.
pub open spec fn ups_report(
    values: Map<Seq<char>, i64>,
    watts: i64,
    load: i64,
    load_warn: i64,
    v_min: i64,
    v_max: i64,
    hot: Seq<char>,
) -> JsonV {
    let all = with_load(values, watts, load);
    JsonV::Object(
        number_fields(all).insert(
            "output_load_source"@,
            JsonV::Text("calculated_from_current_voltage"@),
        ).insert(
            "warnings"@,
            json::text_list(ups_warnings(all, load_warn, v_min, v_max, hot)),
        ),
    )
}

/// The status that a poll gives, with the load in watts and in percent that was calculated
/// from its current and voltage.
pub fn ups_status(poll: UpsPoll, watts: i64, load: i64, t: &UpsThresholds, hot: &str) -> (r: Result<
    Json,
    String,
>)
    ensures
        json::view_result(r) == if poll.phase == UpsPhase::Silent {
            Err("UPS antwortet nicht auf SNMP-Abfragen"@)
        } else {
            Ok(
                ups_report(poll.values@, watts, load, t.load_warn, t.v_min, t.v_max, hot@),
            )
        },
{
    if poll.phase == UpsPhase::Silent {
        return Err("UPS antwortet nicht auf SNMP-Abfragen".to_owned());
    }
    let mut values = poll.values;
    values.insert("output_load".to_owned(), load);
    values.insert("output_load_estimated_watts".to_owned(), watts);
    let warnings = check_ups_anomalies(&values, t, hot);
    let mut out = numbers_object(&values);
    json::put(&mut out, "output_load_source", json::text("calculated_from_current_voltage"));
    json::put(&mut out, "warnings", json::texts_to_json(&warnings));
    Ok(Json::Object(out))
}

// ---------------------------------------------------------------------------
// Mains or battery
// ---------------------------------------------------------------------------

/// Whether the device runs on mains: by the state of the output if that tells, then by the
/// state of the battery, then by whether the output is online.
pub open spec fn on_mains(bat: Option<i64>, status: Option<i64>, online: Option<i64>) -> bool {
    if status == Some(3i64) || status == Some(5i64) {
        false
    } else if status == Some(2i64) {
        true
    } else if bat == Some(2i64) {
        true
    } else if bat == Some(3i64) || bat == Some(4i64) {
        false
    } else {
        online == Some(1i64)
    }
}

pub open spec fn power_mode(bat: Option<i64>, status: Option<i64>, online: Option<i64>) -> Result<
    JsonV,
    Seq<char>,
> {
    if bat is None && status is None && online is None {
        Err("UPS antwortet nicht auf SNMP-Abfragen"@)
    } else {
        Ok(
            JsonV::Object(
                Map::<Seq<char>, JsonV>::empty().insert(
                    "on_mains"@,
                    JsonV::Bool(on_mains(bat, status, online)),
                ).insert("bat_status"@, json::integer_or_null(bat)).insert(
                    "output_status"@,
                    json::integer_or_null(status),
                ).insert("output_online"@, json::integer_or_null(online)),
            ),
        )
    }
}

/// The three objects that tell mains from battery: state of the battery, state of the output,
/// output online.
pub open spec fn power_mode_oid(i: usize) -> Seq<u32> {
    match i {
        0 => apc_oid(2, 1, 1),
        1 => apc_oid(4, 1, 1),
        _ => apc_oid(4, 1, 2),
    }
}

pub fn power_mode_query(i: usize) -> (r: Vec<u32>)
    ensures
        r@ == power_mode_oid(i),
{
    match i {
        0 => apc(2, 1, 1),
        1 => apc(4, 1, 1),
        _ => apc(4, 1, 2),
    }
}

fn is(o: Option<i64>, n: i64) -> (r: bool)
    ensures
        r == (o == Some(n)),
{
    match o {
        Some(v) => v == n,
        None => false,
    }
}

/// Decides between mains and battery from three answers.
pub fn ups_power_mode(
    bat_answer: &Option<Vec<u8>>,
    status_answer: &Option<Vec<u8>>,
    online_answer: &Option<Vec<u8>>,
) -> (r: Result<Json, String>)
    ensures
        json::view_result(r) == power_mode(
            answer_number(view_bytes(*bat_answer)),
            answer_number(view_bytes(*status_answer)),
            answer_number(view_bytes(*online_answer)),
        ),
{
    let bat = number_in(bat_answer);
    let status = number_in(status_answer);
    let online = number_in(online_answer);
    if bat.is_none() && status.is_none() && online.is_none() {
        return Err("UPS antwortet nicht auf SNMP-Abfragen".to_owned());
    }
    let mains = if is(status, 3) || is(status, 5) {
        false
    } else if is(status, 2) {
        true
    } else if is(bat, 2) {
        true
    } else if is(bat, 3) || is(bat, 4) {
        false
    } else {
        is(online, 1)
    };
    let mut out = json::empty_object();
    json::put(&mut out, "on_mains", Json::Bool(mains));
    json::put(&mut out, "bat_status", json::number_or_null(bat));
    json::put(&mut out, "output_status", json::number_or_null(status));
    json::put(&mut out, "output_online", json::number_or_null(online));
    Ok(Json::Object(out))
}

// ---------------------------------------------------------------------------
// Diagnostics
// ---------------------------------------------------------------------------

pub const PROBE_COUNT: usize = 38;

/// The objects that a diagnosis asks for, each with a name.
pub open spec fn probe(i: usize) -> (Seq<char>, Seq<u32>) {
    match i {
        0 => ("bat_status"@, apc_oid(2, 1, 1)),
        1 => ("runtime_ticks"@, apc_oid(2, 2, 3)),
        2 => ("bat_capacity"@, apc_oid(2, 3, 1)),
        3 => ("bat_temp"@, apc_oid(2, 3, 2)),
        4 => ("bat_temp_adv"@, apc_oid(2, 2, 2)),
        5 => ("bat_temp_basic"@, apc_oid(2, 1, 2)),
        6 => ("bat_temp_internal"@, apc_oid(4, 1, 4)),
        7 => ("replace_bat"@, apc_oid(2, 2, 4)),
        8 => ("bat_ok"@, apc_oid(2, 2, 5)),
        9 => ("input_voltage"@, apc_oid(3, 2, 1)),
        10 => ("input_freq"@, apc_oid(3, 2, 4)),
        11 => ("output_v"@, apc_oid(3, 3, 1)),
        12 => ("output_current_legacy"@, apc_oid(3, 3, 4)),
        13 => ("output_status"@, apc_oid(4, 1, 1)),
        14 => ("output_online"@, apc_oid(4, 1, 2)),
        15 => ("adv_output_load"@, apc_oid(3, 3, 3)),
        16 => ("adv_output_current"@, apc_oid(3, 3, 4)),
        17 => ("adv_output_active_power"@, apc_oid(3, 3, 8)),
        18 => ("adv_output_apparent_power"@, apc_oid(3, 3, 9)),
        19 => ("hp_output_load"@, apc_oid(4, 3, 3)),
        20 => ("hp_output_current"@, apc_oid(4, 3, 4)),
        21 => ("hp_output_efficiency"@, apc_oid(4, 3, 5)),
        22 => ("hp_output_energy_usage"@, apc_oid(4, 3, 6)),
        23 => ("rfc_output_current_0"@, output_oid(4, 0)),
        24 => ("rfc_output_current_1"@, output_oid(4, 1)),
        25 => ("rfc_output_percent_load_0"@, output_oid(5, 0)),
        26 => ("rfc_output_percent_load_1"@, output_oid(5, 1)),
        27 => ("rfc_output_percent_capacity_0"@, output_oid(6, 0)),
        28 => ("rfc_output_percent_capacity_1"@, output_oid(6, 1)),
        29 => ("apc_output_current_1"@, apc_oid(4, 2, 1)),
        30 => ("apc_output_current_2"@, apc_oid(4, 2, 2)),
        31 => ("apc_output_current_3"@, apc_oid(4, 2, 3)),
        32 => ("apc_output_load_1"@, apc_oid(4, 2, 4)),
        33 => ("apc_output_load_2"@, apc_oid(4, 2, 5)),
        34 => ("apc_output_load_3"@, apc_oid(4, 2, 6)),
        35 => ("ups_output_percent_load_1"@, output_oid(5, 1)),
        36 => ("ups_output_percent_load_2"@, output_oid(5, 2)),
        _ => ("ups_output_percent_load_3"@, output_oid(5, 3)),
    }
}

pub fn probe_at(i: usize) -> (r: (String, Vec<u32>))
    ensures
        (r.0@, r.1@) == probe(i),
{
    match i {
        0 => ("bat_status".to_owned(), apc(2, 1, 1)),
        1 => ("runtime_ticks".to_owned(), apc(2, 2, 3)),
        2 => ("bat_capacity".to_owned(), apc(2, 3, 1)),
        3 => ("bat_temp".to_owned(), apc(2, 3, 2)),
        4 => ("bat_temp_adv".to_owned(), apc(2, 2, 2)),
        5 => ("bat_temp_basic".to_owned(), apc(2, 1, 2)),
        6 => ("bat_temp_internal".to_owned(), apc(4, 1, 4)),
        7 => ("replace_bat".to_owned(), apc(2, 2, 4)),
        8 => ("bat_ok".to_owned(), apc(2, 2, 5)),
        9 => ("input_voltage".to_owned(), apc(3, 2, 1)),
        10 => ("input_freq".to_owned(), apc(3, 2, 4)),
        11 => ("output_v".to_owned(), apc(3, 3, 1)),
        12 => ("output_current_legacy".to_owned(), apc(3, 3, 4)),
        13 => ("output_status".to_owned(), apc(4, 1, 1)),
        14 => ("output_online".to_owned(), apc(4, 1, 2)),
        15 => ("adv_output_load".to_owned(), apc(3, 3, 3)),
        16 => ("adv_output_current".to_owned(), apc(3, 3, 4)),
        17 => ("adv_output_active_power".to_owned(), apc(3, 3, 8)),
        18 => ("adv_output_apparent_power".to_owned(), apc(3, 3, 9)),
        19 => ("hp_output_load".to_owned(), apc(4, 3, 3)),
        20 => ("hp_output_current".to_owned(), apc(4, 3, 4)),
        21 => ("hp_output_efficiency".to_owned(), apc(4, 3, 5)),
        22 => ("hp_output_energy_usage".to_owned(), apc(4, 3, 6)),
        23 => ("rfc_output_current_0".to_owned(), output(4, 0)),
        24 => ("rfc_output_current_1".to_owned(), output(4, 1)),
        25 => ("rfc_output_percent_load_0".to_owned(), output(5, 0)),
        26 => ("rfc_output_percent_load_1".to_owned(), output(5, 1)),
        27 => ("rfc_output_percent_capacity_0".to_owned(), output(6, 0)),
        28 => ("rfc_output_percent_capacity_1".to_owned(), output(6, 1)),
        29 => ("apc_output_current_1".to_owned(), apc(4, 2, 1)),
        30 => ("apc_output_current_2".to_owned(), apc(4, 2, 2)),
        31 => ("apc_output_current_3".to_owned(), apc(4, 2, 3)),
        32 => ("apc_output_load_1".to_owned(), apc(4, 2, 4)),
        33 => ("apc_output_load_2".to_owned(), apc(4, 2, 5)),
        34 => ("apc_output_load_3".to_owned(), apc(4, 2, 6)),
        35 => ("ups_output_percent_load_1".to_owned(), output(5, 1)),
        36 => ("ups_output_percent_load_2".to_owned(), output(5, 2)),
        _ => ("ups_output_percent_load_3".to_owned(), output(5, 3)),
    }
}

/// What became of a question.
pub enum ProbeReply {
    SendFailed,
    NoReply,
    Bytes(Vec<u8>),
}

/// What a diagnosis says of the bytes of a reply.
pub open spec fn decoded_fields(
    entry: Map<Seq<char>, JsonV>,
    name: Seq<char>,
    data: Seq<u8>,
) -> Map<Seq<char>, JsonV> {
    let seen = entry.insert("bytes"@, JsonV::Unsigned(data.len() as u64)).insert(
        "raw_hex"@,
        JsonV::Text(snmp::hex_dump(data)),
    );
    match answer_number(Some(data)) {
        Some(n) => {
            let valued = seen.insert("value"@, json::integer(n)).insert(
                "decoded_kind"@,
                JsonV::Text("integer-like"@),
            );
            if text::has(name, "load"@) {
                valued.insert("load_pct_guess"@, json::integer(load_percent(n as int) as i64))
            } else {
                valued
            }
        },
        None => match snmp::reply_text(data) {
            Some(s) => seen.insert("value"@, JsonV::Text(s)).insert(
                "decoded_kind"@,
                JsonV::Text("octet-string"@),
            ),
            None => seen.insert("error"@, JsonV::Text("decode failed"@)),
        },
    }
}

/// What a diagnosis says of one object.
pub open spec fn diagnosis(name: Seq<char>, oid: Seq<u32>, reply: ProbeReply) -> JsonV {
    let entry = Map::<Seq<char>, JsonV>::empty().insert("name"@, JsonV::Text(name)).insert(
        "oid"@,
        JsonV::Text(snmp::dotted(oid)),
    );
    JsonV::Object(
        match reply {
            ProbeReply::SendFailed => entry.insert("error"@, JsonV::Text("send failed"@)),
            ProbeReply::NoReply => entry.insert("error"@, JsonV::Text("timeout/no response"@)),
            ProbeReply::Bytes(data) => decoded_fields(entry, name, data@),
        },
    )
}

/// Says what became of one question of a diagnosis.
pub fn diagnose(name: &str, oid: &Vec<u32>, reply: &ProbeReply) -> (r: Json)
    ensures
        r@ == diagnosis(name@, oid@, *reply),
{
    let mut entry = json::empty_object();
    json::put(&mut entry, "name", json::text(name));
    json::put(&mut entry, "oid", Json::Text(snmp::oid_to_string(oid.as_slice())));
    match reply {
        ProbeReply::SendFailed => {
            json::put(&mut entry, "error", json::text("send failed"));
        },
        ProbeReply::NoReply => {
            json::put(&mut entry, "error", json::text("timeout/no response"));
        },
        ProbeReply::Bytes(data) => {
            json::put(&mut entry, "bytes", Json::Unsigned(data.len() as u64));
            json::put(
                &mut entry,
                "raw_hex",
                Json::Text(snmp::bytes_to_hex_string(data.as_slice())),
            );
            match snmp::extract_snmp_value(data.as_slice()) {
                Some(n) => {
                    json::put(&mut entry, "value", json::number(n));
                    json::put(&mut entry, "decoded_kind", json::text("integer-like"));
                    if text::contains(name, "load") {
                        json::put(
                            &mut entry,
                            "load_pct_guess",
                            json::number(normalize_ups_load_percent(n)),
                        );
                    }
                },
                None => match snmp::extract_snmp_octet_string(data.as_slice()) {
                    Some(s) => {
                        json::put(&mut entry, "value", Json::Text(s));
                        json::put(&mut entry, "decoded_kind", json::text("octet-string"));
                    },
                    None => {
                        json::put(&mut entry, "error", json::text("decode failed"));
                    },
                },
            }
        },
    }
    Json::Object(entry)
}

/// The diagnosis of a device: its address, its community, and what became of each question.
pub open spec fn diagnostics(ip: Seq<char>, replies: Seq<ProbeReply>) -> JsonV {
    JsonV::Object(
        Map::<Seq<char>, JsonV>::empty().insert("ip"@, JsonV::Text(ip)).insert(
            "community"@,
            JsonV::Text(COMMUNITY@),
        ).insert(
            "results"@,
            JsonV::List(
                Seq::new(
                    replies.len(),
                    |i: int| diagnosis(probe(i as usize).0, probe(i as usize).1, replies[i]),
                ),
            ),
        ),
    )
}

/// Puts the diagnosis of a device together from the replies to its questions, in their order.
pub fn ups_diagnostics(ip: &str, replies: &Vec<ProbeReply>) -> (r: Json)
    ensures
        r@ == diagnostics(ip@, replies@),
{
    let mut list: Vec<Json> = Vec::new();
    let mut i: usize = 0;
    while i < replies.len()
        invariant
            i <= replies@.len(),
            list@.len() == i,
            forall|j: int|
                0 <= j < i ==> (#[trigger] list@[j])@ == diagnosis(
                    probe(j as usize).0,
                    probe(j as usize).1,
                    replies@[j],
                ),
        decreases replies@.len() - i,
    {
        let (name, oid) = probe_at(i);
        list.push(diagnose(name.as_str(), &oid, &replies[i]));
        i += 1;
    }
    proof {
        json::list_view_index(list@);
        assert(json::list_view(list@) =~= Seq::new(
            replies@.len(),
            |j: int| diagnosis(probe(j as usize).0, probe(j as usize).1, replies@[j]),
        ));
    }
    let mut out = json::empty_object();
    json::put(&mut out, "ip", json::text(ip));
    json::put(&mut out, "community", json::text(COMMUNITY));
    json::put(&mut out, "results", Json::List(list));
    Json::Object(out)
}

/// Every object of a diagnosis may be asked for.
pub proof fn probes_allowed(i: usize)
    ensures
        snmp::oid_fault(probe(i).1) is None,
{
    let oid = probe(i).1;
    if oid.len() == 14 {
        apc_is_allowed(oid[10], oid[11], oid[12]);
        assert(oid =~= apc_oid(oid[10], oid[11], oid[12]));
    } else {
        output_is_allowed(oid[11], oid[12]);
        assert(oid =~= output_oid(oid[11], oid[12]));
    }
}

// ---------------------------------------------------------------------------
// What the answers mean
// ---------------------------------------------------------------------------

/// The number that an answer gives.
pub open spec fn says(answer: Option<Vec<u8>>, n: i64) -> bool {
    answer matches Some(bytes) && snmp::reply_number(bytes@) == Some(n as int)
}

/// Whether an answer gives no number.
pub open spec fn says_nothing(answer: Option<Vec<u8>>) -> bool {
    match answer {
        Some(bytes) => snmp::reply_number(bytes@) is None,
        None => true,
    }
}

proof fn power_fields_are_found(bat: Option<i64>, status: Option<i64>, online: Option<i64>)
    requires
        bat is Some || status is Some || online is Some,
    ensures
        power_mode(bat, status, online) is Ok,
        power_mode(bat, status, online)->Ok_0.get("on_mains"@) == Some(
            JsonV::Bool(on_mains(bat, status, online)),
        ),
        power_mode(bat, status, online)->Ok_0.get("bat_status"@) == Some(json::integer_or_null(bat)),
        power_mode(bat, status, online)->Ok_0.get("output_status"@) == Some(
            json::integer_or_null(status),
        ),
        power_mode(bat, status, online)->Ok_0.get("output_online"@) == Some(
            json::integer_or_null(online),
        ),
{
    reveal_strlit("on_mains");
    reveal_strlit("bat_status");
    reveal_strlit("output_status");
    reveal_strlit("output_online");
    assert("on_mains"@.len() == 8 && "bat_status"@.len() == 10);
    assert("output_status"@.len() == 13 && "output_online"@.len() == 13);
    assert("output_status"@[7] == 's' && "output_online"@[7] == 'o');
}

/// A device whose output is online runs on mains, and one whose output is on battery or
/// switched off does not, whatever else it says. Where the output says neither, the battery
/// decides, and then whether the output is online. It is silent only where it says nothing.
pub proof fn output_tells_mains_from_battery(
    bat: &Option<Vec<u8>>,
    status: &Option<Vec<u8>>,
    online: &Option<Vec<u8>>,
    r: Result<Json, String>,
)
    requires
        call_ensures(ups_power_mode, (bat, status, online), r),
    ensures
        says(*status, 2) ==> r is Ok && (r->Ok_0)@.get("on_mains"@) == Some(JsonV::Bool(true)),
        says(*status, 3) || says(*status, 5) ==> r is Ok && (r->Ok_0)@.get("on_mains"@) == Some(
            JsonV::Bool(false),
        ),
        says_nothing(*status) && says(*bat, 2) ==> r is Ok && (r->Ok_0)@.get("on_mains"@) == Some(
            JsonV::Bool(true),
        ),
        says_nothing(*status) && (says(*bat, 3) || says(*bat, 4)) ==> r is Ok && (r->Ok_0)@.get(
            "on_mains"@,
        ) == Some(JsonV::Bool(false)),
        says_nothing(*status) && says_nothing(*bat) && says(*online, 1) ==> r is Ok && (
        r->Ok_0)@.get("on_mains"@) == Some(JsonV::Bool(true)),
        forall|n: i64|
            n != 1 && says_nothing(*status) && says_nothing(*bat) && #[trigger] says(*online, n)
                ==> r is Ok && (r->Ok_0)@.get("on_mains"@) == Some(JsonV::Bool(false)),
        r is Err <==> says_nothing(*bat) && says_nothing(*status) && says_nothing(*online),
{
    let b = answer_number(view_bytes(*bat));
    let s = answer_number(view_bytes(*status));
    let o = answer_number(view_bytes(*online));
    if b is Some || s is Some || o is Some {
        power_fields_are_found(b, s, o);
    }
}

/// The three states in a report on the power are those that the answers give.
pub proof fn states_are_reported(
    bat: &Option<Vec<u8>>,
    status: &Option<Vec<u8>>,
    online: &Option<Vec<u8>>,
    n: i64,
    r: Result<Json, String>,
)
    requires
        call_ensures(ups_power_mode, (bat, status, online), r),
    ensures
        says(*bat, n) ==> r is Ok && json::integer_at((r->Ok_0)@, "bat_status"@) == Some(n),
        says(*status, n) ==> r is Ok && json::integer_at((r->Ok_0)@, "output_status"@) == Some(n),
        says(*online, n) ==> r is Ok && json::integer_at((r->Ok_0)@, "output_online"@) == Some(n),
        says_nothing(*bat) && r is Ok ==> (r->Ok_0)@.get("bat_status"@) == Some(JsonV::Null),
        says_nothing(*status) && r is Ok ==> (r->Ok_0)@.get("output_status"@) == Some(JsonV::Null),
        says_nothing(*online) && r is Ok ==> (r->Ok_0)@.get("output_online"@) == Some(JsonV::Null),
{
    let b = answer_number(view_bytes(*bat));
    let s = answer_number(view_bytes(*status));
    let o = answer_number(view_bytes(*online));
    if b is Some || s is Some || o is Some {
        power_fields_are_found(b, s, o);
    }
}

spec fn name_mark(name: Seq<char>) -> int {
    (name.len() * 128 + name[0] as int) * 128 + name.last() as int
}

spec fn query_mark(i: usize) -> int {
    match i {
        0 => 176499,
        1 => 227699,
        2 => 209273,
        3 => 143728,
        4 => 209270,
        5 => 242019,
        6 => 291180,
        7 => 194932,
        8 => 110955,
        9 => 226533,
        10 => 177393,
        11 => 145398,
        12 => 260066,
        13 => 242788,
        14 => 424240,
        15 => 424241,
        16 => 290993,
        17 => 290994,
        18 => 290995,
        19 => 291956,
        20 => 243700,
        21 => 227315,
        _ => 227301,
    }
}

spec fn probe_mark(i: usize) -> int {
    match i {
        0 => 176499,
        1 => 227699,
        2 => 209273,
        3 => 143728,
        4 => 209270,
        5 => 242019,
        6 => 291180,
        7 => 194932,
        8 => 110955,
        9 => 226533,
        10 => 177393,
        11 => 145398,
        12 => 358393,
        13 => 227315,
        14 => 227301,
        15 => 258276,
        16 => 307444,
        17 => 389362,
        18 => 422130,
        19 => 242788,
        20 => 291956,
        21 => 341113,
        22 => 373861,
        23 => 342320,
        24 => 342321,
        25 => 424240,
        26 => 424241,
        27 => 489776,
        28 => 489777,
        29 => 340145,
        30 => 340146,
        31 => 340147,
        32 => 290993,
        33 => 290994,
        34 => 290995,
        35 => 424625,
        36 => 424626,
        _ => 424627,
    }
}

proof fn query_marks(i: usize)
    requires
        i < QUERY_COUNT,
    ensures
        name_mark(query(i).0) == query_mark(i),
{
    match i {
        0 => {
            reveal_strlit("bat_status");
        },
        1 => {
            reveal_strlit("runtime_ticks");
        },
        2 => {
            reveal_strlit("bat_capacity");
        },
        3 => {
            reveal_strlit("bat_temp");
        },
        4 => {
            reveal_strlit("bat_temp_adv");
        },
        5 => {
            reveal_strlit("bat_temp_basic");
        },
        6 => {
            reveal_strlit("bat_temp_internal");
        },
        7 => {
            reveal_strlit("replace_bat");
        },
        8 => {
            reveal_strlit("bat_ok");
        },
        9 => {
            reveal_strlit("input_voltage");
        },
        10 => {
            reveal_strlit("input_freq");
        },
        11 => {
            reveal_strlit("output_v");
        },
        12 => {
            reveal_strlit("output_load_mib");
        },
        13 => {
            reveal_strlit("hp_output_load");
        },
        14 => {
            reveal_strlit("rfc_output_percent_load_0");
        },
        15 => {
            reveal_strlit("rfc_output_percent_load_1");
        },
        16 => {
            reveal_strlit("apc_output_load_1");
        },
        17 => {
            reveal_strlit("apc_output_load_2");
        },
        18 => {
            reveal_strlit("apc_output_load_3");
        },
        19 => {
            reveal_strlit("hp_output_current");
        },
        20 => {
            reveal_strlit("output_current");
        },
        21 => {
            reveal_strlit("output_status");
        },
        _ => {
            reveal_strlit("output_online");
        },
    }
}

proof fn probe_marks(i: usize)
    requires
        i < PROBE_COUNT,
    ensures
        name_mark(probe(i).0) == probe_mark(i),
{
    match i {
        0 => {
            reveal_strlit("bat_status");
        },
        1 => {
            reveal_strlit("runtime_ticks");
        },
        2 => {
            reveal_strlit("bat_capacity");
        },
        3 => {
            reveal_strlit("bat_temp");
        },
        4 => {
            reveal_strlit("bat_temp_adv");
        },
        5 => {
            reveal_strlit("bat_temp_basic");
        },
        6 => {
            reveal_strlit("bat_temp_internal");
        },
        7 => {
            reveal_strlit("replace_bat");
        },
        8 => {
            reveal_strlit("bat_ok");
        },
        9 => {
            reveal_strlit("input_voltage");
        },
        10 => {
            reveal_strlit("input_freq");
        },
        11 => {
            reveal_strlit("output_v");
        },
        12 => {
            reveal_strlit("output_current_legacy");
        },
        13 => {
            reveal_strlit("output_status");
        },
        14 => {
            reveal_strlit("output_online");
        },
        15 => {
            reveal_strlit("adv_output_load");
        },
        16 => {
            reveal_strlit("adv_output_current");
        },
        17 => {
            reveal_strlit("adv_output_active_power");
        },
        18 => {
            reveal_strlit("adv_output_apparent_power");
        },
        19 => {
            reveal_strlit("hp_output_load");
        },
        20 => {
            reveal_strlit("hp_output_current");
        },
        21 => {
            reveal_strlit("hp_output_efficiency");
        },
        22 => {
            reveal_strlit("hp_output_energy_usage");
        },
        23 => {
            reveal_strlit("rfc_output_current_0");
        },
        24 => {
            reveal_strlit("rfc_output_current_1");
        },
        25 => {
            reveal_strlit("rfc_output_percent_load_0");
        },
        26 => {
            reveal_strlit("rfc_output_percent_load_1");
        },
        27 => {
            reveal_strlit("rfc_output_percent_capacity_0");
        },
        28 => {
            reveal_strlit("rfc_output_percent_capacity_1");
        },
        29 => {
            reveal_strlit("apc_output_current_1");
        },
        30 => {
            reveal_strlit("apc_output_current_2");
        },
        31 => {
            reveal_strlit("apc_output_current_3");
        },
        32 => {
            reveal_strlit("apc_output_load_1");
        },
        33 => {
            reveal_strlit("apc_output_load_2");
        },
        34 => {
            reveal_strlit("apc_output_load_3");
        },
        35 => {
            reveal_strlit("ups_output_percent_load_1");
        },
        36 => {
            reveal_strlit("ups_output_percent_load_2");
        },
        _ => {
            reveal_strlit("ups_output_percent_load_3");
        },
    }
}

/// No two rows of the table of values have the same name.
pub proof fn values_have_names_of_their_own(
    i: usize,
    j: usize,
    a: (String, Vec<u32>),
    b: (String, Vec<u32>),
)
    requires
        i < j < 23,
        call_ensures(query_at, (i,), a),
        call_ensures(query_at, (j,), b),
    ensures
        a.0@ != b.0@,
{
    query_marks(i);
    query_marks(j);
}

/// A diagnosis asks for the object that a poll reads a value of the same name from.
pub proof fn diagnoses_ask_for_the_polled_objects(
    i: usize,
    k: usize,
    asked: (String, Vec<u32>),
    polled: (String, Vec<u32>),
)
    requires
        i < 38,
        k < 23,
        call_ensures(probe_at, (i,), asked),
        call_ensures(query_at, (k,), polled),
        asked.0@ == polled.0@,
    ensures
        asked.1@ == polled.1@,
{
    probe_marks(i);
    query_marks(k);
}

/// Whether a device runs on mains is told from the objects that a poll reads the state of the
/// battery, the state of the output and whether it is online from.
pub proof fn mains_is_told_from_the_polled_objects(
    k: usize,
    polled: (String, Vec<u32>),
    a: Vec<u32>,
    b: Vec<u32>,
    c: Vec<u32>,
)
    requires
        k < 23,
        call_ensures(query_at, (k,), polled),
        call_ensures(power_mode_query, (0usize,), a),
        call_ensures(power_mode_query, (1usize,), b),
        call_ensures(power_mode_query, (2usize,), c),
    ensures
        polled.0@ == "bat_status"@ ==> a@ == polled.1@,
        polled.0@ == "output_status"@ ==> b@ == polled.1@,
        polled.0@ == "output_online"@ ==> c@ == polled.1@,
{
    query_marks(k);
    query_marks(0);
    query_marks(21);
    query_marks(22);
}

/// The objects that the states are read from: battery, output, output online.
pub proof fn states_are_objects_of_the_vendor(a: Vec<u32>, b: Vec<u32>, c: Vec<u32>)
    requires
        call_ensures(power_mode_query, (0usize,), a),
        call_ensures(power_mode_query, (1usize,), b),
        call_ensures(power_mode_query, (2usize,), c),
    ensures
        a@.take(10) == seq![1u32, 3, 6, 1, 4, 1, 318, 1, 1, 1],
        b@.take(10) == a@.take(10),
        c@.take(10) == a@.take(10),
        a@.skip(10) == seq![2u32, 1, 1, 0],
        b@.skip(10) == seq![4u32, 1, 1, 0],
        c@.skip(10) == seq![4u32, 1, 2, 0],
{
    assert(a@.take(10) =~= seq![1u32, 3, 6, 1, 4, 1, 318, 1, 1, 1]);
    assert(b@.take(10) =~= a@.take(10));
    assert(c@.take(10) =~= a@.take(10));
    assert(a@.skip(10) =~= seq![2u32, 1, 1, 0]);
    assert(b@.skip(10) =~= seq![4u32, 1, 1, 0]);
    assert(c@.skip(10) =~= seq![4u32, 1, 2, 0]);
}

proof fn to_query_keeps_values(values: Map<Seq<char>, i64>, k: usize, key: Seq<char>)
    requires
        values.dom().contains(key),
        key != "bat_temp"@,
    ensures
        to_query(values, k).1.dom().contains(key),
        to_query(values, k).1[key] == values[key],
    decreases QUERY_COUNT - k,
{
    if k < QUERY_COUNT && values.dom().contains(query(k).0) {
        to_query_keeps_values(values, (k + 1) as usize, key);
    }
}

/// The number in an answer is kept under the name of the value that was asked for, and every
/// other value stays; only the temperature may be settled anew.
pub proof fn answers_are_kept_under_their_names(
    k: usize,
    values: Map<Seq<char>, i64>,
    answer: Option<i64>,
    asked: (String, Vec<u32>),
    key: Seq<char>,
)
    requires
        k < 23,
        call_ensures(query_at, (k,), asked),
        key != "bat_temp"@,
    ensures
        phase_oid(UpsPhase::Query(k)) == Some(asked.1@),
        ({
            let after = poll_step(UpsPhase::Query(k), values, answer).1;
            &&& answer is Some && asked.0@ == key ==> after.dom().contains(key) && after[key]
                == answer->0
            &&& values.dom().contains(key) && asked.0@ != key ==> after.dom().contains(key)
                && after[key] == values[key]
            &&& answer is None && values.dom().contains(key) ==> after.dom().contains(key)
                && after[key] == values[key]
        }),
{
    let now = stored(values, query(k).0, answer);
    if now.dom().contains(key) {
        to_query_keeps_values(now, (k + 1) as usize, key);
    }
}

/// The temperature, asked for in whole degrees, is kept in tenths; a capacity in whole percent
/// is kept in tenths.
pub proof fn scales_are_tenths(values: Map<Seq<char>, i64>, advanced: bool, c: i64)
    ensures
        0 < c <= 70 ==> ({
            let after = poll_step(UpsPhase::Temperature(advanced), values, Some(c));
            after.0 == UpsPhase::Done && after.1.dom().contains("bat_temp"@) && after.1["bat_temp"@]
                == 10 * c
        }),
        !(0 < c <= 70) ==> poll_step(UpsPhase::Temperature(advanced), values, Some(c)).1 == values,
        0 <= c <= 100 && tenths_plausible(values) ==> ({
            let after = poll_step(UpsPhase::Capacity, values, Some(c));
            after.0 == UpsPhase::Done && after.1.dom().contains("bat_capacity"@)
                && after.1["bat_capacity"@] == 10 * c && after.1["bat_temp"@] == values["bat_temp"@]
        }),
{
    reveal_strlit("bat_temp");
    reveal_strlit("bat_capacity");
    assert("bat_temp"@.len() != "bat_capacity"@.len());
}

/// What settles the temperature is a plausible value in tenths, or ten times what one of the
/// three sensors says in whole degrees, or nothing.
pub proof fn temperature_comes_from_a_sensor(values: Map<Seq<char>, i64>)
    ensures
        ({
            let after = settled(values);
            &&& values.dom().contains("bat_temp"@) && 50 <= values["bat_temp"@] <= 700 ==> after
                == values
            &&& after.dom().contains("bat_temp"@) && !(values.dom().contains("bat_temp"@)
                && after["bat_temp"@] == values["bat_temp"@]) ==> exists|key: Seq<char>|
                (key == "bat_temp_internal"@ || key == "bat_temp_adv"@ || key == "bat_temp_basic"@)
                    && values.dom().contains(key) && 0 < #[trigger] values[key] <= 70
                    && after["bat_temp"@] == 10 * values[key]
        }),
{
    reveal_strlit("bat_temp");
    reveal_strlit("bat_temp_internal");
    reveal_strlit("bat_temp_adv");
    reveal_strlit("bat_temp_basic");
    assert("bat_temp"@.len() == 8 && "bat_temp_internal"@.len() == 17 && "bat_temp_adv"@.len() == 12
        && "bat_temp_basic"@.len() == 14);
    if !tenths_plausible(values) {
        let internal = with_celsius(values, "bat_temp_internal"@);
        let advanced = with_celsius(internal, "bat_temp_adv"@);
        assert(values.dom().contains("bat_temp_internal"@) ==> internal["bat_temp_internal"@]
            == values["bat_temp_internal"@]);
        assert(values.dom().contains("bat_temp_adv"@) ==> internal["bat_temp_adv"@]
            == values["bat_temp_adv"@]);
        assert(values.dom().contains("bat_temp_basic"@) ==> advanced["bat_temp_basic"@]
            == values["bat_temp_basic"@]);
    }
}

/// The voltage that the load is calculated from is the output voltage where that is plausible,
/// in tenths or whole volts, else the input voltage where that is, else 230 volts. The current
/// is the one of high precision where there is one.
pub proof fn load_goes_by_plausible_values(values: &StrMap<i64>, r: (i64, i64))
    requires
        call_ensures(load_inputs, (values,), r),
    ensures
        r.1 >= 1000,
        values@.dom().contains("output_v"@) && values@["output_v"@] >= 1000 ==> r.1
            == values@["output_v"@],
        values@.dom().contains("output_v"@) && 100 <= values@["output_v"@] <= 300 ==> r.1 == 10
            * values@["output_v"@],
        !values@.dom().contains("output_v"@) && values@.dom().contains("input_voltage"@) && 100
            <= values@["input_voltage"@] <= 300 ==> r.1 == 10 * values@["input_voltage"@],
        !values@.dom().contains("output_v"@) && !values@.dom().contains("input_voltage"@) ==> r.1
            == 2300,
        values@.dom().contains("hp_output_current"@) ==> r.0 == values@["hp_output_current"@],
        !values@.dom().contains("hp_output_current"@) && values@.dom().contains("output_current"@)
            ==> r.0 == values@["output_current"@],
{
}

/// A load in percent stays as it is; one in tenths or hundredths of a percent is rounded down
/// to whole percent; none is negative.
pub proof fn loads_are_percent(raw: i64, r: i64)
    requires
        call_ensures(normalize_ups_load_percent, (raw,), r),
    ensures
        0 <= r,
        raw <= 10000 ==> r <= 100,
        raw <= 0 ==> r == 0,
        0 <= raw <= 100 ==> r == raw,
        100 < raw <= 1000 ==> 10 * r <= raw < 10 * r + 10,
        1000 < raw <= 10000 ==> 100 * r <= raw < 100 * r + 100,
        10000 < raw ==> 10 * r <= raw < 10 * r + 10,
{
}

/// One for a condition that holds.
pub open spec fn one_if(b: bool) -> int {
    if b {
        1
    } else {
        0
    }
}

/// The value of a name, and zero where there is none.
pub open spec fn known(values: StrMap<i64>, name: Seq<char>) -> int {
    if values@.dom().contains(name) {
        values@[name] as int
    } else {
        0
    }
}

/// There is a warning for each fault and for nothing else: a battery that is low (two of them),
/// broken or in an unknown state, one that is not in order, a load at the limit, an output that
/// is not online, an input voltage out of range, less than five minutes left, a battery above
/// 45 degrees, one to be replaced.
pub proof fn every_fault_is_warned_of(
    data: &StrMap<i64>,
    t: &UpsThresholds,
    hot: &str,
    load: i64,
    r: Vec<String>,
)
    requires
        call_ensures(check_ups_anomalies, (data, t, hot), r),
        call_ensures(normalize_ups_load_percent, (known(*data, "output_load"@) as i64,), load),
    ensures
        r@.len() == 2 * one_if(known(*data, "bat_status"@) == 3) + one_if(
            known(*data, "bat_status"@) == 4 || known(*data, "bat_status"@) == 1 || known(
                *data,
                "bat_status"@,
            ) > 4 || known(*data, "bat_status"@) < 0,
        ) + one_if(known(*data, "bat_ok"@) == 0) + one_if(load >= t.load_warn) + one_if(
            known(*data, "output_online"@) != 1,
        ) + one_if(
            known(*data, "input_voltage"@) > 0 && !(t.v_min <= known(*data, "input_voltage"@)
                <= t.v_max),
        ) + one_if(1 <= known(*data, "runtime_ticks"@) <= 5 * 60 * 100 - 1) + one_if(
            known(*data, "bat_temp"@) > 450,
        ) + one_if(known(*data, "replace_bat"@) == 2),
{
    assert(text::texts(r@).len() == r@.len());
}

/// Whether a list of texts has one.
pub open spec fn lists(list: Vec<String>, s: Seq<char>) -> bool {
    text::texts(list@).contains(s)
}

proof fn noted_has(list: Seq<Seq<char>>, due: bool, s: Seq<char>)
    ensures
        due ==> noted(list, due, s).contains(s),
        forall|x: Seq<char>| list.contains(x) ==> #[trigger] noted(list, due, s).contains(x),
{
    if due {
        assert(list.push(s)[list.len() as int] == s);
        assert forall|x: Seq<char>| list.contains(x) implies #[trigger] noted(list, due, s).contains(
            x,
        ) by {
            let i = choose|i: int| 0 <= i < list.len() && list[i] == x;
            assert(list.push(s)[i] == x);
        }
    }
}

/// The faults are warned of in these words.
pub proof fn faults_are_warned_of_in_words(
    data: &StrMap<i64>,
    t: &UpsThresholds,
    hot: &str,
    r: Vec<String>,
)
    requires
        call_ensures(check_ups_anomalies, (data, t, hot), r),
    ensures
        known(*data, "bat_status"@) == 3 ==> lists(
            r,
            "⚠ BATTERIE MODE AKTIVIERT - UPS AUF BATTERIE!"@,
        ) && lists(r, "BATTERIE NIEDRIG (bat_status=3)"@),
        known(*data, "bat_status"@) == 4 ==> lists(r, "🚨 BATTERIE FEHLER (bat_status=4)"@),
        known(*data, "bat_ok"@) == 0 ==> lists(r, "bat_ok = 0 (Batterie nicht OK)"@),
        known(*data, "bat_temp"@) > 450 ==> lists(
            r,
            "UPS BATTERIE ÜBERHITZUNG: "@ + hot@ + "°C"@,
        ),
        known(*data, "replace_bat"@) == 2 ==> lists(r, "UPS MELDET: BATTERIE TAUSCHEN!"@),
        forall|min: int, sec: int|
            0 <= min && 0 <= sec < 60 && known(*data, "runtime_ticks"@) == 100 * (60 * min + sec)
                && min < 5 && min + sec > 0 ==> lists(
                r,
                #[trigger] ("UPS LAUFZEIT NUR "@ + numerals::dec_int(min) + "min "@
                    + numerals::dec_int(sec) + "sec"@),
            ),
{
    let values = data@;
    let hot_text = hot@;
    let load = load_percent(value_or_zero(values, "output_load"@) as int);
    let online = value_or_zero(values, "output_online"@);
    let input = value_or_zero(values, "input_voltage"@);
    let runtime = value_or_zero(values, "runtime_ticks"@);
    let secs = runtime / 100;
    let w0 = battery_warnings(value_or_zero(values, "bat_status"@));
    let t1 = "bat_ok = 0 (Batterie nicht OK)"@;
    let c1 = value_or_zero(values, "bat_ok"@) == 0;
    let w1 = noted(w0, c1, t1);
    let t2 = "UPS LAST "@ + numerals::dec_int(load) + "% (Warnschwelle "@ + numerals::dec_int(
        t.load_warn as int,
    ) + "%)"@;
    let w2 = noted(w1, load >= t.load_warn, t2);
    let t3 = "⚠ OUTPUT nicht online (output_online="@ + numerals::dec_int(online as int) + ")"@;
    let w3 = noted(w2, online != 1, t3);
    let t4 = "UPS EINGANGSSPANNUNG "@ + numerals::dec_int(input as int) + "V ausserhalb Normal ("@
        + numerals::dec_int(t.v_min as int) + " - "@ + numerals::dec_int(t.v_max as int) + "V)"@;
    let c4 = input > 0 && (input < t.v_min || input > t.v_max);
    let w4 = noted(w3, c4, t4);
    let t5 = "UPS LAUFZEIT NUR "@ + numerals::dec_int(secs / 60) + "min "@ + numerals::dec_int(
        secs % 60,
    ) + "sec"@;
    let w5 = noted(w4, 0 < runtime < 30000, t5);
    let t6 = "UPS BATTERIE ÜBERHITZUNG: "@ + hot_text + "°C"@;
    let c6 = value_or_zero(values, "bat_temp"@) > 450;
    let w6 = noted(w5, c6, t6);
    let t7 = "UPS MELDET: BATTERIE TAUSCHEN!"@;
    let c7 = value_or_zero(values, "replace_bat"@) == 2;
    let w7 = noted(w6, c7, t7);
    assert(text::texts(r@) == w7);
    if value_or_zero(values, "bat_status"@) == 3 {
        assert(w0[0] == "⚠ BATTERIE MODE AKTIVIERT - UPS AUF BATTERIE!"@);
        assert(w0[1] == "BATTERIE NIEDRIG (bat_status=3)"@);
    }
    if value_or_zero(values, "bat_status"@) == 4 {
        assert(w0[0] == "🚨 BATTERIE FEHLER (bat_status=4)"@);
    }
    noted_has(w0, c1, t1);
    noted_has(w1, load >= t.load_warn, t2);
    noted_has(w2, online != 1, t3);
    noted_has(w3, c4, t4);
    noted_has(w4, 0 < runtime < 30000, t5);
    noted_has(w5, c6, t6);
    noted_has(w6, c7, t7);
    assert forall|min: int, sec: int|
        0 <= min && 0 <= sec < 60 && known(*data, "runtime_ticks"@) == 100 * (60 * min + sec) && min
            < 5 && min + sec > 0 implies lists(
        r,
        #[trigger] ("UPS LAUFZEIT NUR "@ + numerals::dec_int(min) + "min "@ + numerals::dec_int(sec)
            + "sec"@),
    ) by {
        assert(secs == 60 * min + sec);
        assert(secs / 60 == min);
        assert(secs % 60 == sec);
    }
}

/// A report has the load and the power that were calculated and every value of the poll beside
/// them, and a silent device has none.
pub proof fn reports_hold_the_values(
    poll: UpsPoll,
    watts: i64,
    load: i64,
    t: &UpsThresholds,
    hot: &str,
    key: Seq<char>,
    r: Result<Json, String>,
)
    requires
        call_ensures(ups_status, (poll, watts, load, t, hot), r),
    ensures
        r is Err <==> poll.phase == UpsPhase::Silent,
        r is Ok ==> json::integer_at((r->Ok_0)@, "output_load"@) == Some(load),
        r is Ok ==> json::integer_at((r->Ok_0)@, "output_load_estimated_watts"@) == Some(watts),
        r is Ok && poll.values@.dom().contains(key) && key != "output_load"@ && key
            != "output_load_estimated_watts"@ && key != "output_load_source"@ && key != "warnings"@
            ==> json::integer_at((r->Ok_0)@, key) == Some(poll.values@[key]),
{
    reveal_strlit("output_load");
    reveal_strlit("output_load_estimated_watts");
    reveal_strlit("output_load_source");
    reveal_strlit("warnings");
    assert("output_load"@.len() == 11 && "output_load_estimated_watts"@.len() == 27
        && "output_load_source"@.len() == 18 && "warnings"@.len() == 8);
}

/// A diagnosis holds the name and what came back: an error where nothing did, and else how many
/// bytes and the number in them.
pub proof fn diagnoses_say_what_came_back(
    name: &str,
    oid: &Vec<u32>,
    data: Vec<u8>,
    n: i64,
    unsent: Json,
    silent: Json,
    r: Json,
)
    requires
        call_ensures(diagnose, (name, oid, &ProbeReply::SendFailed), unsent),
        call_ensures(diagnose, (name, oid, &ProbeReply::NoReply), silent),
        call_ensures(diagnose, (name, oid, &ProbeReply::Bytes(data)), r),
    ensures
        unsent@.get("name"@) == Some(JsonV::Text(name@)),
        unsent@.get("error"@) == Some(JsonV::Text("send failed"@)),
        silent@.get("error"@) == Some(JsonV::Text("timeout/no response"@)),
        r@.get("name"@) == Some(JsonV::Text(name@)),
        r@.get("bytes"@) == Some(JsonV::Unsigned(data@.len() as u64)),
        says(Some(data), n) ==> json::integer_at(r@, "value"@) == Some(n)
            && r@.get("error"@) is None,
{
    reveal_strlit("name");
    reveal_strlit("oid");
    reveal_strlit("error");
    reveal_strlit("bytes");
    reveal_strlit("raw_hex");
    reveal_strlit("value");
    reveal_strlit("decoded_kind");
    reveal_strlit("load_pct_guess");
    assert("name"@.len() == 4 && "oid"@.len() == 3 && "raw_hex"@.len() == 7);
    assert("error"@.len() == 5 && "bytes"@.len() == 5 && "value"@.len() == 5);
    assert("error"@[0] == 'e' && "bytes"@[0] == 'b' && "value"@[0] == 'v');
    assert("decoded_kind"@.len() == 12 && "load_pct_guess"@.len() == 14);
}

/// The load is warned of at the limit that is set, and else at eighty percent.
pub proof fn the_load_limit_is_the_one_that_is_set(cfg: &Json, n: u64, r: i64)
    requires
        call_ensures(load_warning_limit, (cfg,), r),
    ensures
        cfg@.get2("thresholds"@, "ups_load_warn"@) == Some(JsonV::Unsigned(n)) && n <= i64::MAX
            ==> r == n,
        cfg@.get2("thresholds"@, "ups_load_warn"@) is None ==> r == 80,
{
}

} // verus!

//! Alerts: which log messages are sent out, how often, and what they say.

use vstd::prelude::*;
use vstd::string::*;

use crate::calendar;
use crate::json;
use crate::json::{Json, JsonV};
use crate::strmap::StrMap;
use crate::text;
use crate::ups;

verus! {

// ---------------------------------------------------------------------------
// What a message is about
// ---------------------------------------------------------------------------

/// Whether one of several texts occurs in a text.
pub open spec fn has_any(s: Seq<char>, list: Seq<Seq<char>>) -> bool {
    exists|i: int| 0 <= i < list.len() && text::has(s, #[trigger] list[i])
}

/// The views of a list of string slices.
pub open spec fn slices(list: Seq<&str>) -> Seq<Seq<char>> {
    Seq::new(list.len(), |i: int| list[i]@)
}

/// Whether one of several texts occurs in a text.
pub fn contains_any(s: &str, list: &Vec<&str>) -> (r: bool)
    ensures
        r == has_any(s@, slices(list@)),
{
    let mut i: usize = 0;
    while i < list.len()
        invariant
            i <= list@.len(),
            forall|j: int| 0 <= j < i ==> !text::has(s@, #[trigger] slices(list@)[j]),
        decreases list@.len() - i,
    {
        if text::contains(s, list[i]) {
            proof {
                assert(text::has(s@, slices(list@)[i as int]));
            }
            return true;
        }
        i += 1;
    }
    false
}

/// The part of the installation that a message is about.
pub open spec fn error_category(message: Seq<char>) -> Seq<char> {
    let m = text::lowered(message);
    if has_any(m, seq!["[ups]"@, "batterie"@, "ups"@]) {
        "ups"@
    } else if has_any(m, seq!["[janitza]"@, "spannung"@, "frequenz"@]) {
        "power"@
    } else if has_any(m, seq!["[pixera"@, "timeline"@, "scheduler"@]) {
        "pixera"@
    } else if has_any(m, seq!["pj-link"@, "projector"@, "projektor"@]) {
        "projector"@
    } else if has_any(m, seq!["cam 0"@, "camera"@]) {
        "camera"@
    } else if text::has(m, "[startup]"@) {
        "startup"@
    } else {
        "system"@
    }
}

fn any3(m: &str, a: &str, b: &str, c: &str) -> (r: bool)
    ensures
        r == has_any(m@, seq![a@, b@, c@]),
{
    let list = vec![a, b, c];
    proof {
        assert(slices(list@) =~= seq![a@, b@, c@]);
    }
    contains_any(m, &list)
}

fn any2(m: &str, a: &str, b: &str) -> (r: bool)
    ensures
        r == has_any(m@, seq![a@, b@]),
{
    let list = vec![a, b];
    proof {
        assert(slices(list@) =~= seq![a@, b@]);
    }
    contains_any(m, &list)
}

/// Tells which part of the installation a message is about.
pub fn classify_error_category(message: &str) -> (r: &'static str)
    ensures
        r@ == error_category(message@),
{
    let lower = text::to_ascii_lowercase(message);
    let m = lower.as_str();
    if any3(m, "[ups]", "batterie", "ups") {
        "ups"
    } else if any3(m, "[janitza]", "spannung", "frequenz") {
        "power"
    } else if any3(m, "[pixera", "timeline", "scheduler") {
        "pixera"
    } else if any3(m, "pj-link", "projector", "projektor") {
        "projector"
    } else if any2(m, "cam 0", "camera") {
        "camera"
    } else if text::contains(m, "[startup]") {
        "startup"
    } else {
        "system"
    }
}

/// A text with its umlauts spelled out.
pub open spec fn umlauts_spelled(s: Seq<char>) -> Seq<char> {
    text::replaced(
        text::replaced(
            text::replaced(text::replaced(s, 'ä', "ae"@), 'ö', "oe"@),
            'ü',
            "ue"@,
        ),
        'ß',
        "ss"@,
    )
}

/// Spells out the umlauts of a text.
pub fn spell_umlauts(s: &str) -> (r: String)
    ensures
        r@ == umlauts_spelled(s@),
{
    let a = text::replace(s, 'ä', "ae");
    let o = text::replace(a.as_str(), 'ö', "oe");
    let u = text::replace(o.as_str(), 'ü', "ue");
    text::replace(u.as_str(), 'ß', "ss")
}

/// A text in small letters with its umlauts spelled out.
pub open spec fn normalized(s: Seq<char>) -> Seq<char> {
    umlauts_spelled(text::unicode_lowercase(s))
}

pub fn normalize_text(input: &str) -> (r: String)
    ensures
        r@ == normalized(input@),
        text::is_ascii_text(input@) ==> r@ == umlauts_spelled(text::lowered(input@)),
{
    spell_umlauts(text::to_lowercase(input).as_str())
}

// ---------------------------------------------------------------------------
// Where the installation is
// ---------------------------------------------------------------------------

pub const PLACE_COUNT: usize = 29;

/// Countries and the words that stand for them: first cities, then names of countries.
pub open spec fn place(i: usize) -> (Seq<char>, Seq<Seq<char>>) {
    match i {
        0 => ("CH"@, seq!["luzern"@, "lucerne"@, "zuerich"@, "zurich"@, "bern"@, "basel"@, "lausanne"@, "lugano"@, "st. gallen"@, "winterthur"@]),
        1 => ("FR"@, seq!["paris"@, "lyon"@, "marseille"@, "toulouse"@, "lille"@, "strasbourg"@]),
        2 => ("DE"@, seq!["berlin"@, "muenchen"@, "munich"@, "hamburg"@, "koeln"@, "cologne"@, "frankfurt"@]),
        3 => ("AT"@, seq!["wien"@, "vienna"@, "salzburg"@, "innsbruck"@, "graz"@, "linz"@]),
        4 => ("IT"@, seq!["roma"@, "rome"@, "milano"@, "milan"@, "florence"@, "firenze"@, "venice"@, "venezia"@]),
        5 => ("ES"@, seq!["madrid"@, "barcelona"@, "sevilla"@, "seville"@, "valencia"@]),
        6 => ("NL"@, seq!["amsterdam"@, "rotterdam"@, "den haag"@, "the hague"@, "utrecht"@]),
        7 => ("BE"@, seq!["brussels"@, "bruessel"@, "bruxelles"@, "antwerp"@, "antwerpen"@, "gent"@, "ghent"@]),
        8 => ("GB"@, seq!["london"@, "manchester"@, "birmingham"@, "edinburgh"@, "glasgow"@]),
        9 => ("CZ"@, seq!["prague"@, "praha"@, "prag"@]),
        10 => ("US"@, seq!["new york"@, "nyc"@, "los angeles"@, "chicago"@]),
        11 => ("CH"@, seq!["schweiz"@, "switzerland"@, "suisse"@, "svizzera"@, " ch "@, " ch,"@]),
        12 => ("DE"@, seq!["deutschland"@, "germany"@, " de "@, " de,"@]),
        13 => ("AT"@, seq!["oesterreich"@, "austria"@, " at "@, " at,"@]),
        14 => ("FR"@, seq!["frankreich"@, "france"@, " fr "@, " fr,"@]),
        15 => ("IT"@, seq!["italien"@, "italy"@, " it "@, " it,"@]),
        16 => ("US"@, seq!["usa"@, "united states"@, " us "@, " us,"@]),
        17 => ("GB"@, seq!["uk"@, "united kingdom"@, "great britain"@, " gb "@, " gb,"@]),
        18 => ("ES"@, seq!["spanien"@, "spain"@, " es "@, " es,"@]),
        19 => ("NL"@, seq!["niederlande"@, "netherlands"@, "holland"@, " nl "@, " nl,"@]),
        20 => ("BE"@, seq!["belgien"@, "belgium"@, " be "@, " be,"@]),
        21 => ("IE"@, seq!["irland"@, "ireland"@, " ie "@, " ie,"@]),
        22 => ("PT"@, seq!["portugal"@, " pt "@, " pt,"@]),
        23 => ("PL"@, seq!["polen"@, "poland"@, " pl "@, " pl,"@]),
        24 => ("CZ"@, seq!["tschechien"@, "czech"@, " cz "@, " cz,"@]),
        25 => ("DK"@, seq!["daenemark"@, "denmark"@, " dk "@, " dk,"@]),
        26 => ("SE"@, seq!["schweden"@, "sweden"@, " se "@, " se,"@]),
        27 => ("NO"@, seq!["norwegen"@, "norway"@, " no "@, " no,"@]),
        _ => ("FI"@, seq!["finnland"@, "finland"@, " fi "@, " fi,"@]),
    }
}

fn place_at(i: usize) -> (r: (&'static str, Vec<&'static str>))
    ensures
        (r.0@, slices(r.1@)) == place(i),
{
    let row: (&'static str, Vec<&'static str>) = match i {
        0 => ("CH", vec!["luzern", "lucerne", "zuerich", "zurich", "bern", "basel", "lausanne", "lugano", "st. gallen", "winterthur"]),
        1 => ("FR", vec!["paris", "lyon", "marseille", "toulouse", "lille", "strasbourg"]),
        2 => ("DE", vec!["berlin", "muenchen", "munich", "hamburg", "koeln", "cologne", "frankfurt"]),
        3 => ("AT", vec!["wien", "vienna", "salzburg", "innsbruck", "graz", "linz"]),
        4 => ("IT", vec!["roma", "rome", "milano", "milan", "florence", "firenze", "venice", "venezia"]),
        5 => ("ES", vec!["madrid", "barcelona", "sevilla", "seville", "valencia"]),
        6 => ("NL", vec!["amsterdam", "rotterdam", "den haag", "the hague", "utrecht"]),
        7 => ("BE", vec!["brussels", "bruessel", "bruxelles", "antwerp", "antwerpen", "gent", "ghent"]),
        8 => ("GB", vec!["london", "manchester", "birmingham", "edinburgh", "glasgow"]),
        9 => ("CZ", vec!["prague", "praha", "prag"]),
        10 => ("US", vec!["new york", "nyc", "los angeles", "chicago"]),
        11 => ("CH", vec!["schweiz", "switzerland", "suisse", "svizzera", " ch ", " ch,"]),
        12 => ("DE", vec!["deutschland", "germany", " de ", " de,"]),
        13 => ("AT", vec!["oesterreich", "austria", " at ", " at,"]),
        14 => ("FR", vec!["frankreich", "france", " fr ", " fr,"]),
        15 => ("IT", vec!["italien", "italy", " it ", " it,"]),
        16 => ("US", vec!["usa", "united states", " us ", " us,"]),
        17 => ("GB", vec!["uk", "united kingdom", "great britain", " gb ", " gb,"]),
        18 => ("ES", vec!["spanien", "spain", " es ", " es,"]),
        19 => ("NL", vec!["niederlande", "netherlands", "holland", " nl ", " nl,"]),
        20 => ("BE", vec!["belgien", "belgium", " be ", " be,"]),
        21 => ("IE", vec!["irland", "ireland", " ie ", " ie,"]),
        22 => ("PT", vec!["portugal", " pt ", " pt,"]),
        23 => ("PL", vec!["polen", "poland", " pl ", " pl,"]),
        24 => ("CZ", vec!["tschechien", "czech", " cz ", " cz,"]),
        25 => ("DK", vec!["daenemark", "denmark", " dk ", " dk,"]),
        26 => ("SE", vec!["schweden", "sweden", " se ", " se,"]),
        27 => ("NO", vec!["norwegen", "norway", " no ", " no,"]),
        _ => ("FI", vec!["finnland", "finland", " fi ", " fi,"]),
    };
    proof {
        assert(slices(row.1@) =~= place(i).1);
    }
    row
}

/// The country of the first row from `i` on of which a word occurs in a text.
pub open spec fn country_from(s: Seq<char>, i: usize) -> Option<Seq<char>>
    decreases PLACE_COUNT - i,
{
    if i >= PLACE_COUNT {
        None
    } else if has_any(s, place(i).1) {
        Some(place(i).0)
    } else {
        country_from(s, (i + 1) as usize)
    }
}

pub open spec fn view_str(o: Option<&str>) -> Option<Seq<char>> {
    match o {
        Some(s) => Some(s@),
        None => None,
    }
}

/// The country that a normalized text names.
pub fn country_in(s: &str) -> (r: Option<&'static str>)
    ensures
        view_str(r) == country_from(s@, 0),
{
    let mut i: usize = 0;
    while i < PLACE_COUNT
        invariant
            i <= PLACE_COUNT,
            country_from(s@, 0) == country_from(s@, i),
        decreases PLACE_COUNT - i,
    {
        let (code, words) = place_at(i);
        if contains_any(s, &words) {
            return Some(code);
        }
        i += 1;
    }
    None
}

/// The country that a location names.
pub fn detect_country_code_from_location(location: &str) -> (r: Option<&'static str>)
    ensures
        view_str(r) == country_from(normalized(location@), 0),
        text::is_ascii_text(location@) ==> view_str(r) == country_from(
            umlauts_spelled(text::lowered(location@)),
            0,
        ),
{
    country_in(normalize_text(location).as_str())
}

pub open spec fn is_capital(c: char) -> bool {
    'A' <= c <= 'Z'
}

/// The regional indicator symbol of a capital.
pub open spec fn indicator(c: char) -> char {
    (0x1F1E6 + (c as u32 - 65)) as char
}

/// The flag of a country code: two letters, in any case and with white space around them.
pub open spec fn flag(code: Seq<char>) -> Option<Seq<char>> {
    let cc = text::raised(text::trimmed(code));
    if cc.len() == 2 && is_capital(cc[0]) && is_capital(cc[1]) {
        Some(seq![indicator(cc[0]), indicator(cc[1])])
    } else {
        None
    }
}

fn indicator_of(c: char) -> (r: char)
    requires
        is_capital(c),
    ensures
        r == indicator(c),
{
    match c {
        'A' => '\u{1f1e6}',
        'B' => '\u{1f1e7}',
        'C' => '\u{1f1e8}',
        'D' => '\u{1f1e9}',
        'E' => '\u{1f1ea}',
        'F' => '\u{1f1eb}',
        'G' => '\u{1f1ec}',
        'H' => '\u{1f1ed}',
        'I' => '\u{1f1ee}',
        'J' => '\u{1f1ef}',
        'K' => '\u{1f1f0}',
        'L' => '\u{1f1f1}',
        'M' => '\u{1f1f2}',
        'N' => '\u{1f1f3}',
        'O' => '\u{1f1f4}',
        'P' => '\u{1f1f5}',
        'Q' => '\u{1f1f6}',
        'R' => '\u{1f1f7}',
        'S' => '\u{1f1f8}',
        'T' => '\u{1f1f9}',
        'U' => '\u{1f1fa}',
        'V' => '\u{1f1fb}',
        'W' => '\u{1f1fc}',
        'X' => '\u{1f1fd}',
        'Y' => '\u{1f1fe}',
        'Z' => '\u{1f1ff}',
        _ => c,
    }
}

pub fn country_code_to_flag_emoji(code: &str) -> (r: Option<String>)
    ensures
        text::view_option(r) == flag(code@),
{
    let cc = text::chars_of(text::to_ascii_uppercase(text::trim(code).as_str()).as_str());
    if cc.len() != 2 {
        return None;
    }
    let a = cc[0];
    let b = cc[1];
    if !('A' <= a && a <= 'Z' && 'A' <= b && b <= 'Z') {
        return None;
    }
    let mut out = String::new();
    out.push(indicator_of(a));
    out.push(indicator_of(b));
    proof {
        assert(out@ =~= seq![indicator(a), indicator(b)]);
    }
    Some(out)
}

/// A location with the flag of its country in front, or a pin where there is none. Where
/// `plain` is set, flags may not be shown, and the code of the country is added.
pub open spec fn location_label(
    location: Seq<char>,
    country: Option<Seq<char>>,
    plain: bool,
) -> Seq<char> {
    let sign = match country {
        Some(cc) => match flag(cc) {
            Some(f) => f,
            None => "📍"@,
        },
        None => "📍"@,
    };
    if plain && country is Some {
        sign + " ["@ + country->0 + "] "@ + location
    } else {
        sign + location
    }
}

/// Labels a location with a country.
pub fn label_with(location: &str, country: Option<&'static str>, plain: bool) -> (r: String)
    ensures
        r@ == location_label(location@, view_str(country), plain),
{
    let sign = match country {
        Some(cc) => match country_code_to_flag_emoji(cc) {
            Some(f) => f,
            None => "📍".to_owned(),
        },
        None => "📍".to_owned(),
    };
    if plain {
        if let Some(cc) = country {
            let mut out = text::glue3(sign.as_str(), " [", cc);
            out.append("] ");
            out.append(location);
            return out;
        }
    }
    text::glue(sign.as_str(), location)
}

pub open spec fn label_of(location: Seq<char>, plain: bool) -> Seq<char> {
    location_label(location, country_from(normalized(location), 0), plain)
}

pub fn format_telegram_location_label(location: &str, plain: bool) -> (r: String)
    ensures
        r@ == label_of(location@, plain),
        text::is_ascii_text(location@) ==> r@ == location_label(
            location@,
            country_from(umlauts_spelled(text::lowered(location@)), 0),
            plain,
        ),
{
    label_with(location, detect_country_code_from_location(location), plain)
}

// ---------------------------------------------------------------------------
// Parts of a message
// ---------------------------------------------------------------------------

/// What follows the word that introduces the remaining runtime.
pub open spec fn runtime_in(message: Seq<char>) -> Option<Seq<char>> {
    match text::found(text::lowered(message), "runtime:"@) {
        Some(i) => {
            let rest = text::trimmed(message.skip(i + "runtime:"@.len()));
            if rest.len() == 0 {
                None
            } else {
                Some(rest)
            }
        },
        None => None,
    }
}

pub fn extract_runtime_from_message(message: &str) -> (r: Option<String>)
    ensures
        text::view_option(r) == runtime_in(message@),
{
    let lower = text::to_ascii_lowercase(message);
    match text::find(lower.as_str(), "runtime:") {
        Some(i) => {
            let v = text::chars_of(message);
            let n = v.len();
            let k = text::chars_of("runtime:").len();
            proof {
                assert(v@.subrange(i + k, n as int) =~= message@.skip(i + k));
            }
            let rest = text::trim(text::text_between(&v, i + k, n).as_str());
            if rest.as_str().is_empty() {
                None
            } else {
                Some(rest)
            }
        },
        None => None,
    }
}

/// A message without the remaining runtime and the dashes before it.
pub open spec fn without_runtime(message: Seq<char>) -> Seq<char> {
    match text::found(text::lowered(message), "runtime:"@) {
        Some(i) => text::trimmed(
            text::without_trailing(text::trimmed(message.take(i)), '-'),
        ),
        None => text::trimmed(message),
    }
}

pub fn strip_runtime_from_message(message: &str) -> (r: String)
    ensures
        r@ == without_runtime(message@),
{
    let lower = text::to_ascii_lowercase(message);
    match text::find(lower.as_str(), "runtime:") {
        Some(i) => {
            let v = text::chars_of(message);
            proof {
                assert(v@.subrange(0, i as int) =~= message@.take(i as int));
            }
            let head = text::trim(text::text_between(&v, 0, i).as_str());
            text::trim(text::trim_trailing(head.as_str(), '-').as_str())
        },
        None => text::trim(message),
    }
}

pub open spec fn is_resolution(message: Seq<char>) -> bool {
    text::begins(text::trimmed_start(message), "[RESOLVED]"@)
}

pub fn is_resolution_message(message: &str) -> (r: bool)
    ensures
        r == is_resolution(message@),
{
    text::starts_with(text::trim_start(message).as_str(), "[RESOLVED]")
}

/// A message without the mark of a resolution.
pub open spec fn without_resolution(message: Seq<char>) -> Seq<char> {
    match text::after_prefix(text::trimmed_start(message), "[RESOLVED]"@) {
        Some(rest) => text::trimmed(rest),
        None => text::trimmed(message),
    }
}

pub fn strip_resolution_prefix(message: &str) -> (r: String)
    ensures
        r@ == without_resolution(message@),
{
    match text::strip_prefix(text::trim_start(message).as_str(), "[RESOLVED]") {
        Some(rest) => text::trim(rest.as_str()),
        None => text::trim(message),
    }
}

// ---------------------------------------------------------------------------
// Which messages are sent
// ---------------------------------------------------------------------------

/// The words that always make a message critical.
pub open spec fn critical_words() -> Seq<Seq<char>> {
    seq!["sofortalarm"@, "akku warnung"@, "akkustand unter 20"@, "ups hat auf batteriebetrieb gewechselt"@, "batterie mode aktiviert"@, "panic:"@, "emergency"@, "ueberfrequenz"@, "unterfrequenz"@, "offline!"@]
}

pub open spec fn alert_section(cfg: JsonV, key: Seq<char>) -> Option<Seq<JsonV>> {
    match cfg.get2("telegram"@, key) {
        Some(v) => v.as_list(),
        None => None,
    }
}

/// An entry of a list as it is compared: trimmed and in small letters.
pub open spec fn entry_text(v: JsonV) -> Option<Seq<char>> {
    match v.as_text() {
        Some(s) => Some(text::lowered(text::trimmed(s))),
        None => None,
    }
}

/// Whether an entry is a word that occurs in a text.
pub open spec fn entry_occurs(v: JsonV, m: Seq<char>) -> bool {
    match entry_text(v) {
        Some(w) => w.len() > 0 && text::has(m, w),
        None => false,
    }
}

/// Whether one of several entries is a word that occurs in a text.
pub open spec fn some_entry_occurs(list: Seq<JsonV>, m: Seq<char>) -> bool {
    exists|i: int| 0 <= i < list.len() && entry_occurs(#[trigger] list[i], m)
}

pub open spec fn is_critical(message: Seq<char>, cfg: JsonV) -> bool {
    let m = text::lowered(message);
    has_any(m, critical_words()) || match alert_section(cfg, "critical_error_keywords"@) {
        Some(list) => some_entry_occurs(list, m),
        None => false,
    }
}

fn critical_word_list() -> (r: Vec<&'static str>)
    ensures
        slices(r@) == critical_words(),
{
    let list: Vec<&'static str> = vec!["sofortalarm", "akku warnung", "akkustand unter 20", "ups hat auf batteriebetrieb gewechselt", "batterie mode aktiviert", "panic:", "emergency", "ueberfrequenz", "unterfrequenz", "offline!"];
    proof {
        assert(slices(list@) =~= critical_words());
    }
    list
}

fn alert_list<'a>(cfg: &'a Json, key: &str) -> (r: Option<&'a Vec<Json>>)
    ensures
        match r {
            Some(v) => alert_section(cfg@, key@) == Some(json::list_view(v@)),
            None => alert_section(cfg@, key@) is None,
        },
{
    match cfg.get2("telegram", key) {
        Some(v) => v.as_array(),
        None => None,
    }
}

fn entry_of(v: &Json) -> (r: Option<String>)
    ensures
        text::view_option(r) == entry_text(v@),
{
    match v.as_str() {
        Some(s) => Some(text::to_ascii_lowercase(text::trim(s).as_str())),
        None => None,
    }
}

/// Whether a message holds a word that makes it critical, built in or configured.
pub fn contains_critical_keyword(message: &str, cfg: &Json) -> (r: bool)
    ensures
        r == is_critical(message@, cfg@),
{
    let m = text::to_ascii_lowercase(message);
    if contains_any(m.as_str(), &critical_word_list()) {
        return true;
    }
    let list = match alert_list(cfg, "critical_error_keywords") {
        Some(list) => list,
        None => {
            return false;
        },
    };
    let ghost entries = json::list_view(list@);
    proof {
        json::list_view_index(list@);
    }
    let mut i: usize = 0;
    while i < list.len()
        invariant
            i <= list@.len(),
            m@ == text::lowered(message@),
            alert_section(cfg@, "critical_error_keywords"@) == Some(entries),
            entries.len() == list@.len(),
            forall|j: int| 0 <= j < entries.len() ==> #[trigger] entries[j] == list@[j]@,
            forall|j: int| 0 <= j < i ==> !entry_occurs(#[trigger] entries[j], m@),
        decreases list@.len() - i,
    {
        if let Some(w) = entry_of(&list[i]) {
            if !w.as_str().is_empty() && text::contains(m.as_str(), w.as_str()) {
                proof {
                    assert(entry_occurs(entries[i as int], m@));
                    assert(some_entry_occurs(entries, m@));
                }
                return true;
            }
        }
        i += 1;
    }
    false
}

/// Whether an entry of the list of events stands for an event.
pub open spec fn entry_enables(v: JsonV, event: Seq<char>) -> bool {
    match entry_text(v) {
        Some(w) => w == event || (text::ends(event, "_offline"@) && w == "offline"@),
        None => false,
    }
}

/// Whether one of several entries stands for an event.
pub open spec fn some_entry_enables(list: Seq<JsonV>, event: Seq<char>) -> bool {
    exists|i: int| 0 <= i < list.len() && entry_enables(#[trigger] list[i], event)
}

/// Whether alerts on an event are wanted: where there is no list, all are.
pub open spec fn event_enabled(cfg: JsonV, event: Seq<char>) -> bool {
    match alert_section(cfg, "alert_events"@) {
        Some(list) => some_entry_enables(list, event),
        None => true,
    }
}

pub fn telegram_event_enabled(cfg: &Json, event_key: &str) -> (r: bool)
    ensures
        r == event_enabled(cfg@, event_key@),
{
    let list = match alert_list(cfg, "alert_events") {
        Some(list) => list,
        None => {
            return true;
        },
    };
    let offline = text::ends_with(event_key, "_offline");
    let ghost entries = json::list_view(list@);
    proof {
        json::list_view_index(list@);
    }
    let mut i: usize = 0;
    while i < list.len()
        invariant
            i <= list@.len(),
            offline == text::ends(event_key@, "_offline"@),
            alert_section(cfg@, "alert_events"@) == Some(entries),
            entries.len() == list@.len(),
            forall|j: int| 0 <= j < entries.len() ==> #[trigger] entries[j] == list@[j]@,
            forall|j: int| 0 <= j < i ==> !entry_enables(#[trigger] entries[j], event_key@),
        decreases list@.len() - i,
    {
        if let Some(w) = entry_of(&list[i]) {
            if text::same(w.as_str(), event_key) || (offline && text::same(w.as_str(), "offline")) {
                proof {
                    assert(entry_enables(entries[i as int], event_key@));
                    assert(some_entry_enables(entries, event_key@));
                }
                return true;
            }
        }
        i += 1;
    }
    false
}

/// A list with an event added where a condition holds and the event is not there yet.
pub open spec fn with_event(list: Seq<Seq<char>>, when: bool, event: Seq<char>) -> Seq<Seq<char>> {
    if when && !list.contains(event) {
        list.push(event)
    } else {
        list
    }
}

/// The devices that a message about something offline names.
pub open spec fn offline_events(list: Seq<Seq<char>>, m: Seq<char>) -> Seq<Seq<char>> {
    let e0 = with_event(list, true, "offline"@);
    let e1 = with_event(e0, text::has(m, "janitza"@), "janitza_offline"@);
    let e2 = with_event(e1, text::has(m, "ups"@), "ups_offline"@);
    let e3 = with_event(e2, text::has(m, "nas"@), "nas_offline"@);
    let e4 = with_event(e3, has_any(m, seq!["poe"@, "switch"@]), "poe_switch_offline"@);
    let e5 = with_event(e4, has_any(m, seq!["rutx"@, "router"@]), "rutx_offline"@);
    with_event(e5, has_any(m, seq!["pixera"@, "director"@, "octo"@]), "pixera_offline"@)
}

/// The events that a normalized message reports; `critical` tells whether it holds a word that
/// makes it critical.
pub open spec fn events_in(m: Seq<char>, critical: bool) -> Seq<Seq<char>> {
    let values = text::has(m, "snmp values"@);
    let e0 = with_event(
        Seq::empty(),
        has_any(m, seq!["missed event"@, "not fired"@, "nicht ausgeloest"@]) || text::has(
            m,
            "nicht ausgelost"@,
        ),
        "trigger_missed"@,
    );
    let e1 = with_event(
        e0,
        has_any(m, seq!["timeline error"@, "ontimelineerror"@]),
        "timeline_error"@,
    );
    let e2 = if has_any(m, seq!["offline!"@, " ist offline"@]) {
        offline_events(e1, m)
    } else {
        e1
    };
    let e3 = with_event(
        e2,
        text::has(m, "snmp-werte von switch"@) || (values && text::has(m, "switch"@)),
        "poe_switch_offline"@,
    );
    let e4 = with_event(
        e3,
        text::has(m, "snmp-werte von router"@) || (values && has_any(m, seq!["router"@, "rutx"@])),
        "rutx_offline"@,
    );
    let e5 = with_event(
        e4,
        text::has(m, "snmp-werte von nas"@) || (values && text::has(m, "nas"@)),
        "nas_offline"@,
    );
    let e6 = with_event(
        e5,
        has_any(m, seq!["phasen-unsymmetrie"@, "asymmetrie"@, "asymmetry"@]),
        "janitza_asymmetry"@,
    );
    let e7 = with_event(
        e6,
        has_any(m, seq!["ueberfrequenz"@, "uberfrequenz"@, "overfrequency"@]),
        "janitza_overfrequency"@,
    );
    let e8 = with_event(
        e7,
        has_any(m, seq!["unterfrequenz"@, "underfrequency"@]),
        "janitza_underfrequency"@,
    );
    let e9 = with_event(
        e8,
        has_any(m, seq!["batteriebetrieb"@, "battery mode"@, "akku warnung"@]),
        "ups_battery"@,
    );
    let e10 = with_event(e9, has_any(m, seq!["emergency"@, "sofortalarm"@]), "emergency"@);
    let e11 = with_event(e10, text::has(m, "panic:"@), "panic"@);
    with_event(e11, critical, "keyword_match"@)
}

fn add_event(list: &mut Vec<String>, when: bool, event: &str)
    ensures
        text::texts(final(list)@) == with_event(text::texts(old(list)@), when, event@),
{
    if when && !crate::config::listed(list, event) {
        ups::note(list, event.to_owned());
    }
}

fn add_offline_events(list: &mut Vec<String>, m: &str)
    ensures
        text::texts(final(list)@) == offline_events(text::texts(old(list)@), m@),
{
    add_event(list, true, "offline");
    add_event(list, text::contains(m, "janitza"), "janitza_offline");
    add_event(list, text::contains(m, "ups"), "ups_offline");
    add_event(list, text::contains(m, "nas"), "nas_offline");
    add_event(list, any2(m, "poe", "switch"), "poe_switch_offline");
    add_event(list, any2(m, "rutx", "router"), "rutx_offline");
    add_event(list, any3(m, "pixera", "director", "octo"), "pixera_offline");
}

/// Lists the events that a normalized message reports.
pub fn alert_events_in(m: &str, critical: bool) -> (r: Vec<String>)
    ensures
        text::texts(r@) == events_in(m@, critical),
{
    let mut out: Vec<String> = Vec::new();
    proof {
        assert(text::texts(out@) =~= Seq::<Seq<char>>::empty());
    }
    let values = text::contains(m, "snmp values");
    add_event(
        &mut out,
        any3(m, "missed event", "not fired", "nicht ausgeloest") || text::contains(
            m,
            "nicht ausgelost",
        ),
        "trigger_missed",
    );
    add_event(&mut out, any2(m, "timeline error", "ontimelineerror"), "timeline_error");
    if any2(m, "offline!", " ist offline") {
        add_offline_events(&mut out, m);
    }
    add_event(
        &mut out,
        text::contains(m, "snmp-werte von switch") || (values && text::contains(m, "switch")),
        "poe_switch_offline",
    );
    add_event(
        &mut out,
        text::contains(m, "snmp-werte von router") || (values && any2(m, "router", "rutx")),
        "rutx_offline",
    );
    add_event(
        &mut out,
        text::contains(m, "snmp-werte von nas") || (values && text::contains(m, "nas")),
        "nas_offline",
    );
    add_event(
        &mut out,
        any3(m, "phasen-unsymmetrie", "asymmetrie", "asymmetry"),
        "janitza_asymmetry",
    );
    add_event(
        &mut out,
        any3(m, "ueberfrequenz", "uberfrequenz", "overfrequency"),
        "janitza_overfrequency",
    );
    add_event(&mut out, any2(m, "unterfrequenz", "underfrequency"), "janitza_underfrequency");
    add_event(
        &mut out,
        any3(m, "batteriebetrieb", "battery mode", "akku warnung"),
        "ups_battery",
    );
    add_event(&mut out, any2(m, "emergency", "sofortalarm"), "emergency");
    add_event(&mut out, text::contains(m, "panic:"), "panic");
    add_event(&mut out, critical, "keyword_match");
    out
}

proof fn with_event_distinct(list: Seq<Seq<char>>, when: bool, event: Seq<char>)
    requires
        list.no_duplicates(),
    ensures
        with_event(list, when, event).no_duplicates(),
{
    if when && !list.contains(event) {
        let now = list.push(event);
        assert forall|i: int, j: int|
            0 <= i < now.len() && 0 <= j < now.len() && i != j implies now[i] != now[j] by {
            if i == list.len() {
                assert(list.contains(list[j]));
            }
            if j == list.len() {
                assert(list.contains(list[i]));
            }
        }
    }
}

/// No event is reported twice.
pub proof fn events_are_distinct(m: Seq<char>, critical: bool)
    ensures
        events_in(m, critical).no_duplicates(),
{
    assert forall|list: Seq<Seq<char>>, when: bool, event: Seq<char>|
        list.no_duplicates() implies #[trigger] with_event(list, when, event).no_duplicates() by {
        with_event_distinct(list, when, event);
    }
    assert(Seq::<Seq<char>>::empty().no_duplicates());
}

/// The events that a message reports.
pub open spec fn message_events(message: Seq<char>, cfg: JsonV) -> Seq<Seq<char>> {
    events_in(normalized(message), is_critical(message, cfg))
}

/// The events that an ASCII message reports.
pub open spec fn ascii_message_events(message: Seq<char>, cfg: JsonV) -> Seq<Seq<char>> {
    events_in(umlauts_spelled(text::lowered(message)), is_critical(message, cfg))
}

pub fn detect_telegram_alert_events(message: &str, cfg: &Json) -> (r: Vec<String>)
    ensures
        text::texts(r@) == message_events(message@, cfg@),
        text::is_ascii_text(message@) ==> text::texts(r@) == ascii_message_events(message@, cfg@),
{
    alert_events_in(normalize_text(message).as_str(), contains_critical_keyword(message, cfg))
}

/// Whether one of several events is wanted.
pub open spec fn any_enabled(cfg: JsonV, events: Seq<Seq<char>>) -> bool {
    exists|i: int| 0 <= i < events.len() && event_enabled(cfg, #[trigger] events[i])
}

pub fn any_event_enabled(cfg: &Json, events: &Vec<String>) -> (r: bool)
    ensures
        r == any_enabled(cfg@, text::texts(events@)),
{
    let ghost all = text::texts(events@);
    let mut i: usize = 0;
    while i < events.len()
        invariant
            i <= events@.len(),
            all == text::texts(events@),
            forall|j: int| 0 <= j < i ==> !event_enabled(cfg@, #[trigger] all[j]),
        decreases events@.len() - i,
    {
        if telegram_event_enabled(cfg, events[i].as_str()) {
            proof {
                assert(event_enabled(cfg@, all[i as int]));
            }
            return true;
        }
        i += 1;
    }
    false
}

/// Whether an error is sent: its level is error, and an event that it reports is wanted.
pub open spec fn error_is_sent(level: Seq<char>, message: Seq<char>, cfg: JsonV) -> bool {
    text::alike(level, "error"@) && any_enabled(cfg, message_events(message, cfg))
}

pub fn should_send_telegram_for_error(level: &str, message: &str, cfg: &Json) -> (r: bool)
    ensures
        r == error_is_sent(level@, message@, cfg@),
        text::is_ascii_text(message@) ==> r == (text::alike(level@, "error"@) && any_enabled(
            cfg@,
            ascii_message_events(message@, cfg@),
        )),
{
    if !text::eq_ignore_ascii_case(level, "error") {
        return false;
    }
    let events = detect_telegram_alert_events(message, cfg);
    any_event_enabled(cfg, &events)
}

// ---------------------------------------------------------------------------
// How often a message is sent
// ---------------------------------------------------------------------------

pub const TELEGRAM_MIN_REPEAT_MS: u64 = 60_000;

/// When each kind of message was sent last.
pub struct SentLog {
    pub last: StrMap<u64>,
}

/// How far `later` lies behind `earlier`, and nothing where it does not.
pub open spec fn since(later: u64, earlier: u64) -> int {
    if later >= earlier {
        later - earlier
    } else {
        0
    }
}

/// Whether a message comes too soon after the last one of its kind.
pub open spec fn too_soon(last: Map<Seq<char>, u64>, fingerprint: Seq<char>, now: u64) -> bool {
    last.dom().contains(fingerprint) && since(now, last[fingerprint]) < TELEGRAM_MIN_REPEAT_MS
}

impl SentLog {
    pub fn new() -> (r: Self)
        ensures
            r.last@ == Map::<Seq<char>, u64>::empty(),
    {
        SentLog { last: StrMap::new() }
    }

    /// Whether a message comes too soon; if not, it is taken down as sent.
    pub fn telegram_rate_limited(&mut self, fingerprint: &str, timestamp_ms: u64) -> (r: bool)
        ensures
            r == too_soon(old(self).last@, fingerprint@, timestamp_ms),
            final(self).last@ == if r {
                old(self).last@
            } else {
                old(self).last@.insert(fingerprint@, timestamp_ms)
            },
    {
        if let Some(last) = self.last.get(fingerprint) {
            if timestamp_ms.saturating_sub(*last) < TELEGRAM_MIN_REPEAT_MS {
                return true;
            }
        }
        self.last.insert(fingerprint.to_owned(), timestamp_ms);
        false
    }
}

/// Of two messages of one kind, the second less than a minute after the first, not both are
/// sent.
pub proof fn repeats_are_held_back(
    last: Map<Seq<char>, u64>,
    fingerprint: Seq<char>,
    first: u64,
    second: u64,
)
    requires
        !too_soon(last, fingerprint, first),
        since(second, first) < TELEGRAM_MIN_REPEAT_MS,
    ensures
        too_soon(last.insert(fingerprint, first), fingerprint, second),
{
}

// ---------------------------------------------------------------------------
// What a message says
// ---------------------------------------------------------------------------

pub open spec fn or_default(s: Seq<char>, usual: Seq<char>) -> Seq<char> {
    if s.len() == 0 {
        usual
    } else {
        s
    }
}

/// A text of the configuration, trimmed; empty where there is none.
pub open spec fn config_text(cfg: JsonV, key: Seq<char>) -> Seq<char> {
    match json::text_at(cfg, key) {
        Some(s) => text::trimmed(s),
        None => Seq::empty(),
    }
}

/// A text of the configuration, trimmed; empty where there is none.
pub fn text_setting(cfg: &Json, key: &str) -> (r: String)
    ensures
        r@ == config_text(cfg@, key@),
{
    match cfg.text_field(key) {
        Some(s) => text::trim(s),
        None => String::new(),
    }
}

/// The name of the location, or `usual` where none is set.
pub open spec fn site_name(cfg: JsonV, usual: Seq<char>) -> Seq<char> {
    or_default(config_text(cfg, "location_name"@), usual)
}

fn site_label(cfg: &Json, usual: &str, plain: bool) -> (r: String)
    ensures
        r@ == label_of(site_name(cfg@, usual@), plain),
{
    let name = text_setting(cfg, "location_name");
    if name.as_str().is_empty() {
        format_telegram_location_label(usual, plain)
    } else {
        format_telegram_location_label(name.as_str(), plain)
    }
}

/// The line with the remote address.
pub open spec fn remote_line(address: Seq<char>) -> Seq<char> {
    "Anydeskadresse: <a href=\"anydesk://"@ + address + "\">"@ + address + "</a>"@
}

fn remote_line_of(address: &str) -> (r: String)
    ensures
        r@ == remote_line(address@),
{
    let mut out = text::glue3("Anydeskadresse: <a href=\"anydesk://", address, "\">");
    out.append(address);
    out.append("</a>");
    out
}

/// The lines of an alarm: location, date and time, message; the remaining runtime where the
/// message is about running on battery; the remote address where one is set.
pub open spec fn alarm_lines(label: Seq<char>, cfg: JsonV, message: Seq<char>, when: Seq<char>) -> Seq<
    Seq<char>,
> {
    let base = seq!["🚨"@ + label + "🚨"@, when, without_runtime(message)];
    let timed = match runtime_in(message) {
        Some(rt) => if text::has(text::lowered(message), "batteriebetrieb"@) {
            base.push("Runtime: "@ + rt)
        } else {
            base
        },
        None => base,
    };
    let address = config_text(cfg, "anydesk_address"@);
    if address.len() > 0 {
        timed.push(remote_line(address))
    } else {
        timed
    }
}

/// An alarm, under the label of its location.
pub fn alarm_text_with(label: &str, cfg: &Json, message: &str, when: &str) -> (r: String)
    ensures
        r@ == text::joined(alarm_lines(label@, cfg@, message@, when@), "\n"@),
{
    let mut lines: Vec<String> = Vec::new();
    ups::note(&mut lines, text::glue3("🚨", label, "🚨"));
    ups::note(&mut lines, when.to_owned());
    ups::note(&mut lines, strip_runtime_from_message(message));
    proof {
        assert(text::texts(lines@) =~= seq![
            "🚨"@ + label@ + "🚨"@,
            when@,
            without_runtime(message@),
        ]);
    }
    if text::contains(text::to_ascii_lowercase(message).as_str(), "batteriebetrieb") {
        if let Some(rt) = extract_runtime_from_message(message) {
            ups::note(&mut lines, text::glue("Runtime: ", rt.as_str()));
        }
    }
    let address = text_setting(cfg, "anydesk_address");
    if !address.as_str().is_empty() {
        ups::note(&mut lines, remote_line_of(address.as_str()));
    }
    text::join(&lines, "\n")
}

pub open spec fn alarm_text(cfg: JsonV, message: Seq<char>, when: Seq<char>, plain: bool) -> Seq<
    char,
> {
    text::joined(
        alarm_lines(label_of(site_name(cfg, "Standort unbekannt"@), plain), cfg, message, when),
        "\n"@,
    )
}

/// The text of an alarm at a date and time.
pub fn alarm_text_at(cfg: &Json, message: &str, when: &str, plain: bool) -> (r: String)
    ensures
        r@ == alarm_text(cfg@, message@, when@, plain),
{
    let label = site_label(cfg, "Standort unbekannt", plain);
    alarm_text_with(label.as_str(), cfg, message, when)
}

/// The text of an alarm. The date and time are those of the machine.
pub fn build_telegram_alarm_text(cfg: &Json, message: &str, timestamp_ms: u64, plain: bool) -> (r:
    String)
    ensures
        exists|when: Seq<char>|
            calendar::says_when(when, timestamp_ms) && r@ == #[trigger] alarm_text(cfg@, message@, when, plain),
{
    let when = calendar::format_human_datetime(timestamp_ms);
    alarm_text_at(cfg, message, when.as_str(), plain)
}

/// The text that reports the end of an error.
pub open spec fn resolved_text(cfg: JsonV, message: Seq<char>, when: Seq<char>, plain: bool) -> Seq<
    char,
> {
    let label = label_of(site_name(cfg, "Standort unbekannt"@), plain);
    "✅"@ + label + "✅\n"@ + when + "\n"@ + or_default(
        without_resolution(message),
        "Error geloest"@,
    )
}

/// The text that reports the end of an error at a date and time.
pub fn resolved_text_at(cfg: &Json, message: &str, when: &str, plain: bool) -> (r: String)
    ensures
        r@ == resolved_text(cfg@, message@, when@, plain),
{
    let label = site_label(cfg, "Standort unbekannt", plain);
    let mut out = text::glue3("✅", label.as_str(), "✅\n");
    out.append(when);
    out.append("\n");
    let what = strip_resolution_prefix(message);
    if what.as_str().is_empty() {
        out.append("Error geloest");
    } else {
        out.append(what.as_str());
    }
    out
}

/// The text that reports the end of an error. The date and time are those of the machine.
pub fn build_telegram_resolved_text(cfg: &Json, message: &str, timestamp_ms: u64, plain: bool) -> (r:
    String)
    ensures
        exists|when: Seq<char>|
            calendar::says_when(when, timestamp_ms) && r@ == #[trigger] resolved_text(cfg@, message@, when, plain),
{
    let when = calendar::format_human_datetime(timestamp_ms);
    resolved_text_at(cfg, message, when.as_str(), plain)
}

// ---------------------------------------------------------------------------
// Sending
// ---------------------------------------------------------------------------

/// A text of the section on alerts, trimmed; empty where there is none.
pub open spec fn alert_setting(cfg: JsonV, key: Seq<char>) -> Seq<char> {
    match cfg.get2("telegram"@, key) {
        Some(v) => match v.as_text() {
            Some(s) => text::trimmed(s),
            None => Seq::empty(),
        },
        None => Seq::empty(),
    }
}

fn get_alert_setting(cfg: &Json, key: &str) -> (r: String)
    ensures
        r@ == alert_setting(cfg@, key@),
{
    match cfg.get2("telegram", key) {
        Some(v) => match v.as_str() {
            Some(s) => text::trim(s),
            None => String::new(),
        },
        None => String::new(),
    }
}

/// Whether alerts are switched on and can be sent: there is a token and a chat.
pub open spec fn sending_possible(cfg: JsonV) -> bool {
    &&& cfg.get2("telegram"@, "enabled"@) == Some(JsonV::Bool(true))
    &&& alert_setting(cfg, "bot_token"@).len() > 0
    &&& alert_setting(cfg, "chat_id"@).len() > 0
}

/// What a log message is sent as.
#[derive(Debug, PartialEq)]
pub enum AlertKind {
    Alarm,
    Resolved,
}

/// What a log message is sent as, and the mark by which repetitions of it are told.
pub open spec fn alert_kind(cfg: JsonV, level: Seq<char>, message: Seq<char>) -> Option<
    (AlertKind, Seq<char>),
> {
    if is_resolution(message) && text::alike(level, "info"@) {
        let resolved = without_resolution(message);
        if error_category(resolved) == "ups"@ && event_enabled(cfg, "ups_battery"@) {
            Some((AlertKind::Resolved, "resolved:"@ + resolved))
        } else {
            None
        }
    } else if error_is_sent(level, message, cfg) {
        Some((AlertKind::Alarm, error_category(message) + ":"@ + message))
    } else {
        None
    }
}

pub open spec fn view_kind(o: Option<(AlertKind, String)>) -> Option<(AlertKind, Seq<char>)> {
    match o {
        Some((k, s)) => Some((k, s@)),
        None => None,
    }
}

/// Decides what a log message is sent as.
pub fn decide_alert(cfg: &Json, level: &str, message: &str) -> (r: Option<(AlertKind, String)>)
    ensures
        view_kind(r) == alert_kind(cfg@, level@, message@),
{
    if is_resolution_message(message) && text::eq_ignore_ascii_case(level, "info") {
        let resolved = strip_resolution_prefix(message);
        if !text::same(classify_error_category(resolved.as_str()), "ups") {
            return None;
        }
        if !telegram_event_enabled(cfg, "ups_battery") {
            return None;
        }
        return Some((AlertKind::Resolved, text::glue("resolved:", resolved.as_str())));
    }
    if !should_send_telegram_for_error(level, message, cfg) {
        return None;
    }
    Some((AlertKind::Alarm, text::glue3(classify_error_category(message), ":", message)))
}

/// A message to send: the token, the chats it goes to, and its text.
#[derive(Debug, PartialEq)]
pub struct TelegramMessage {
    pub bot_token: String,
    pub chats: Vec<String>,
    pub text: String,
}

/// The chats that alerts go to: the chat, and the channel where one is set.
pub open spec fn alert_chats(cfg: JsonV) -> Seq<Seq<char>> {
    let chat = alert_setting(cfg, "chat_id"@);
    let channel = alert_setting(cfg, "channel_id"@);
    if channel.len() > 0 {
        seq![chat, channel]
    } else {
        seq![chat]
    }
}

/// The message that a log message is sent as at a date and time, if it is sent.
pub open spec fn alert_message(
    last: Map<Seq<char>, u64>,
    cfg: JsonV,
    level: Seq<char>,
    message: Seq<char>,
    now: u64,
    when: Seq<char>,
    plain: bool,
) -> Option<(Seq<char>, Seq<Seq<char>>, Seq<char>)> {
    if !sending_possible(cfg) {
        None
    } else {
        match alert_kind(cfg, level, message) {
            Some((kind, fingerprint)) => if too_soon(last, fingerprint, now) {
                None
            } else {
                Some(
                    (
                        alert_setting(cfg, "bot_token"@),
                        alert_chats(cfg),
                        match kind {
                            AlertKind::Alarm => alarm_text(cfg, message, when, plain),
                            AlertKind::Resolved => resolved_text(cfg, message, when, plain),
                        },
                    ),
                )
            },
            None => None,
        }
    }
}

/// What is taken down of a log message that may be sent.
pub open spec fn alert_log(
    last: Map<Seq<char>, u64>,
    cfg: JsonV,
    level: Seq<char>,
    message: Seq<char>,
    now: u64,
) -> Map<Seq<char>, u64> {
    if !sending_possible(cfg) {
        last
    } else {
        match alert_kind(cfg, level, message) {
            Some((_, fingerprint)) => if too_soon(last, fingerprint, now) {
                last
            } else {
                last.insert(fingerprint, now)
            },
            None => last,
        }
    }
}

pub open spec fn view_message(o: Option<TelegramMessage>) -> Option<
    (Seq<char>, Seq<Seq<char>>, Seq<char>),
> {
    match o {
        Some(m) => Some((m.bot_token@, text::texts(m.chats@), m.text@)),
        None => None,
    }
}

fn alerts_on(cfg: &Json) -> (r: bool)
    ensures
        r == (cfg@.get2("telegram"@, "enabled"@) == Some(JsonV::Bool(true))),
{
    match cfg.get2("telegram", "enabled") {
        Some(v) => match v.as_bool() {
            Some(b) => b,
            None => false,
        },
        None => false,
    }
}

/// Decides whether a log message is sent out at a date and time, and as what.
pub fn critical_telegram_at(
    sent: &mut SentLog,
    cfg: &Json,
    level: &str,
    message: &str,
    timestamp_ms: u64,
    when: &str,
    plain: bool,
) -> (r: Option<TelegramMessage>)
    ensures
        view_message(r) == alert_message(
            old(sent).last@,
            cfg@,
            level@,
            message@,
            timestamp_ms,
            when@,
            plain,
        ),
        final(sent).last@ == alert_log(old(sent).last@, cfg@, level@, message@, timestamp_ms),
{
    if !alerts_on(cfg) {
        return None;
    }
    let bot_token = get_alert_setting(cfg, "bot_token");
    let chat = get_alert_setting(cfg, "chat_id");
    let channel = get_alert_setting(cfg, "channel_id");
    if bot_token.as_str().is_empty() || chat.as_str().is_empty() {
        return None;
    }
    let (kind, fingerprint) = match decide_alert(cfg, level, message) {
        Some(k) => k,
        None => {
            return None;
        },
    };
    if sent.telegram_rate_limited(fingerprint.as_str(), timestamp_ms) {
        return None;
    }
    let body = match kind {
        AlertKind::Alarm => alarm_text_at(cfg, message, when, plain),
        AlertKind::Resolved => resolved_text_at(cfg, message, when, plain),
    };
    let mut chats: Vec<String> = Vec::new();
    ups::note(&mut chats, chat);
    if !channel.as_str().is_empty() {
        ups::note(&mut chats, channel);
    }
    proof {
        assert(text::texts(chats@) =~= alert_chats(cfg@));
    }
    Some(TelegramMessage { bot_token, chats, text: body })
}

/// Decides whether a log message is sent out, and as what. The date and time in it are those
/// of the machine.
pub fn critical_telegram(
    sent: &mut SentLog,
    cfg: &Json,
    level: &str,
    message: &str,
    timestamp_ms: u64,
    plain: bool,
) -> (r: Option<TelegramMessage>)
    ensures
        exists|when: Seq<char>|
            calendar::says_when(when, timestamp_ms) && view_message(r) == #[trigger] alert_message(
                old(sent).last@,
                cfg@,
                level@,
                message@,
                timestamp_ms,
                when,
                plain,
            ),
        final(sent).last@ == alert_log(old(sent).last@, cfg@, level@, message@, timestamp_ms),
{
    let when = calendar::format_human_datetime(timestamp_ms);
    critical_telegram_at(sent, cfg, level, message, timestamp_ms, when.as_str(), plain)
}

/// A log message that was sent out is not sent out again within a minute.
pub proof fn alerts_do_not_repeat(
    last: Map<Seq<char>, u64>,
    cfg: JsonV,
    level: Seq<char>,
    message: Seq<char>,
    first: u64,
    second: u64,
    when: Seq<char>,
    plain: bool,
)
    requires
        alert_message(last, cfg, level, message, first, when, plain) is Some,
        since(second, first) < TELEGRAM_MIN_REPEAT_MS,
    ensures
        alert_message(
            alert_log(last, cfg, level, message, first),
            cfg,
            level,
            message,
            second,
            when,
            plain,
        ) is None,
{
}

/// The address that messages are posted to.
pub fn telegram_url(bot_token: &str) -> (r: String)
    ensures
        r@ == "https://api.telegram.org/bot"@ + bot_token@ + "/sendMessage"@,
{
    text::glue3("https://api.telegram.org/bot", bot_token, "/sendMessage")
}

/// What is logged of a message that was posted: the level and the text. `status` is the status
/// line of the reply.
pub fn telegram_send_log(chat: &str, success: bool, status: &str, body: &str) -> (r: (
    &'static str,
    String,
))
    ensures
        r.0@ == if success {
            "info"@
        } else {
            "error"@
        },
        r.1@ == if success {
            "Telegram message sent successfully to "@ + chat@
        } else {
            "Telegram send to "@ + chat@ + " failed with status "@ + status@ + ". Response: "@
                + body@
        },
{
    if success {
        ("info", text::glue("Telegram message sent successfully to ", chat))
    } else {
        let mut s = text::glue3("Telegram send to ", chat, " failed with status ");
        s.append(status);
        s.append(". Response: ");
        s.append(body);
        ("error", s)
    }
}

/// The text of a test message.
pub open spec fn test_text(cfg: JsonV, when: Seq<char>, plain: bool) -> Seq<char> {
    let address = config_text(cfg, "anydesk_address"@);
    "🧪"@ + label_of(site_name(cfg, "unbekannt"@), plain) + "🧪\n"@ + when
        + "\nTestnachricht\n"@ + if address.len() == 0 {
        "Anydeskadresse: nicht gesetzt"@
    } else {
        remote_line(address)
    }
}

/// The text of a test message at a date and time.
pub fn test_text_at(cfg: &Json, when: &str, plain: bool) -> (r: String)
    ensures
        r@ == test_text(cfg@, when@, plain),
{
    let label = site_label(cfg, "unbekannt", plain);
    let mut out = text::glue3("🧪", label.as_str(), "🧪\n");
    out.append(when);
    out.append("\nTestnachricht\n");
    let address = text_setting(cfg, "anydesk_address");
    if address.as_str().is_empty() {
        out.append("Anydeskadresse: nicht gesetzt");
    } else {
        out.append(remote_line_of(address.as_str()).as_str());
    }
    out
}

/// The test message for a token and a chat, which must both be given. The date and time in it
/// are those of the machine.
pub fn telegram_test_message(
    bot_token: &str,
    chat_id: &str,
    cfg: &Json,
    timestamp_ms: u64,
    plain: bool,
) -> (r: Result<TelegramMessage, String>)
    ensures
        match r {
            Ok(m) => !text::is_blank(bot_token@) && !text::is_blank(chat_id@) && m.bot_token@
                == text::trimmed(bot_token@) && text::texts(m.chats@) == seq![
                text::trimmed(chat_id@),
            ] && exists|when: Seq<char>|
                calendar::says_when(when, timestamp_ms) && m.text@ == #[trigger] test_text(cfg@, when, plain),
            Err(e) => (text::is_blank(bot_token@) || text::is_blank(chat_id@)) && e@
                == "Bot-Token oder Chat-ID fehlt"@,
        },
{
    let token = text::trim(bot_token);
    let chat = text::trim(chat_id);
    if token.as_str().is_empty() || chat.as_str().is_empty() {
        return Err("Bot-Token oder Chat-ID fehlt".to_owned());
    }
    let when = calendar::format_human_datetime(timestamp_ms);
    let body = test_text_at(cfg, when.as_str(), plain);
    let mut chats: Vec<String> = Vec::new();
    ups::note(&mut chats, chat);
    proof {
        assert(text::texts(chats@) =~= seq![text::trimmed(chat_id@)]);
    }
    Ok(TelegramMessage { bot_token: token, chats, text: body })
}

// ---------------------------------------------------------------------------
// What is sent
// ---------------------------------------------------------------------------

/// Whether a text, in small letters, has a word.
pub open spec fn speaks_of(message: Seq<char>, word: Seq<char>) -> bool {
    text::has(text::lowered(message), word)
}

proof fn any_of_three(s: Seq<char>, a: Seq<char>, b: Seq<char>, c: Seq<char>)
    ensures
        has_any(s, seq![a, b, c]) <==> text::has(s, a) || text::has(s, b) || text::has(s, c),
        has_any(s, seq![a, b]) <==> text::has(s, a) || text::has(s, b),
{
    let l = seq![a, b, c];
    assert(l[0] == a && l[1] == b && l[2] == c);
    let k = seq![a, b];
    assert(k[0] == a && k[1] == b);
}

/// A message is about the power supply where it speaks of it or of a battery; else about the
/// power where it speaks of voltage or frequency; else about the media server, a projector, a
/// camera, the start; and else about the system.
pub proof fn messages_are_about_what_they_name(message: &str, r: &'static str)
    requires
        call_ensures(classify_error_category, (message,), r),
    ensures
        ({
            let m = message@;
            let supply = speaks_of(m, "ups"@) || speaks_of(m, "batterie"@)
                || speaks_of(m, "[ups]"@);
            let power = speaks_of(m, "[janitza]"@) || speaks_of(m, "spannung"@) || speaks_of(
                m,
                "frequenz"@,
            );
            let media = speaks_of(m, "[pixera"@) || speaks_of(m, "timeline"@) || speaks_of(
                m,
                "scheduler"@,
            );
            let projector = speaks_of(m, "pj-link"@) || speaks_of(m, "projector"@) || speaks_of(
                m,
                "projektor"@,
            );
            let camera = speaks_of(m, "cam 0"@) || speaks_of(m, "camera"@);
            let start = speaks_of(m, "[startup]"@);
            &&& supply <==> r@ == "ups"@
            &&& !supply && power ==> r@ == "power"@
            &&& !supply && !power && media ==> r@ == "pixera"@
            &&& !supply && !power && !media && projector ==> r@ == "projector"@
            &&& !supply && !power && !media && !projector && camera ==> r@ == "camera"@
            &&& !supply && !power && !media && !projector && !camera && start ==> r@ == "startup"@
            &&& !supply && !power && !media && !projector && !camera && !start ==> r@ == "system"@
        }),
{
    let s = text::lowered(message@);
    any_of_three(s, "[ups]"@, "batterie"@, "ups"@);
    any_of_three(s, "[janitza]"@, "spannung"@, "frequenz"@);
    any_of_three(s, "[pixera"@, "timeline"@, "scheduler"@);
    any_of_three(s, "pj-link"@, "projector"@, "projektor"@);
    any_of_three(s, "cam 0"@, "camera"@, "camera"@);
    reveal_strlit("ups");
    reveal_strlit("power");
    reveal_strlit("pixera");
    reveal_strlit("projector");
    reveal_strlit("camera");
    reveal_strlit("startup");
    reveal_strlit("system");
    assert("ups"@.len() == 3 && "power"@.len() == 5 && "pixera"@.len() == 6 && "projector"@.len()
        == 9 && "camera"@.len() == 6 && "startup"@.len() == 7 && "system"@.len() == 6);
}

proof fn event_added(list: Seq<Seq<char>>, due: bool, event: Seq<char>, x: Seq<char>)
    ensures
        with_event(list, due, event).contains(x) <==> list.contains(x) || (due && event == x),
{
    if due && !list.contains(event) {
        let now = list.push(event);
        assert(now[list.len() as int] == event);
        if list.contains(x) {
            let i = choose|i: int| 0 <= i < list.len() && list[i] == x;
            assert(now[i] == x);
        }
        if now.contains(x) {
            let i = choose|i: int| 0 <= i < now.len() && now[i] == x;
            if i < list.len() {
                assert(list[i] == x);
            }
        }
    }
}

proof fn events_by_name(m: Seq<char>, critical: bool, x: Seq<char>)
    ensures
        ({
            let off = text::has(m, "offline!"@) || text::has(m, " ist offline"@);
            let values = text::has(m, "snmp values"@);
            events_in(m, critical).contains(x) <==> {
                ||| x == "trigger_missed"@ && (text::has(m, "missed event"@)
                    || text::has(m, "not fired"@) || text::has(m, "nicht ausgeloest"@)
                    || text::has(m, "nicht ausgelost"@))
                ||| x == "timeline_error"@ && (text::has(m, "timeline error"@)
                    || text::has(m, "ontimelineerror"@))
                ||| x == "offline"@ && off
                ||| x == "janitza_offline"@ && off && text::has(m, "janitza"@)
                ||| x == "ups_offline"@ && off && text::has(m, "ups"@)
                ||| x == "nas_offline"@ && (off && text::has(m, "nas"@)
                    || text::has(m, "snmp-werte von nas"@) || values && text::has(m, "nas"@))
                ||| x == "poe_switch_offline"@ && (off && (text::has(m, "poe"@)
                    || text::has(m, "switch"@)) || text::has(m, "snmp-werte von switch"@)
                    || values && text::has(m, "switch"@))
                ||| x == "rutx_offline"@ && (off && (text::has(m, "rutx"@)
                    || text::has(m, "router"@)) || text::has(m, "snmp-werte von router"@)
                    || values && (text::has(m, "router"@) || text::has(m, "rutx"@)))
                ||| x == "pixera_offline"@ && off && (text::has(m, "pixera"@)
                    || text::has(m, "director"@) || text::has(m, "octo"@))
                ||| x == "janitza_asymmetry"@ && (text::has(m, "phasen-unsymmetrie"@)
                    || text::has(m, "asymmetrie"@) || text::has(m, "asymmetry"@))
                ||| x == "janitza_overfrequency"@ && (text::has(m, "ueberfrequenz"@)
                    || text::has(m, "uberfrequenz"@) || text::has(m, "overfrequency"@))
                ||| x == "janitza_underfrequency"@ && (text::has(m, "unterfrequenz"@)
                    || text::has(m, "underfrequency"@))
                ||| x == "ups_battery"@ && (text::has(m, "batteriebetrieb"@)
                    || text::has(m, "battery mode"@) || text::has(m, "akku warnung"@))
                ||| x == "emergency"@ && (text::has(m, "emergency"@)
                    || text::has(m, "sofortalarm"@))
                ||| x == "panic"@ && text::has(m, "panic:"@)
                ||| x == "keyword_match"@ && critical
            }
        }),
{
    any_of_three(m, "missed event"@, "not fired"@, "nicht ausgeloest"@);
    any_of_three(m, "timeline error"@, "ontimelineerror"@, "ontimelineerror"@);
    any_of_three(m, "offline!"@, " ist offline"@, " ist offline"@);
    any_of_three(m, "poe"@, "switch"@, "switch"@);
    any_of_three(m, "rutx"@, "router"@, "router"@);
    any_of_three(m, "router"@, "rutx"@, "rutx"@);
    any_of_three(m, "pixera"@, "director"@, "octo"@);
    any_of_three(m, "phasen-unsymmetrie"@, "asymmetrie"@, "asymmetry"@);
    any_of_three(m, "ueberfrequenz"@, "uberfrequenz"@, "overfrequency"@);
    any_of_three(m, "unterfrequenz"@, "underfrequency"@, "underfrequency"@);
    any_of_three(m, "batteriebetrieb"@, "battery mode"@, "akku warnung"@);
    any_of_three(m, "emergency"@, "sofortalarm"@, "sofortalarm"@);
    assert(!Seq::<Seq<char>>::empty().contains(x));
    assert forall|list: Seq<Seq<char>>, due: bool, event: Seq<char>|
        #[trigger] with_event(list, due, event).contains(x) <==> list.contains(x) || (due && event
            == x) by {
        event_added(list, due, event, x);
    }
}

/// Whether the events that a message reports have one.
pub open spec fn reports(events: Vec<String>, event: Seq<char>) -> bool {
    text::texts(events@).contains(event)
}

/// A message reports the events that its words stand for, and no others.
pub proof fn words_stand_for_events(m: &str, critical: bool, r: Vec<String>)
    requires
        call_ensures(alert_events_in, (m, critical), r),
    ensures
        ({
            let off = text::has(m@, "offline!"@) || text::has(m@, " ist offline"@);
            let values = text::has(m@, "snmp values"@);
            &&& reports(r, "trigger_missed"@) <==> text::has(m@, "missed event"@)
                || text::has(m@, "not fired"@) || text::has(m@, "nicht ausgeloest"@)
                || text::has(m@, "nicht ausgelost"@)
            &&& reports(r, "timeline_error"@) <==> text::has(m@, "timeline error"@)
                || text::has(m@, "ontimelineerror"@)
            &&& reports(r, "offline"@) <==> off
            &&& reports(r, "janitza_offline"@) <==> off && text::has(m@, "janitza"@)
            &&& reports(r, "ups_offline"@) <==> off && text::has(m@, "ups"@)
            &&& reports(r, "pixera_offline"@) <==> off && (text::has(m@, "pixera"@)
                || text::has(m@, "director"@) || text::has(m@, "octo"@))
            &&& reports(r, "nas_offline"@) <==> text::has(m@, "snmp-werte von nas"@)
                || text::has(m@, "nas"@) && (off || values)
            &&& reports(r, "poe_switch_offline"@) <==> text::has(m@, "snmp-werte von switch"@)
                || text::has(m@, "switch"@) && (off || values) || text::has(m@, "poe"@) && off
            &&& reports(r, "rutx_offline"@) <==> text::has(m@, "snmp-werte von router"@)
                || (text::has(m@, "router"@) || text::has(m@, "rutx"@)) && (off || values)
            &&& reports(r, "janitza_asymmetry"@) <==> text::has(m@, "phasen-unsymmetrie"@)
                || text::has(m@, "asymmetrie"@) || text::has(m@, "asymmetry"@)
            &&& reports(r, "janitza_overfrequency"@) <==> text::has(m@, "ueberfrequenz"@)
                || text::has(m@, "uberfrequenz"@) || text::has(m@, "overfrequency"@)
            &&& reports(r, "janitza_underfrequency"@) <==> text::has(m@, "unterfrequenz"@)
                || text::has(m@, "underfrequency"@)
            &&& reports(r, "ups_battery"@) <==> text::has(m@, "batteriebetrieb"@)
                || text::has(m@, "battery mode"@) || text::has(m@, "akku warnung"@)
            &&& reports(r, "emergency"@) <==> text::has(m@, "emergency"@)
                || text::has(m@, "sofortalarm"@)
            &&& reports(r, "panic"@) <==> text::has(m@, "panic:"@)
            &&& reports(r, "keyword_match"@) <==> critical
        }),
{
    reveal_strlit("trigger_missed");
    reveal_strlit("timeline_error");
    reveal_strlit("offline");
    reveal_strlit("janitza_offline");
    reveal_strlit("ups_offline");
    reveal_strlit("nas_offline");
    reveal_strlit("poe_switch_offline");
    reveal_strlit("rutx_offline");
    reveal_strlit("pixera_offline");
    reveal_strlit("janitza_asymmetry");
    reveal_strlit("janitza_overfrequency");
    reveal_strlit("janitza_underfrequency");
    reveal_strlit("ups_battery");
    reveal_strlit("emergency");
    reveal_strlit("panic");
    reveal_strlit("keyword_match");
    assert("trigger_missed"@.len() == 14 && "trigger_missed"@[0] == 't'
        && "trigger_missed"@[13] == 'd');
    assert("timeline_error"@.len() == 14 && "timeline_error"@[0] == 't'
        && "timeline_error"@[13] == 'r');
    assert("offline"@.len() == 7 && "offline"@[0] == 'o' && "offline"@[6] == 'e');
    assert("janitza_offline"@.len() == 15 && "janitza_offline"@[0] == 'j'
        && "janitza_offline"@[14] == 'e');
    assert("ups_offline"@.len() == 11 && "ups_offline"@[0] == 'u' && "ups_offline"@[10] == 'e');
    assert("nas_offline"@.len() == 11 && "nas_offline"@[0] == 'n' && "nas_offline"@[10] == 'e');
    assert("poe_switch_offline"@.len() == 18 && "poe_switch_offline"@[0] == 'p'
        && "poe_switch_offline"@[17] == 'e');
    assert("rutx_offline"@.len() == 12 && "rutx_offline"@[0] == 'r' && "rutx_offline"@[11] == 'e');
    assert("pixera_offline"@.len() == 14 && "pixera_offline"@[0] == 'p'
        && "pixera_offline"@[13] == 'e');
    assert("janitza_asymmetry"@.len() == 17 && "janitza_asymmetry"@[0] == 'j'
        && "janitza_asymmetry"@[16] == 'y');
    assert("janitza_overfrequency"@.len() == 21 && "janitza_overfrequency"@[0] == 'j'
        && "janitza_overfrequency"@[20] == 'y');
    assert("janitza_underfrequency"@.len() == 22 && "janitza_underfrequency"@[0] == 'j'
        && "janitza_underfrequency"@[21] == 'y');
    assert("ups_battery"@.len() == 11 && "ups_battery"@[0] == 'u' && "ups_battery"@[10] == 'y');
    assert("emergency"@.len() == 9 && "emergency"@[0] == 'e' && "emergency"@[8] == 'y');
    assert("panic"@.len() == 5 && "panic"@[0] == 'p' && "panic"@[4] == 'c');
    assert("keyword_match"@.len() == 13 && "keyword_match"@[0] == 'k'
        && "keyword_match"@[12] == 'h');
    events_by_name(m@, critical, "trigger_missed"@);
    events_by_name(m@, critical, "timeline_error"@);
    events_by_name(m@, critical, "offline"@);
    events_by_name(m@, critical, "janitza_offline"@);
    events_by_name(m@, critical, "ups_offline"@);
    events_by_name(m@, critical, "nas_offline"@);
    events_by_name(m@, critical, "poe_switch_offline"@);
    events_by_name(m@, critical, "rutx_offline"@);
    events_by_name(m@, critical, "pixera_offline"@);
    events_by_name(m@, critical, "janitza_asymmetry"@);
    events_by_name(m@, critical, "janitza_overfrequency"@);
    events_by_name(m@, critical, "janitza_underfrequency"@);
    events_by_name(m@, critical, "ups_battery"@);
    events_by_name(m@, critical, "emergency"@);
    events_by_name(m@, critical, "panic"@);
    events_by_name(m@, critical, "keyword_match"@);
}

/// Where no events are listed every one is wanted; where some are, those that are listed are,
/// and with `offline` all whose name ends with it; an empty list wants none.
pub proof fn listed_events_are_wanted(cfg: &Json, event: &str, list: Seq<JsonV>, i: int, r: bool)
    requires
        call_ensures(telegram_event_enabled, (cfg, event), r),
    ensures
        cfg@.get2("telegram"@, "alert_events"@) is None ==> r,
        cfg@.get2("telegram"@, "alert_events"@) == Some(JsonV::List(list)) && list.len() == 0
            ==> !r,
        cfg@.get2("telegram"@, "alert_events"@) == Some(JsonV::List(list)) && 0 <= i < list.len()
            && list[i] is Text && text::lowered(text::trimmed(list[i]->Text_0)) == event@ ==> r,
        cfg@.get2("telegram"@, "alert_events"@) == Some(JsonV::List(list)) && 0 <= i < list.len()
            && list[i] == JsonV::Text("offline"@) && text::ends(event@, "_offline"@) ==> r,
        cfg@.get2("telegram"@, "alert_events"@) == Some(JsonV::List(list)) && (forall|k: int|
            0 <= k < list.len() ==> (#[trigger] list[k]) is Text && text::lowered(
                text::trimmed(list[k]->Text_0),
            ) != event@ && text::lowered(text::trimmed(list[k]->Text_0)) != "offline"@) ==> !r,
{
    reveal_strlit("offline");
    let o = "offline"@;
    text::trimming_takes_off_white_space(Seq::empty(), o, Seq::empty());
    assert(Seq::<char>::empty() + o + Seq::<char>::empty() =~= o);
    assert(text::lowered(o) =~= o);
    if cfg@.get2("telegram"@, "alert_events"@) == Some(JsonV::List(list)) {
        if 0 <= i < list.len() && list[i] is Text {
            if text::lowered(text::trimmed(list[i]->Text_0)) == event@ {
                assert(entry_enables(list[i], event@));
                assert(some_entry_enables(list, event@));
            }
            if list[i] == JsonV::Text(o) && text::ends(event@, "_offline"@) {
                assert(entry_enables(list[i], event@));
                assert(some_entry_enables(list, event@));
            }
        }
    }
}

/// The words that always make a message critical do so whatever is set, and a word that is set
/// does so too.
pub proof fn critical_words_count(message: &str, cfg: &Json, list: Seq<JsonV>, i: int, r: bool)
    requires
        call_ensures(contains_critical_keyword, (message, cfg), r),
    ensures
        speaks_of(message@, "sofortalarm"@) || speaks_of(message@, "akku warnung"@) || speaks_of(
            message@,
            "akkustand unter 20"@,
        ) || speaks_of(message@, "ups hat auf batteriebetrieb gewechselt"@) || speaks_of(
            message@,
            "batterie mode aktiviert"@,
        ) || speaks_of(message@, "panic:"@) || speaks_of(message@, "emergency"@) || speaks_of(
            message@,
            "ueberfrequenz"@,
        ) || speaks_of(message@, "unterfrequenz"@) || speaks_of(message@, "offline!"@) ==> r,
        cfg@.get2("telegram"@, "critical_error_keywords"@) == Some(JsonV::List(list)) && 0 <= i
            < list.len() && list[i] is Text && !text::is_blank(list[i]->Text_0) && speaks_of(
            message@,
            text::lowered(text::trimmed(list[i]->Text_0)),
        ) ==> r,
        message@.len() == 0 ==> !r,
{
    let w = critical_words();
    assert(w[0] == "sofortalarm"@ && w[1] == "akku warnung"@ && w[2] == "akkustand unter 20"@
        && w[3]
        == "ups hat auf batteriebetrieb gewechselt"@ && w[4] == "batterie mode aktiviert"@ && w[5]
        == "panic:"@ && w[6] == "emergency"@ && w[7] == "ueberfrequenz"@ && w[8] == "unterfrequenz"@
        && w[9] == "offline!"@);
    let m = text::lowered(message@);
    if cfg@.get2("telegram"@, "critical_error_keywords"@) == Some(JsonV::List(list)) && 0 <= i
        < list.len() && list[i] is Text && !text::is_blank(list[i]->Text_0) && speaks_of(
        message@,
        text::lowered(text::trimmed(list[i]->Text_0)),
    ) {
        assert(entry_occurs(list[i], m));
        assert(some_entry_occurs(list, m));
    }
    if message@.len() == 0 {
        reveal_strlit("sofortalarm");
        reveal_strlit("akku warnung");
        reveal_strlit("akkustand unter 20");
        reveal_strlit("ups hat auf batteriebetrieb gewechselt");
        reveal_strlit("batterie mode aktiviert");
        reveal_strlit("panic:");
        reveal_strlit("emergency");
        reveal_strlit("ueberfrequenz");
        reveal_strlit("unterfrequenz");
        reveal_strlit("offline!");
        assert forall|p: Seq<char>| p.len() > 0 implies !(#[trigger] text::has(m, p)) by {
            text::found_parts_are_there(m, p, 0);
        }
        assert forall|k: int| 0 <= k < w.len() implies !text::has(m, #[trigger] w[k]) by {
            assert(w[k].len() > 0);
        }
    }
}

/// Only an error is sent as an alarm, and only where an event that it reports is wanted; a
/// resolution is sent only at the level of information.
pub proof fn only_errors_are_alarms(
    cfg: &Json,
    level: &str,
    message: &str,
    events: Vec<String>,
    wanted: bool,
    r: Option<(AlertKind, String)>,
)
    requires
        call_ensures(decide_alert, (cfg, level, message), r),
        call_ensures(detect_telegram_alert_events, (message, cfg), events),
        call_ensures(any_event_enabled, (cfg, &events), wanted),
    ensures
        r matches Some((AlertKind::Alarm, _)) ==> text::alike(level@, "error"@) && wanted,
        r matches Some((AlertKind::Resolved, _)) ==> text::alike(level@, "info"@) && text::begins(
            text::trimmed_start(message@),
            "[RESOLVED]"@,
        ),
        text::alike(level@, "error"@) && wanted && !text::begins(
            text::trimmed_start(message@),
            "[RESOLVED]"@,
        ) ==> r is Some && (r->0).0 == AlertKind::Alarm,
        text::alike(level@, "error"@) && !wanted && !text::begins(
            text::trimmed_start(message@),
            "[RESOLVED]"@,
        ) ==> r is None,
{
}

/// Whether one of several events is wanted: some one of them is.
pub proof fn one_wanted_event_is_enough(
    cfg: &Json,
    events: &Vec<String>,
    i: int,
    event: &str,
    one: bool,
    r: bool,
)
    requires
        call_ensures(any_event_enabled, (cfg, events), r),
        0 <= i < events@.len(),
        events@[i]@ == event@,
        call_ensures(telegram_event_enabled, (cfg, event), one),
    ensures
        one ==> r,
        events@.len() == 1 ==> r == one,
{
    assert(text::texts(events@)[i] == events@[i]@);
}

/// Messages of one kind go out once a minute: one within a minute of the last that went out is
/// held back, and a later one goes out; other kinds do not count.
pub proof fn one_message_a_minute(
    sent: &mut SentLog,
    fingerprint: &str,
    now: u64,
    r: bool,
)
    requires
        call_ensures(SentLog::telegram_rate_limited, (sent, fingerprint, now), r),
    ensures
        !old(sent).last@.dom().contains(fingerprint@) ==> !r,
        old(sent).last@.dom().contains(fingerprint@) ==> ({
            let at = old(sent).last@[fingerprint@];
            (at <= now < at + 60_000 ==> r) && (now >= at + 60_000 ==> !r)
        }),
        !r ==> final(sent).last@.dom().contains(fingerprint@) && final(sent).last@[fingerprint@]
            == now,
        r ==> final(sent).last@ == old(sent).last@,
{
}

/// Nothing is sent unless sending is switched on and there are a token and a chat; what is sent
/// goes to the chat, and to the channel where one is set.
pub proof fn nothing_is_sent_unless_set_up(
    sent: &mut SentLog,
    cfg: &Json,
    level: &str,
    message: &str,
    now: u64,
    at: &str,
    plain: bool,
    token: Seq<char>,
    chat: Seq<char>,
    r: Option<TelegramMessage>,
)
    requires
        call_ensures(critical_telegram_at, (sent, cfg, level, message, now, at, plain), r),
        cfg@.get2("telegram"@, "bot_token"@) == Some(JsonV::Text(token)),
        cfg@.get2("telegram"@, "chat_id"@) == Some(JsonV::Text(chat)),
    ensures
        cfg@.get2("telegram"@, "enabled"@) != Some(JsonV::Bool(true)) ==> r is None,
        text::is_blank(token) || text::is_blank(chat) ==> r is None,
        r is None ==> final(sent).last@ == old(sent).last@,
        r matches Some(m) ==> m.bot_token@ == text::trimmed(token) && m.chats@.len() >= 1
            && m.chats@[0]@ == text::trimmed(chat) && m.chats@.len() <= 2,
        r is Some && cfg@.get2("telegram"@, "channel_id"@) is None ==> (r->0).chats@.len() == 1,
{
    if let Some(m) = r {
        assert(text::texts(m.chats@) == alert_chats(cfg@));
        assert(text::texts(m.chats@).len() == m.chats@.len());
        assert(text::texts(m.chats@)[0] == m.chats@[0]@);
    }
}

/// The flag of two letters is made of the symbols of these letters, in any case and with white
/// space around them; anything else has none.
pub proof fn flags_are_two_letters(
    code: &str,
    a: Seq<char>,
    b: Seq<char>,
    x: char,
    y: char,
    r: Option<String>,
)
    requires
        call_ensures(country_code_to_flag_emoji, (code,), r),
        text::all_white(a),
        text::all_white(b),
    ensures
        code@ == a + seq![x, y] + b && 'A' <= x <= 'Z' && 'A' <= y <= 'Z' ==> r is Some
            && (r->0)@.len()
            == 2 && (r->0)@[0] as int == 0x1F1E6 + (x as int - 65)
                && (r->0)@[1] as int == 0x1F1E6 + (
        y as int - 65),
        code@ == a + seq![x, y] + b && 'a' <= x <= 'z' && 'a' <= y <= 'z' ==> r is Some
            && (r->0)@.len()
            == 2 && (r->0)@[0] as int == 0x1F1E6 + (x as int - 97)
                && (r->0)@[1] as int == 0x1F1E6 + (
        y as int - 97),
        code@ == a + seq![x, y] + b && '0' <= x <= '9' ==> r is None,
        code@.len() < 2 ==> r is None,
{
    let s = seq![x, y];
    if code@ == a + s + b && ('A' <= x <= 'Z' && 'A' <= y <= 'Z' || 'a' <= x <= 'z'
        && 'a' <= y <= 'z') {
        text::trimming_takes_off_white_space(a, s, b);
        assert(text::raised(s)[0] == text::upper_char(x) && text::raised(s)[1] == text::upper_char(
            y,
        ));
    }
    if code@ == a + s + b && '0' <= x <= '9' {
        digit_stays(a, s, b);
    }
    if code@.len() < 2 {
        trimmed_is_shorter(code@);
    }
}

proof fn trimmed_is_shorter(s: Seq<char>)
    ensures
        text::trimmed(s).len() <= s.len(),
{
    start_is_shorter(s);
    end_is_shorter(text::trimmed_start(s));
}

proof fn start_is_shorter(s: Seq<char>)
    ensures
        text::trimmed_start(s).len() <= s.len(),
    decreases s.len(),
{
    if s.len() > 0 && text::is_white_space(s[0]) {
        start_is_shorter(s.drop_first());
    }
}

proof fn end_is_shorter(s: Seq<char>)
    ensures
        text::trimmed_end(s).len() <= s.len(),
    decreases s.len(),
{
    if s.len() > 0 && text::is_white_space(s.last()) {
        end_is_shorter(s.drop_last());
    }
}

proof fn digit_stays(a: Seq<char>, s: Seq<char>, b: Seq<char>)
    requires
        s.len() == 2,
        '0' <= s[0] <= '9',
        text::all_white(a),
        text::all_white(b),
    ensures
        flag(a + s + b) is None,
{
    if text::is_white_space(s[1]) {
        let one = seq![s[0]];
        let rest = seq![s[1]] + b;
        assert(a + s + b =~= a + one + rest);
        text::trimming_takes_off_white_space(a, one, rest);
    } else {
        text::trimming_takes_off_white_space(a, s, b);
    }
}

/// The runtime is what follows its word, wherever that stands first; the message without it is
/// what stands before.
pub proof fn runtimes_are_cut_out(
    before: Seq<char>,
    time: Seq<char>,
    message: &str,
    runtime: Option<String>,
    rest: String,
)
    requires
        message@ == before + "Runtime: "@ + time,
        !text::has(text::lowered(before) + "runtime"@, "runtime:"@),
        time.len() > 0,
        text::is_trimmed(time),
        call_ensures(extract_runtime_from_message, (message,), runtime),
        call_ensures(strip_runtime_from_message, (message,), rest),
    ensures
        runtime is Some,
        (runtime->0)@ == time,
        rest@ == text::trimmed(text::without_trailing(text::trimmed(before), '-')),
{
    let low = text::lowered(message@);
    let p = "runtime:"@;
    let k = before.len() as int;
    reveal_strlit("Runtime: ");
    reveal_strlit("runtime:");
    reveal_strlit("runtime");
    assert(low.subrange(k, k + p.len()) =~= p);
    assert(text::matches_at(low, p, k));
    text::found_is_first(low, p, 0);
    let i = text::found(low, p)->0;
    if i < k {
        let head = text::lowered(before) + "runtime"@;
        assert(head =~= low.take(k + 7));
        assert(low.subrange(i, i + p.len()) == p);
        assert(head.subrange(i, i + p.len()) =~= low.subrange(i, i + p.len()));
        assert(text::matches_at(head, p, i));
        text::found_is_first(head, p, 0);
    }
    assert(i == k);
    assert(message@.take(k) =~= before);
    assert(message@.skip(k + p.len()) =~= seq![' '] + time + Seq::<char>::empty());
    assert(text::is_white_space(' '));
    text::trimming_takes_off_white_space(seq![' '], time, Seq::empty());
}

/// A resolution is told by its mark, with white space before it, and is what follows the mark.
pub proof fn resolutions_are_marked(
    a: Seq<char>,
    s: Seq<char>,
    b: Seq<char>,
    message: &str,
    marked: bool,
    r: String,
)
    requires
        text::all_white(a),
        text::all_white(b),
        s.len() > 0,
        text::is_trimmed(s),
        call_ensures(is_resolution_message, (message,), marked),
        call_ensures(strip_resolution_prefix, (message,), r),
    ensures
        message@ == a + "[RESOLVED]"@ + (b + s) ==> marked && r@ == s,
        message@ == a + s && s[0] != '[' ==> !marked && r@ == s,
{
    reveal_strlit("[RESOLVED]");
    let mark = "[RESOLVED]"@;
    if message@ == a + mark + (b + s) {
        let rest = mark + (b + s);
        assert(message@ =~= a + rest);
        white_goes(a, rest);
        assert(rest[0] == '[');
        assert(text::trimmed_start(rest) == rest);
        assert(rest.take(mark.len() as int) =~= mark);
        assert(rest.skip(mark.len() as int) =~= b + s + Seq::<char>::empty());
        text::trimming_takes_off_white_space(b, s, Seq::empty());
    }
    if message@ == a + s && s[0] != '[' {
        white_goes(a, s);
        assert(text::trimmed_start(s) == s);
        if text::begins(s, mark) {
            assert(s.take(mark.len() as int)[0] == s[0]);
        }
        assert(a + s =~= a + s + Seq::<char>::empty());
        text::trimming_takes_off_white_space(a, s, Seq::empty());
    }
}

proof fn white_goes(a: Seq<char>, s: Seq<char>)
    requires
        text::all_white(a),
    ensures
        text::trimmed_start(a + s) == text::trimmed_start(s),
    decreases a.len(),
{
    if a.len() > 0 {
        assert((a + s)[0] == a[0]);
        assert((a + s).drop_first() =~= a.drop_first() + s);
        white_goes(a.drop_first(), s);
    } else {
        assert(a + s =~= s);
    }
}

/// An alarm stands between its signs, with the label of the place, the date and time and the
/// message on lines of their own.
pub proof fn alarms_say_what_and_when(label: &str, cfg: &Json, message: &str, at: &str, r: String)
    requires
        call_ensures(alarm_text_with, (label, cfg, message, at), r),
    ensures
        text::begins(
            r@,
            "🚨"@ + label@ + "🚨"@ + "\n"@ + at@ + "\n"@ + without_runtime(message@),
        ),
        config_text(cfg@, "anydesk_address"@).len() > 0 ==> text::ends(
            r@,
            remote_line(config_text(cfg@, "anydesk_address"@)),
        ),
{
    let lines = alarm_lines(label@, cfg@, message@, at@);
    let head = "🚨"@ + label@ + "🚨"@;
    let base = seq![head, at@, without_runtime(message@)];
    let start = head + "\n"@ + at@ + "\n"@ + without_runtime(message@);
    reveal_with_fuel(text::joined, 6);
    assert(base.drop_last() =~= seq![head, at@]);
    assert(seq![head, at@].drop_last() =~= seq![head]);
    assert(seq![head].drop_last() =~= Seq::<Seq<char>>::empty());
    assert(text::joined(base, "\n"@) =~= start);
    assert(start.take(start.len() as int) =~= start);
    let address = config_text(cfg@, "anydesk_address"@);
    let timed = if address.len() > 0 {
        lines.drop_last()
    } else {
        lines
    };
    if timed.len() > 3 {
        assert(timed.drop_last() =~= base);
        joined_begins(base, timed.last(), start);
        assert(base.push(timed.last()) =~= timed);
    } else {
        assert(timed =~= base);
    }
    if address.len() > 0 {
        assert(timed.push(lines.last()) =~= lines);
        joined_begins(timed, lines.last(), start);
        joined_ends(timed, lines.last());
    }
}

proof fn joined_begins(list: Seq<Seq<char>>, s: Seq<char>, start: Seq<char>)
    requires
        list.len() > 0,
        text::begins(text::joined(list, "\n"@), start),
    ensures
        text::begins(text::joined(list.push(s), "\n"@), start),
{
    let before = text::joined(list, "\n"@);
    let now = text::joined(list.push(s), "\n"@);
    assert(list.push(s).drop_last() =~= list);
    assert(now == before + "\n"@ + s);
    assert(now.take(start.len() as int) =~= before.take(start.len() as int));
}

proof fn joined_ends(list: Seq<Seq<char>>, s: Seq<char>)
    requires
        list.len() > 0,
    ensures
        text::ends(text::joined(list.push(s), "\n"@), s),
{
    let before = text::joined(list, "\n"@);
    let now = text::joined(list.push(s), "\n"@);
    assert(list.push(s).drop_last() =~= list);
    assert(now == before + "\n"@ + s);
    assert(now.skip(now.len() - s.len()) =~= s);
}

// ---------------------------------------------------------------------------
// Where messages come from and go to
// ---------------------------------------------------------------------------

/// Whether a text has no word of the first `n` rows of places.
pub open spec fn names_none_of(s: Seq<char>, n: usize) -> bool {
    forall|i: usize| i < n ==> !has_any(s, #[trigger] place(i).1)
}

proof fn first_place_counts(s: Seq<char>, k: usize, n: usize)
    requires
        k <= n < PLACE_COUNT,
        names_none_of(s, n),
        has_any(s, place(n).1),
    ensures
        country_from(s, k) == Some(place(n).0),
    decreases n - k,
{
    if k < n {
        assert(!has_any(s, place(k).1));
        first_place_counts(s, (k + 1) as usize, n);
    }
}

proof fn word_counts(s: Seq<char>, n: usize, i: int)
    requires
        n < PLACE_COUNT,
        0 <= i < place(n).1.len(),
        names_none_of(s, n),
        text::has(s, place(n).1[i]),
    ensures
        country_from(s, 0) == Some(place(n).0),
{
    first_place_counts(s, 0, n);
}

/// A city stands for its country, unless the text names a place further up.
#[verifier::rlimit(40)]
pub proof fn cities_stand_for_their_country(s: &str, r: Option<&'static str>)
    requires
        call_ensures(country_in, (s,), r),
    ensures
        names_none_of(s@, 0) && text::has(s@, "luzern"@) ==> r is Some && (r->0)@ == "CH"@,
        names_none_of(s@, 0) && text::has(s@, "lucerne"@) ==> r is Some && (r->0)@ == "CH"@,
        names_none_of(s@, 0) && text::has(s@, "zuerich"@) ==> r is Some && (r->0)@ == "CH"@,
        names_none_of(s@, 0) && text::has(s@, "zurich"@) ==> r is Some && (r->0)@ == "CH"@,
        names_none_of(s@, 0) && text::has(s@, "bern"@) ==> r is Some && (r->0)@ == "CH"@,
        names_none_of(s@, 0) && text::has(s@, "basel"@) ==> r is Some && (r->0)@ == "CH"@,
        names_none_of(s@, 0) && text::has(s@, "lausanne"@) ==> r is Some && (r->0)@ == "CH"@,
        names_none_of(s@, 0) && text::has(s@, "lugano"@) ==> r is Some && (r->0)@ == "CH"@,
        names_none_of(s@, 0) && text::has(s@, "st. gallen"@) ==> r is Some && (r->0)@ == "CH"@,
        names_none_of(s@, 0) && text::has(s@, "winterthur"@) ==> r is Some && (r->0)@ == "CH"@,
        names_none_of(s@, 1) && text::has(s@, "paris"@) ==> r is Some && (r->0)@ == "FR"@,
        names_none_of(s@, 1) && text::has(s@, "lyon"@) ==> r is Some && (r->0)@ == "FR"@,
        names_none_of(s@, 1) && text::has(s@, "marseille"@) ==> r is Some && (r->0)@ == "FR"@,
        names_none_of(s@, 1) && text::has(s@, "toulouse"@) ==> r is Some && (r->0)@ == "FR"@,
        names_none_of(s@, 1) && text::has(s@, "lille"@) ==> r is Some && (r->0)@ == "FR"@,
        names_none_of(s@, 1) && text::has(s@, "strasbourg"@) ==> r is Some && (r->0)@ == "FR"@,
        names_none_of(s@, 2) && text::has(s@, "berlin"@) ==> r is Some && (r->0)@ == "DE"@,
        names_none_of(s@, 2) && text::has(s@, "muenchen"@) ==> r is Some && (r->0)@ == "DE"@,
        names_none_of(s@, 2) && text::has(s@, "munich"@) ==> r is Some && (r->0)@ == "DE"@,
        names_none_of(s@, 2) && text::has(s@, "hamburg"@) ==> r is Some && (r->0)@ == "DE"@,
        names_none_of(s@, 2) && text::has(s@, "koeln"@) ==> r is Some && (r->0)@ == "DE"@,
        names_none_of(s@, 2) && text::has(s@, "cologne"@) ==> r is Some && (r->0)@ == "DE"@,
        names_none_of(s@, 2) && text::has(s@, "frankfurt"@) ==> r is Some && (r->0)@ == "DE"@,
        names_none_of(s@, 3) && text::has(s@, "wien"@) ==> r is Some && (r->0)@ == "AT"@,
        names_none_of(s@, 3) && text::has(s@, "vienna"@) ==> r is Some && (r->0)@ == "AT"@,
        names_none_of(s@, 3) && text::has(s@, "salzburg"@) ==> r is Some && (r->0)@ == "AT"@,
        names_none_of(s@, 3) && text::has(s@, "innsbruck"@) ==> r is Some && (r->0)@ == "AT"@,
        names_none_of(s@, 3) && text::has(s@, "graz"@) ==> r is Some && (r->0)@ == "AT"@,
        names_none_of(s@, 3) && text::has(s@, "linz"@) ==> r is Some && (r->0)@ == "AT"@,
        names_none_of(s@, 4) && text::has(s@, "roma"@) ==> r is Some && (r->0)@ == "IT"@,
        names_none_of(s@, 4) && text::has(s@, "rome"@) ==> r is Some && (r->0)@ == "IT"@,
        names_none_of(s@, 4) && text::has(s@, "milano"@) ==> r is Some && (r->0)@ == "IT"@,
        names_none_of(s@, 4) && text::has(s@, "milan"@) ==> r is Some && (r->0)@ == "IT"@,
        names_none_of(s@, 4) && text::has(s@, "florence"@) ==> r is Some && (r->0)@ == "IT"@,
        names_none_of(s@, 4) && text::has(s@, "firenze"@) ==> r is Some && (r->0)@ == "IT"@,
        names_none_of(s@, 4) && text::has(s@, "venice"@) ==> r is Some && (r->0)@ == "IT"@,
        names_none_of(s@, 4) && text::has(s@, "venezia"@) ==> r is Some && (r->0)@ == "IT"@,
        names_none_of(s@, 5) && text::has(s@, "madrid"@) ==> r is Some && (r->0)@ == "ES"@,
        names_none_of(s@, 5) && text::has(s@, "barcelona"@) ==> r is Some && (r->0)@ == "ES"@,
        names_none_of(s@, 5) && text::has(s@, "sevilla"@) ==> r is Some && (r->0)@ == "ES"@,
        names_none_of(s@, 5) && text::has(s@, "seville"@) ==> r is Some && (r->0)@ == "ES"@,
        names_none_of(s@, 5) && text::has(s@, "valencia"@) ==> r is Some && (r->0)@ == "ES"@,
{
    if names_none_of(s@, 0) {
        if text::has(s@, "luzern"@) {
            assert(place(0).1[0] == "luzern"@);
            word_counts(s@, 0, 0);
        }
        if text::has(s@, "lucerne"@) {
            assert(place(0).1[1] == "lucerne"@);
            word_counts(s@, 0, 1);
        }
        if text::has(s@, "zuerich"@) {
            assert(place(0).1[2] == "zuerich"@);
            word_counts(s@, 0, 2);
        }
        if text::has(s@, "zurich"@) {
            assert(place(0).1[3] == "zurich"@);
            word_counts(s@, 0, 3);
        }
        if text::has(s@, "bern"@) {
            assert(place(0).1[4] == "bern"@);
            word_counts(s@, 0, 4);
        }
        if text::has(s@, "basel"@) {
            assert(place(0).1[5] == "basel"@);
            word_counts(s@, 0, 5);
        }
        if text::has(s@, "lausanne"@) {
            assert(place(0).1[6] == "lausanne"@);
            word_counts(s@, 0, 6);
        }
        if text::has(s@, "lugano"@) {
            assert(place(0).1[7] == "lugano"@);
            word_counts(s@, 0, 7);
        }
        if text::has(s@, "st. gallen"@) {
            assert(place(0).1[8] == "st. gallen"@);
            word_counts(s@, 0, 8);
        }
        if text::has(s@, "winterthur"@) {
            assert(place(0).1[9] == "winterthur"@);
            word_counts(s@, 0, 9);
        }
    }
    if names_none_of(s@, 1) {
        if text::has(s@, "paris"@) {
            assert(place(1).1[0] == "paris"@);
            word_counts(s@, 1, 0);
        }
        if text::has(s@, "lyon"@) {
            assert(place(1).1[1] == "lyon"@);
            word_counts(s@, 1, 1);
        }
        if text::has(s@, "marseille"@) {
            assert(place(1).1[2] == "marseille"@);
            word_counts(s@, 1, 2);
        }
        if text::has(s@, "toulouse"@) {
            assert(place(1).1[3] == "toulouse"@);
            word_counts(s@, 1, 3);
        }
        if text::has(s@, "lille"@) {
            assert(place(1).1[4] == "lille"@);
            word_counts(s@, 1, 4);
        }
        if text::has(s@, "strasbourg"@) {
            assert(place(1).1[5] == "strasbourg"@);
            word_counts(s@, 1, 5);
        }
    }
    if names_none_of(s@, 2) {
        if text::has(s@, "berlin"@) {
            assert(place(2).1[0] == "berlin"@);
            word_counts(s@, 2, 0);
        }
        if text::has(s@, "muenchen"@) {
            assert(place(2).1[1] == "muenchen"@);
            word_counts(s@, 2, 1);
        }
        if text::has(s@, "munich"@) {
            assert(place(2).1[2] == "munich"@);
            word_counts(s@, 2, 2);
        }
        if text::has(s@, "hamburg"@) {
            assert(place(2).1[3] == "hamburg"@);
            word_counts(s@, 2, 3);
        }
        if text::has(s@, "koeln"@) {
            assert(place(2).1[4] == "koeln"@);
            word_counts(s@, 2, 4);
        }
        if text::has(s@, "cologne"@) {
            assert(place(2).1[5] == "cologne"@);
            word_counts(s@, 2, 5);
        }
        if text::has(s@, "frankfurt"@) {
            assert(place(2).1[6] == "frankfurt"@);
            word_counts(s@, 2, 6);
        }
    }
    if names_none_of(s@, 3) {
        if text::has(s@, "wien"@) {
            assert(place(3).1[0] == "wien"@);
            word_counts(s@, 3, 0);
        }
        if text::has(s@, "vienna"@) {
            assert(place(3).1[1] == "vienna"@);
            word_counts(s@, 3, 1);
        }
        if text::has(s@, "salzburg"@) {
            assert(place(3).1[2] == "salzburg"@);
            word_counts(s@, 3, 2);
        }
        if text::has(s@, "innsbruck"@) {
            assert(place(3).1[3] == "innsbruck"@);
            word_counts(s@, 3, 3);
        }
        if text::has(s@, "graz"@) {
            assert(place(3).1[4] == "graz"@);
            word_counts(s@, 3, 4);
        }
        if text::has(s@, "linz"@) {
            assert(place(3).1[5] == "linz"@);
            word_counts(s@, 3, 5);
        }
    }
    if names_none_of(s@, 4) {
        if text::has(s@, "roma"@) {
            assert(place(4).1[0] == "roma"@);
            word_counts(s@, 4, 0);
        }
        if text::has(s@, "rome"@) {
            assert(place(4).1[1] == "rome"@);
            word_counts(s@, 4, 1);
        }
        if text::has(s@, "milano"@) {
            assert(place(4).1[2] == "milano"@);
            word_counts(s@, 4, 2);
        }
        if text::has(s@, "milan"@) {
            assert(place(4).1[3] == "milan"@);
            word_counts(s@, 4, 3);
        }
        if text::has(s@, "florence"@) {
            assert(place(4).1[4] == "florence"@);
            word_counts(s@, 4, 4);
        }
        if text::has(s@, "firenze"@) {
            assert(place(4).1[5] == "firenze"@);
            word_counts(s@, 4, 5);
        }
        if text::has(s@, "venice"@) {
            assert(place(4).1[6] == "venice"@);
            word_counts(s@, 4, 6);
        }
        if text::has(s@, "venezia"@) {
            assert(place(4).1[7] == "venezia"@);
            word_counts(s@, 4, 7);
        }
    }
    if names_none_of(s@, 5) {
        if text::has(s@, "madrid"@) {
            assert(place(5).1[0] == "madrid"@);
            word_counts(s@, 5, 0);
        }
        if text::has(s@, "barcelona"@) {
            assert(place(5).1[1] == "barcelona"@);
            word_counts(s@, 5, 1);
        }
        if text::has(s@, "sevilla"@) {
            assert(place(5).1[2] == "sevilla"@);
            word_counts(s@, 5, 2);
        }
        if text::has(s@, "seville"@) {
            assert(place(5).1[3] == "seville"@);
            word_counts(s@, 5, 3);
        }
        if text::has(s@, "valencia"@) {
            assert(place(5).1[4] == "valencia"@);
            word_counts(s@, 5, 4);
        }
    }
}

/// Further cities stand for their country, unless the text names a place further up.
#[verifier::rlimit(40)]
pub proof fn more_cities_stand_for_their_country(s: &str, r: Option<&'static str>)
    requires
        call_ensures(country_in, (s,), r),
    ensures
        names_none_of(s@, 6) && text::has(s@, "amsterdam"@) ==> r is Some && (r->0)@ == "NL"@,
        names_none_of(s@, 6) && text::has(s@, "rotterdam"@) ==> r is Some && (r->0)@ == "NL"@,
        names_none_of(s@, 6) && text::has(s@, "den haag"@) ==> r is Some && (r->0)@ == "NL"@,
        names_none_of(s@, 6) && text::has(s@, "the hague"@) ==> r is Some && (r->0)@ == "NL"@,
        names_none_of(s@, 6) && text::has(s@, "utrecht"@) ==> r is Some && (r->0)@ == "NL"@,
        names_none_of(s@, 7) && text::has(s@, "brussels"@) ==> r is Some && (r->0)@ == "BE"@,
        names_none_of(s@, 7) && text::has(s@, "bruessel"@) ==> r is Some && (r->0)@ == "BE"@,
        names_none_of(s@, 7) && text::has(s@, "bruxelles"@) ==> r is Some && (r->0)@ == "BE"@,
        names_none_of(s@, 7) && text::has(s@, "antwerp"@) ==> r is Some && (r->0)@ == "BE"@,
        names_none_of(s@, 7) && text::has(s@, "antwerpen"@) ==> r is Some && (r->0)@ == "BE"@,
        names_none_of(s@, 7) && text::has(s@, "gent"@) ==> r is Some && (r->0)@ == "BE"@,
        names_none_of(s@, 7) && text::has(s@, "ghent"@) ==> r is Some && (r->0)@ == "BE"@,
        names_none_of(s@, 8) && text::has(s@, "london"@) ==> r is Some && (r->0)@ == "GB"@,
        names_none_of(s@, 8) && text::has(s@, "manchester"@) ==> r is Some && (r->0)@ == "GB"@,
        names_none_of(s@, 8) && text::has(s@, "birmingham"@) ==> r is Some && (r->0)@ == "GB"@,
        names_none_of(s@, 8) && text::has(s@, "edinburgh"@) ==> r is Some && (r->0)@ == "GB"@,
        names_none_of(s@, 8) && text::has(s@, "glasgow"@) ==> r is Some && (r->0)@ == "GB"@,
        names_none_of(s@, 9) && text::has(s@, "prague"@) ==> r is Some && (r->0)@ == "CZ"@,
        names_none_of(s@, 9) && text::has(s@, "praha"@) ==> r is Some && (r->0)@ == "CZ"@,
        names_none_of(s@, 9) && text::has(s@, "prag"@) ==> r is Some && (r->0)@ == "CZ"@,
        names_none_of(s@, 10) && text::has(s@, "new york"@) ==> r is Some && (r->0)@ == "US"@,
        names_none_of(s@, 10) && text::has(s@, "nyc"@) ==> r is Some && (r->0)@ == "US"@,
        names_none_of(s@, 10) && text::has(s@, "los angeles"@) ==> r is Some && (r->0)@ == "US"@,
        names_none_of(s@, 10) && text::has(s@, "chicago"@) ==> r is Some && (r->0)@ == "US"@,
{
    if names_none_of(s@, 6) {
        if text::has(s@, "amsterdam"@) {
            assert(place(6).1[0] == "amsterdam"@);
            word_counts(s@, 6, 0);
        }
        if text::has(s@, "rotterdam"@) {
            assert(place(6).1[1] == "rotterdam"@);
            word_counts(s@, 6, 1);
        }
        if text::has(s@, "den haag"@) {
            assert(place(6).1[2] == "den haag"@);
            word_counts(s@, 6, 2);
        }
        if text::has(s@, "the hague"@) {
            assert(place(6).1[3] == "the hague"@);
            word_counts(s@, 6, 3);
        }
        if text::has(s@, "utrecht"@) {
            assert(place(6).1[4] == "utrecht"@);
            word_counts(s@, 6, 4);
        }
    }
    if names_none_of(s@, 7) {
        if text::has(s@, "brussels"@) {
            assert(place(7).1[0] == "brussels"@);
            word_counts(s@, 7, 0);
        }
        if text::has(s@, "bruessel"@) {
            assert(place(7).1[1] == "bruessel"@);
            word_counts(s@, 7, 1);
        }
        if text::has(s@, "bruxelles"@) {
            assert(place(7).1[2] == "bruxelles"@);
            word_counts(s@, 7, 2);
        }
        if text::has(s@, "antwerp"@) {
            assert(place(7).1[3] == "antwerp"@);
            word_counts(s@, 7, 3);
        }
        if text::has(s@, "antwerpen"@) {
            assert(place(7).1[4] == "antwerpen"@);
            word_counts(s@, 7, 4);
        }
        if text::has(s@, "gent"@) {
            assert(place(7).1[5] == "gent"@);
            word_counts(s@, 7, 5);
        }
        if text::has(s@, "ghent"@) {
            assert(place(7).1[6] == "ghent"@);
            word_counts(s@, 7, 6);
        }
    }
    if names_none_of(s@, 8) {
        if text::has(s@, "london"@) {
            assert(place(8).1[0] == "london"@);
            word_counts(s@, 8, 0);
        }
        if text::has(s@, "manchester"@) {
            assert(place(8).1[1] == "manchester"@);
            word_counts(s@, 8, 1);
        }
        if text::has(s@, "birmingham"@) {
            assert(place(8).1[2] == "birmingham"@);
            word_counts(s@, 8, 2);
        }
        if text::has(s@, "edinburgh"@) {
            assert(place(8).1[3] == "edinburgh"@);
            word_counts(s@, 8, 3);
        }
        if text::has(s@, "glasgow"@) {
            assert(place(8).1[4] == "glasgow"@);
            word_counts(s@, 8, 4);
        }
    }
    if names_none_of(s@, 9) {
        if text::has(s@, "prague"@) {
            assert(place(9).1[0] == "prague"@);
            word_counts(s@, 9, 0);
        }
        if text::has(s@, "praha"@) {
            assert(place(9).1[1] == "praha"@);
            word_counts(s@, 9, 1);
        }
        if text::has(s@, "prag"@) {
            assert(place(9).1[2] == "prag"@);
            word_counts(s@, 9, 2);
        }
    }
    if names_none_of(s@, 10) {
        if text::has(s@, "new york"@) {
            assert(place(10).1[0] == "new york"@);
            word_counts(s@, 10, 0);
        }
        if text::has(s@, "nyc"@) {
            assert(place(10).1[1] == "nyc"@);
            word_counts(s@, 10, 1);
        }
        if text::has(s@, "los angeles"@) {
            assert(place(10).1[2] == "los angeles"@);
            word_counts(s@, 10, 2);
        }
        if text::has(s@, "chicago"@) {
            assert(place(10).1[3] == "chicago"@);
            word_counts(s@, 10, 3);
        }
    }
}

/// The name of a country, or its code, stands for it, unless the text names a place further up.
#[verifier::rlimit(40)]
pub proof fn countries_stand_for_themselves(s: &str, r: Option<&'static str>)
    requires
        call_ensures(country_in, (s,), r),
    ensures
        names_none_of(s@, 11) && text::has(s@, "schweiz"@) ==> r is Some && (r->0)@ == "CH"@,
        names_none_of(s@, 11) && text::has(s@, "switzerland"@) ==> r is Some && (r->0)@ == "CH"@,
        names_none_of(s@, 11) && text::has(s@, "suisse"@) ==> r is Some && (r->0)@ == "CH"@,
        names_none_of(s@, 11) && text::has(s@, "svizzera"@) ==> r is Some && (r->0)@ == "CH"@,
        names_none_of(s@, 11) && text::has(s@, " ch "@) ==> r is Some && (r->0)@ == "CH"@,
        names_none_of(s@, 11) && text::has(s@, " ch,"@) ==> r is Some && (r->0)@ == "CH"@,
        names_none_of(s@, 12) && text::has(s@, "deutschland"@) ==> r is Some && (r->0)@ == "DE"@,
        names_none_of(s@, 12) && text::has(s@, "germany"@) ==> r is Some && (r->0)@ == "DE"@,
        names_none_of(s@, 12) && text::has(s@, " de "@) ==> r is Some && (r->0)@ == "DE"@,
        names_none_of(s@, 12) && text::has(s@, " de,"@) ==> r is Some && (r->0)@ == "DE"@,
        names_none_of(s@, 13) && text::has(s@, "oesterreich"@) ==> r is Some && (r->0)@ == "AT"@,
        names_none_of(s@, 13) && text::has(s@, "austria"@) ==> r is Some && (r->0)@ == "AT"@,
        names_none_of(s@, 13) && text::has(s@, " at "@) ==> r is Some && (r->0)@ == "AT"@,
        names_none_of(s@, 13) && text::has(s@, " at,"@) ==> r is Some && (r->0)@ == "AT"@,
        names_none_of(s@, 14) && text::has(s@, "frankreich"@) ==> r is Some && (r->0)@ == "FR"@,
        names_none_of(s@, 14) && text::has(s@, "france"@) ==> r is Some && (r->0)@ == "FR"@,
        names_none_of(s@, 14) && text::has(s@, " fr "@) ==> r is Some && (r->0)@ == "FR"@,
        names_none_of(s@, 14) && text::has(s@, " fr,"@) ==> r is Some && (r->0)@ == "FR"@,
        names_none_of(s@, 15) && text::has(s@, "italien"@) ==> r is Some && (r->0)@ == "IT"@,
        names_none_of(s@, 15) && text::has(s@, "italy"@) ==> r is Some && (r->0)@ == "IT"@,
        names_none_of(s@, 15) && text::has(s@, " it "@) ==> r is Some && (r->0)@ == "IT"@,
        names_none_of(s@, 15) && text::has(s@, " it,"@) ==> r is Some && (r->0)@ == "IT"@,
        names_none_of(s@, 16) && text::has(s@, "usa"@) ==> r is Some && (r->0)@ == "US"@,
        names_none_of(s@, 16) && text::has(s@, "united states"@) ==> r is Some && (r->0)@ == "US"@,
        names_none_of(s@, 16) && text::has(s@, " us "@) ==> r is Some && (r->0)@ == "US"@,
        names_none_of(s@, 16) && text::has(s@, " us,"@) ==> r is Some && (r->0)@ == "US"@,
        names_none_of(s@, 17) && text::has(s@, "uk"@) ==> r is Some && (r->0)@ == "GB"@,
        names_none_of(s@, 17) && text::has(s@, "united kingdom"@) ==> r is Some && (r->0)@ == "GB"@,
        names_none_of(s@, 17) && text::has(s@, "great britain"@) ==> r is Some && (r->0)@ == "GB"@,
        names_none_of(s@, 17) && text::has(s@, " gb "@) ==> r is Some && (r->0)@ == "GB"@,
        names_none_of(s@, 17) && text::has(s@, " gb,"@) ==> r is Some && (r->0)@ == "GB"@,
        names_none_of(s@, 18) && text::has(s@, "spanien"@) ==> r is Some && (r->0)@ == "ES"@,
        names_none_of(s@, 18) && text::has(s@, "spain"@) ==> r is Some && (r->0)@ == "ES"@,
        names_none_of(s@, 18) && text::has(s@, " es "@) ==> r is Some && (r->0)@ == "ES"@,
        names_none_of(s@, 18) && text::has(s@, " es,"@) ==> r is Some && (r->0)@ == "ES"@,
        names_none_of(s@, 19) && text::has(s@, "niederlande"@) ==> r is Some && (r->0)@ == "NL"@,
        names_none_of(s@, 19) && text::has(s@, "netherlands"@) ==> r is Some && (r->0)@ == "NL"@,
        names_none_of(s@, 19) && text::has(s@, "holland"@) ==> r is Some && (r->0)@ == "NL"@,
        names_none_of(s@, 19) && text::has(s@, " nl "@) ==> r is Some && (r->0)@ == "NL"@,
        names_none_of(s@, 19) && text::has(s@, " nl,"@) ==> r is Some && (r->0)@ == "NL"@,
{
    if names_none_of(s@, 11) {
        if text::has(s@, "schweiz"@) {
            assert(place(11).1[0] == "schweiz"@);
            word_counts(s@, 11, 0);
        }
        if text::has(s@, "switzerland"@) {
            assert(place(11).1[1] == "switzerland"@);
            word_counts(s@, 11, 1);
        }
        if text::has(s@, "suisse"@) {
            assert(place(11).1[2] == "suisse"@);
            word_counts(s@, 11, 2);
        }
        if text::has(s@, "svizzera"@) {
            assert(place(11).1[3] == "svizzera"@);
            word_counts(s@, 11, 3);
        }
        if text::has(s@, " ch "@) {
            assert(place(11).1[4] == " ch "@);
            word_counts(s@, 11, 4);
        }
        if text::has(s@, " ch,"@) {
            assert(place(11).1[5] == " ch,"@);
            word_counts(s@, 11, 5);
        }
    }
    if names_none_of(s@, 12) {
        if text::has(s@, "deutschland"@) {
            assert(place(12).1[0] == "deutschland"@);
            word_counts(s@, 12, 0);
        }
        if text::has(s@, "germany"@) {
            assert(place(12).1[1] == "germany"@);
            word_counts(s@, 12, 1);
        }
        if text::has(s@, " de "@) {
            assert(place(12).1[2] == " de "@);
            word_counts(s@, 12, 2);
        }
        if text::has(s@, " de,"@) {
            assert(place(12).1[3] == " de,"@);
            word_counts(s@, 12, 3);
        }
    }
    if names_none_of(s@, 13) {
        if text::has(s@, "oesterreich"@) {
            assert(place(13).1[0] == "oesterreich"@);
            word_counts(s@, 13, 0);
        }
        if text::has(s@, "austria"@) {
            assert(place(13).1[1] == "austria"@);
            word_counts(s@, 13, 1);
        }
        if text::has(s@, " at "@) {
            assert(place(13).1[2] == " at "@);
            word_counts(s@, 13, 2);
        }
        if text::has(s@, " at,"@) {
            assert(place(13).1[3] == " at,"@);
            word_counts(s@, 13, 3);
        }
    }
    if names_none_of(s@, 14) {
        if text::has(s@, "frankreich"@) {
            assert(place(14).1[0] == "frankreich"@);
            word_counts(s@, 14, 0);
        }
        if text::has(s@, "france"@) {
            assert(place(14).1[1] == "france"@);
            word_counts(s@, 14, 1);
        }
        if text::has(s@, " fr "@) {
            assert(place(14).1[2] == " fr "@);
            word_counts(s@, 14, 2);
        }
        if text::has(s@, " fr,"@) {
            assert(place(14).1[3] == " fr,"@);
            word_counts(s@, 14, 3);
        }
    }
    if names_none_of(s@, 15) {
        if text::has(s@, "italien"@) {
            assert(place(15).1[0] == "italien"@);
            word_counts(s@, 15, 0);
        }
        if text::has(s@, "italy"@) {
            assert(place(15).1[1] == "italy"@);
            word_counts(s@, 15, 1);
        }
        if text::has(s@, " it "@) {
            assert(place(15).1[2] == " it "@);
            word_counts(s@, 15, 2);
        }
        if text::has(s@, " it,"@) {
            assert(place(15).1[3] == " it,"@);
            word_counts(s@, 15, 3);
        }
    }
    if names_none_of(s@, 16) {
        if text::has(s@, "usa"@) {
            assert(place(16).1[0] == "usa"@);
            word_counts(s@, 16, 0);
        }
        if text::has(s@, "united states"@) {
            assert(place(16).1[1] == "united states"@);
            word_counts(s@, 16, 1);
        }
        if text::has(s@, " us "@) {
            assert(place(16).1[2] == " us "@);
            word_counts(s@, 16, 2);
        }
        if text::has(s@, " us,"@) {
            assert(place(16).1[3] == " us,"@);
            word_counts(s@, 16, 3);
        }
    }
    if names_none_of(s@, 17) {
        if text::has(s@, "uk"@) {
            assert(place(17).1[0] == "uk"@);
            word_counts(s@, 17, 0);
        }
        if text::has(s@, "united kingdom"@) {
            assert(place(17).1[1] == "united kingdom"@);
            word_counts(s@, 17, 1);
        }
        if text::has(s@, "great britain"@) {
            assert(place(17).1[2] == "great britain"@);
            word_counts(s@, 17, 2);
        }
        if text::has(s@, " gb "@) {
            assert(place(17).1[3] == " gb "@);
            word_counts(s@, 17, 3);
        }
        if text::has(s@, " gb,"@) {
            assert(place(17).1[4] == " gb,"@);
            word_counts(s@, 17, 4);
        }
    }
    if names_none_of(s@, 18) {
        if text::has(s@, "spanien"@) {
            assert(place(18).1[0] == "spanien"@);
            word_counts(s@, 18, 0);
        }
        if text::has(s@, "spain"@) {
            assert(place(18).1[1] == "spain"@);
            word_counts(s@, 18, 1);
        }
        if text::has(s@, " es "@) {
            assert(place(18).1[2] == " es "@);
            word_counts(s@, 18, 2);
        }
        if text::has(s@, " es,"@) {
            assert(place(18).1[3] == " es,"@);
            word_counts(s@, 18, 3);
        }
    }
    if names_none_of(s@, 19) {
        if text::has(s@, "niederlande"@) {
            assert(place(19).1[0] == "niederlande"@);
            word_counts(s@, 19, 0);
        }
        if text::has(s@, "netherlands"@) {
            assert(place(19).1[1] == "netherlands"@);
            word_counts(s@, 19, 1);
        }
        if text::has(s@, "holland"@) {
            assert(place(19).1[2] == "holland"@);
            word_counts(s@, 19, 2);
        }
        if text::has(s@, " nl "@) {
            assert(place(19).1[3] == " nl "@);
            word_counts(s@, 19, 3);
        }
        if text::has(s@, " nl,"@) {
            assert(place(19).1[4] == " nl,"@);
            word_counts(s@, 19, 4);
        }
    }
}

/// So do the names and the codes of further countries.
#[verifier::rlimit(40)]
pub proof fn more_countries_stand_for_themselves(s: &str, r: Option<&'static str>)
    requires
        call_ensures(country_in, (s,), r),
    ensures
        names_none_of(s@, 20) && text::has(s@, "belgien"@) ==> r is Some && (r->0)@ == "BE"@,
        names_none_of(s@, 20) && text::has(s@, "belgium"@) ==> r is Some && (r->0)@ == "BE"@,
        names_none_of(s@, 20) && text::has(s@, " be "@) ==> r is Some && (r->0)@ == "BE"@,
        names_none_of(s@, 20) && text::has(s@, " be,"@) ==> r is Some && (r->0)@ == "BE"@,
        names_none_of(s@, 21) && text::has(s@, "irland"@) ==> r is Some && (r->0)@ == "IE"@,
        names_none_of(s@, 21) && text::has(s@, "ireland"@) ==> r is Some && (r->0)@ == "IE"@,
        names_none_of(s@, 21) && text::has(s@, " ie "@) ==> r is Some && (r->0)@ == "IE"@,
        names_none_of(s@, 21) && text::has(s@, " ie,"@) ==> r is Some && (r->0)@ == "IE"@,
        names_none_of(s@, 22) && text::has(s@, "portugal"@) ==> r is Some && (r->0)@ == "PT"@,
        names_none_of(s@, 22) && text::has(s@, " pt "@) ==> r is Some && (r->0)@ == "PT"@,
        names_none_of(s@, 22) && text::has(s@, " pt,"@) ==> r is Some && (r->0)@ == "PT"@,
        names_none_of(s@, 23) && text::has(s@, "polen"@) ==> r is Some && (r->0)@ == "PL"@,
        names_none_of(s@, 23) && text::has(s@, "poland"@) ==> r is Some && (r->0)@ == "PL"@,
        names_none_of(s@, 23) && text::has(s@, " pl "@) ==> r is Some && (r->0)@ == "PL"@,
        names_none_of(s@, 23) && text::has(s@, " pl,"@) ==> r is Some && (r->0)@ == "PL"@,
        names_none_of(s@, 24) && text::has(s@, "tschechien"@) ==> r is Some && (r->0)@ == "CZ"@,
        names_none_of(s@, 24) && text::has(s@, "czech"@) ==> r is Some && (r->0)@ == "CZ"@,
        names_none_of(s@, 24) && text::has(s@, " cz "@) ==> r is Some && (r->0)@ == "CZ"@,
        names_none_of(s@, 24) && text::has(s@, " cz,"@) ==> r is Some && (r->0)@ == "CZ"@,
        names_none_of(s@, 25) && text::has(s@, "daenemark"@) ==> r is Some && (r->0)@ == "DK"@,
        names_none_of(s@, 25) && text::has(s@, "denmark"@) ==> r is Some && (r->0)@ == "DK"@,
        names_none_of(s@, 25) && text::has(s@, " dk "@) ==> r is Some && (r->0)@ == "DK"@,
        names_none_of(s@, 25) && text::has(s@, " dk,"@) ==> r is Some && (r->0)@ == "DK"@,
        names_none_of(s@, 26) && text::has(s@, "schweden"@) ==> r is Some && (r->0)@ == "SE"@,
        names_none_of(s@, 26) && text::has(s@, "sweden"@) ==> r is Some && (r->0)@ == "SE"@,
        names_none_of(s@, 26) && text::has(s@, " se "@) ==> r is Some && (r->0)@ == "SE"@,
        names_none_of(s@, 26) && text::has(s@, " se,"@) ==> r is Some && (r->0)@ == "SE"@,
        names_none_of(s@, 27) && text::has(s@, "norwegen"@) ==> r is Some && (r->0)@ == "NO"@,
        names_none_of(s@, 27) && text::has(s@, "norway"@) ==> r is Some && (r->0)@ == "NO"@,
        names_none_of(s@, 27) && text::has(s@, " no "@) ==> r is Some && (r->0)@ == "NO"@,
        names_none_of(s@, 27) && text::has(s@, " no,"@) ==> r is Some && (r->0)@ == "NO"@,
        names_none_of(s@, 28) && text::has(s@, "finnland"@) ==> r is Some && (r->0)@ == "FI"@,
        names_none_of(s@, 28) && text::has(s@, "finland"@) ==> r is Some && (r->0)@ == "FI"@,
        names_none_of(s@, 28) && text::has(s@, " fi "@) ==> r is Some && (r->0)@ == "FI"@,
        names_none_of(s@, 28) && text::has(s@, " fi,"@) ==> r is Some && (r->0)@ == "FI"@,
{
    if names_none_of(s@, 20) {
        if text::has(s@, "belgien"@) {
            assert(place(20).1[0] == "belgien"@);
            word_counts(s@, 20, 0);
        }
        if text::has(s@, "belgium"@) {
            assert(place(20).1[1] == "belgium"@);
            word_counts(s@, 20, 1);
        }
        if text::has(s@, " be "@) {
            assert(place(20).1[2] == " be "@);
            word_counts(s@, 20, 2);
        }
        if text::has(s@, " be,"@) {
            assert(place(20).1[3] == " be,"@);
            word_counts(s@, 20, 3);
        }
    }
    if names_none_of(s@, 21) {
        if text::has(s@, "irland"@) {
            assert(place(21).1[0] == "irland"@);
            word_counts(s@, 21, 0);
        }
        if text::has(s@, "ireland"@) {
            assert(place(21).1[1] == "ireland"@);
            word_counts(s@, 21, 1);
        }
        if text::has(s@, " ie "@) {
            assert(place(21).1[2] == " ie "@);
            word_counts(s@, 21, 2);
        }
        if text::has(s@, " ie,"@) {
            assert(place(21).1[3] == " ie,"@);
            word_counts(s@, 21, 3);
        }
    }
    if names_none_of(s@, 22) {
        if text::has(s@, "portugal"@) {
            assert(place(22).1[0] == "portugal"@);
            word_counts(s@, 22, 0);
        }
        if text::has(s@, " pt "@) {
            assert(place(22).1[1] == " pt "@);
            word_counts(s@, 22, 1);
        }
        if text::has(s@, " pt,"@) {
            assert(place(22).1[2] == " pt,"@);
            word_counts(s@, 22, 2);
        }
    }
    if names_none_of(s@, 23) {
        if text::has(s@, "polen"@) {
            assert(place(23).1[0] == "polen"@);
            word_counts(s@, 23, 0);
        }
        if text::has(s@, "poland"@) {
            assert(place(23).1[1] == "poland"@);
            word_counts(s@, 23, 1);
        }
        if text::has(s@, " pl "@) {
            assert(place(23).1[2] == " pl "@);
            word_counts(s@, 23, 2);
        }
        if text::has(s@, " pl,"@) {
            assert(place(23).1[3] == " pl,"@);
            word_counts(s@, 23, 3);
        }
    }
    if names_none_of(s@, 24) {
        if text::has(s@, "tschechien"@) {
            assert(place(24).1[0] == "tschechien"@);
            word_counts(s@, 24, 0);
        }
        if text::has(s@, "czech"@) {
            assert(place(24).1[1] == "czech"@);
            word_counts(s@, 24, 1);
        }
        if text::has(s@, " cz "@) {
            assert(place(24).1[2] == " cz "@);
            word_counts(s@, 24, 2);
        }
        if text::has(s@, " cz,"@) {
            assert(place(24).1[3] == " cz,"@);
            word_counts(s@, 24, 3);
        }
    }
    if names_none_of(s@, 25) {
        if text::has(s@, "daenemark"@) {
            assert(place(25).1[0] == "daenemark"@);
            word_counts(s@, 25, 0);
        }
        if text::has(s@, "denmark"@) {
            assert(place(25).1[1] == "denmark"@);
            word_counts(s@, 25, 1);
        }
        if text::has(s@, " dk "@) {
            assert(place(25).1[2] == " dk "@);
            word_counts(s@, 25, 2);
        }
        if text::has(s@, " dk,"@) {
            assert(place(25).1[3] == " dk,"@);
            word_counts(s@, 25, 3);
        }
    }
    if names_none_of(s@, 26) {
        if text::has(s@, "schweden"@) {
            assert(place(26).1[0] == "schweden"@);
            word_counts(s@, 26, 0);
        }
        if text::has(s@, "sweden"@) {
            assert(place(26).1[1] == "sweden"@);
            word_counts(s@, 26, 1);
        }
        if text::has(s@, " se "@) {
            assert(place(26).1[2] == " se "@);
            word_counts(s@, 26, 2);
        }
        if text::has(s@, " se,"@) {
            assert(place(26).1[3] == " se,"@);
            word_counts(s@, 26, 3);
        }
    }
    if names_none_of(s@, 27) {
        if text::has(s@, "norwegen"@) {
            assert(place(27).1[0] == "norwegen"@);
            word_counts(s@, 27, 0);
        }
        if text::has(s@, "norway"@) {
            assert(place(27).1[1] == "norway"@);
            word_counts(s@, 27, 1);
        }
        if text::has(s@, " no "@) {
            assert(place(27).1[2] == " no "@);
            word_counts(s@, 27, 2);
        }
        if text::has(s@, " no,"@) {
            assert(place(27).1[3] == " no,"@);
            word_counts(s@, 27, 3);
        }
    }
    if names_none_of(s@, 28) {
        if text::has(s@, "finnland"@) {
            assert(place(28).1[0] == "finnland"@);
            word_counts(s@, 28, 0);
        }
        if text::has(s@, "finland"@) {
            assert(place(28).1[1] == "finland"@);
            word_counts(s@, 28, 1);
        }
        if text::has(s@, " fi "@) {
            assert(place(28).1[2] == " fi "@);
            word_counts(s@, 28, 2);
        }
        if text::has(s@, " fi,"@) {
            assert(place(28).1[3] == " fi,"@);
            word_counts(s@, 28, 3);
        }
    }
}

/// A text that names no place has no country.
pub proof fn no_place_no_country(s: &str, r: Option<&'static str>)
    requires
        names_none_of(s@, PLACE_COUNT),
        call_ensures(country_in, (s,), r),
    ensures
        r is None,
{
    no_country_from(s@, 0);
}

proof fn no_country_from(s: Seq<char>, k: usize)
    requires
        k <= PLACE_COUNT,
        names_none_of(s, PLACE_COUNT),
    ensures
        country_from(s, k) is None,
    decreases PLACE_COUNT - k,
{
    if k < PLACE_COUNT {
        assert(!has_any(s, place(k).1));
        no_country_from(s, (k + 1) as usize);
    }
}

/// A label ends with the location; where flags are not shown, the code of the country stands
/// before it in brackets.
pub proof fn labels_name_the_location(
    location: &str,
    country: &'static str,
    shown: String,
    plain: String,
    unknown: String,
)
    requires
        call_ensures(label_with, (location, Some(country), false), shown),
        call_ensures(label_with, (location, Some(country), true), plain),
        call_ensures(label_with, (location, None::<&'static str>, true), unknown),
    ensures
        text::ends(shown@, location@),
        text::ends(plain@, " ["@ + country@ + "] "@ + location@),
        unknown@ == "📍"@ + location@,
        flag(country@) is Some ==> shown@ == flag(country@)->0 + location@,
        flag(country@) is None ==> shown@ == "📍"@ + location@,
{
    assert(shown@.skip(shown@.len() - location@.len()) =~= location@);
    let tail = " ["@ + country@ + "] "@ + location@;
    assert(plain@.skip(plain@.len() - tail.len()) =~= tail);
}

/// An error is sent where its level is error, in any letter case, and one of its events is
/// wanted.
pub proof fn wanted_errors_are_sent(
    level: &str,
    message: &str,
    cfg: &Json,
    events: &Vec<String>,
    wanted: bool,
    r: bool,
)
    requires
        call_ensures(detect_telegram_alert_events, (message, cfg), *events),
        call_ensures(any_event_enabled, (cfg, events), wanted),
        call_ensures(should_send_telegram_for_error, (level, message, cfg), r),
    ensures
        r <==> text::alike(level@, seq!['e', 'r', 'r', 'o', 'r']) && wanted,
{
    reveal_strlit("error");
    assert("error"@ =~= seq!['e', 'r', 'r', 'o', 'r']);
}

/// A setting is read without the white space around it, and is empty where there is none.
pub proof fn settings_are_read(cfg: &Json, key: &str, s: Seq<char>, r: String)
    requires
        call_ensures(text_setting, (cfg, key), r),
    ensures
        cfg@.get(key@) == Some(JsonV::Text(s)) ==> r@ == text::trimmed(s),
        cfg@.get(key@) is None ==> r@.len() == 0,
{
}

/// The report of an end names the location, the date and time, and what ended; a test names the
/// location, the date and time, and the remote address.
pub proof fn reports_name_the_site(
    cfg: &Json,
    message: &str,
    at: &str,
    plain: bool,
    name: &str,
    label: String,
    what: String,
    ended: String,
    tested: String,
)
    requires
        cfg@.get("location_name"@) == Some(JsonV::Text(name@)),
        name@.len() > 0 && text::is_trimmed(name@),
        call_ensures(format_telegram_location_label, (name, plain), label),
        call_ensures(strip_resolution_prefix, (message,), what),
        call_ensures(resolved_text_at, (cfg, message, at, plain), ended),
        call_ensures(test_text_at, (cfg, at, plain), tested),
    ensures
        what@.len() > 0 ==> ended@ == "✅"@ + label@ + "✅\n"@ + at@ + "\n"@ + what@,
        what@.len() == 0 ==> ended@ == "✅"@ + label@ + "✅\n"@ + at@ + "\n"@ + "Error geloest"@,
        text::begins(tested@, "🧪"@ + label@ + "🧪\n"@ + at@ + "\nTestnachricht\n"@),
        cfg@.get("anydesk_address"@) is None
            ==> text::ends(tested@, "Anydeskadresse: nicht gesetzt"@),
{
    let e = Seq::<char>::empty();
    text::trimming_takes_off_white_space(e, name@, e);
    assert(e + name@ + e =~= name@);
    let lead = "🧪"@ + label@ + "🧪\n"@ + at@ + "\nTestnachricht\n"@;
    assert(tested@.take(lead.len() as int) =~= lead);
    if cfg@.get("anydesk_address"@) is None {
        let tail = "Anydeskadresse: nicht gesetzt"@;
        assert(tested@.skip(tested@.len() - tail.len()) =~= tail);
    }
}

/// What is sent is the alarm where the message is one, and the report of its end where it ended.
pub proof fn what_is_sent_is_the_report(
    sent: &mut SentLog,
    cfg: &Json,
    level: &str,
    message: &str,
    now: u64,
    at: &str,
    plain: bool,
    kind: Option<(AlertKind, String)>,
    alarm: String,
    ended: String,
    r: Option<TelegramMessage>,
)
    requires
        call_ensures(decide_alert, (cfg, level, message), kind),
        call_ensures(alarm_text_at, (cfg, message, at, plain), alarm),
        call_ensures(resolved_text_at, (cfg, message, at, plain), ended),
        call_ensures(critical_telegram_at, (sent, cfg, level, message, now, at, plain), r),
    ensures
        kind is None ==> r is None,
        r is Some && (kind->0).0 is Alarm ==> (r->0).text@ == alarm@,
        r is Some && (kind->0).0 is Resolved ==> (r->0).text@ == ended@,
        r is Some ==> final(sent).last@ == old(sent).last@.insert((kind->0).1@, now),
{
}

/// Messages go to the interface of the bot, and what came of it is logged: as an error with the
/// status and the reply where it failed.
pub proof fn posts_are_logged(
    bot_token: &str,
    url: String,
    chat: &str,
    status: &str,
    body: &str,
    good: (&'static str, String),
    bad: (&'static str, String),
)
    requires
        call_ensures(telegram_url, (bot_token,), url),
        call_ensures(telegram_send_log, (chat, true, status, body), good),
        call_ensures(telegram_send_log, (chat, false, status, body), bad),
    ensures
        url@ == "https://api.telegram.org/bot"@ + bot_token@ + "/sendMessage"@,
        good.0@ == "info"@ && text::ends(good.1@, chat@),
        bad.0@ == "error"@ && text::ends(bad.1@, status@ + ". Response: "@ + body@),
{
    assert(good.1@.skip(good.1@.len() - chat@.len()) =~= chat@);
    let tail = status@ + ". Response: "@ + body@;
    assert(bad.1@.skip(bad.1@.len() - tail.len()) =~= tail);
}

/// A test message needs a token and a chat, and goes to that chat only.
pub proof fn tests_need_token_and_chat(
    bot_token: &str,
    chat_id: &str,
    cfg: &Json,
    now: u64,
    plain: bool,
    r: Result<TelegramMessage, String>,
)
    requires
        call_ensures(telegram_test_message, (bot_token, chat_id, cfg, now, plain), r),
    ensures
        r is Ok <==> !text::is_blank(bot_token@) && !text::is_blank(chat_id@),
        r is Ok ==> (r->Ok_0).bot_token@ == text::trimmed(bot_token@) && (r->Ok_0).chats@.len() == 1
            && (r->Ok_0).chats@[0]@ == text::trimmed(chat_id@),
{
    if let Ok(m) = r {
        assert(text::texts(m.chats@).len() == m.chats@.len());
        assert(text::texts(m.chats@)[0] == m.chats@[0]@);
    }
}

} // verus!

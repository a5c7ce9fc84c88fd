//! The amplifiers: mute commands over OCA on TCP, status and gain over HTTP.

use vstd::prelude::*;
use vstd::string::*;
use vstd::utf8::*;

use crate::json;
use crate::json::{Json, JsonV};
use crate::numerals;
use crate::projector_extras;
use crate::strmap;
use crate::strmap::StrMap;
use crate::text;

verus! {

/// The port that the amplifiers take OCA commands at.
pub const OCA_PORT: u16 = 30013;

/// The port that the amplifiers answer HTTP at.
pub const HTTP_PORT: u16 = 80;

// ---------------------------------------------------------------------------
// Hexadecimal
// ---------------------------------------------------------------------------

/// The value of a hexadecimal digit.
pub open spec fn hex_digit(c: char) -> Option<nat> {
    if '0' <= c <= '9' {
        Some((c as u32 - 48) as nat)
    } else if 'a' <= c <= 'f' {
        Some((c as u32 - 87) as nat)
    } else if 'A' <= c <= 'F' {
        Some((c as u32 - 55) as nat)
    } else {
        None
    }
}

/// The value of two characters that stand for a byte: two digits, or a plus sign and a digit.
pub open spec fn hex_byte(a: char, b: char) -> Option<u8> {
    match hex_digit(b) {
        Some(low) => if a == '+' {
            Some(low as u8)
        } else {
            match hex_digit(a) {
                Some(high) => Some((high * 16 + low) as u8),
                None => None,
            }
        },
        None => None,
    }
}

/// Whether a text can be cut into pairs of bytes as far as it is read. A character of two
/// bytes is a pair of its own, and reading ends at the first pair that is no byte.
pub open spec fn cuts_into_pairs(s: Seq<char>) -> bool
    decreases s.len(),
{
    if s.len() == 0 {
        true
    } else if s[0] >= '\u{80}' {
        s[0] < '\u{800}'
    } else if s.len() < 2 || s[1] >= '\u{80}' {
        false
    } else {
        hex_byte(s[0], s[1]) is None || cuts_into_pairs(s.skip(2))
    }
}

/// The bytes that a text spells, and nothing where one of its pairs is no byte.
pub open spec fn hex_bytes(s: Seq<char>) -> Option<Seq<u8>>
    decreases s.len(),
{
    if s.len() == 0 {
        Some(Seq::empty())
    } else if s.len() < 2 {
        None
    } else {
        match (hex_byte(s[0], s[1]), hex_bytes(s.skip(2))) {
            (Some(b), Some(rest)) => Some(seq![b] + rest),
            _ => None,
        }
    }
}

fn digit_of(c: char) -> (r: Option<u8>)
    ensures
        match r {
            Some(d) => hex_digit(c) == Some(d as nat) && d < 16,
            None => hex_digit(c) is None,
        },
{
    if '0' <= c && c <= '9' {
        Some((c as u8) - 48)
    } else if 'a' <= c && c <= 'f' {
        Some((c as u8) - 87)
    } else if 'A' <= c && c <= 'F' {
        Some((c as u8) - 55)
    } else {
        None
    }
}

fn byte_of(a: char, b: char) -> (r: Option<u8>)
    ensures
        r == hex_byte(a, b),
{
    match digit_of(b) {
        Some(low) => if a == '+' {
            Some(low)
        } else {
            match digit_of(a) {
                Some(high) => Some(high * 16 + low),
                None => None,
            }
        },
        None => None,
    }
}

/// Reads a text in hexadecimal.
pub fn hex_to_bytes(hex: &str) -> (r: Result<Vec<u8>, String>)
    requires
        cuts_into_pairs(hex@),
    ensures
        match r {
            Ok(bytes) => hex_bytes(hex@) == Some(bytes@),
            Err(e) => hex_bytes(hex@) is None && e@ == "invalid digit found in string"@,
        },
{
    let v = text::chars_of(hex);
    let n = v.len();
    let mut out: Vec<u8> = Vec::new();
    let mut i: usize = 0;
    proof {
        assert(v@.skip(0) =~= v@);
    }
    while i < n
        invariant
            i <= n,
            n == v@.len(),
            v@ == hex@,
            cuts_into_pairs(v@.skip(i as int)),
            hex_bytes(hex@) == (match hex_bytes(v@.skip(i as int)) {
                Some(rest) => Some(out@ + rest),
                None => None,
            }),
        decreases n - i,
    {
        let ghost rest = v@.skip(i as int);
        proof {
            assert(rest[0] == v@[i as int]);
        }
        if v[i] >= '\u{80}' {
            proof {
                assert(hex_bytes(rest) is None);
            }
            return Err("invalid digit found in string".to_owned());
        }
        proof {
            assert(rest[1] == v@[i + 1]);
            assert(rest.skip(2) =~= v@.skip(i + 2));
        }
        match byte_of(v[i], v[i + 1]) {
            Some(b) => {
                let ghost before = out@;
                out.push(b);
                proof {
                    if let Some(tail) = hex_bytes(v@.skip(i + 2)) {
                        assert(out@ + tail =~= before + (seq![b] + tail));
                    }
                }
            },
            None => {
                return Err("invalid digit found in string".to_owned());
            },
        }
        i += 2;
    }
    proof {
        assert(v@.skip(i as int) =~= Seq::<char>::empty());
        assert(out@ + Seq::<u8>::empty() =~= out@);
    }
    Ok(out)
}

// ---------------------------------------------------------------------------
// Mute
// ---------------------------------------------------------------------------

/// What every command begins with; `size` counts the bytes of the message.
pub open spec fn frame_head(size: u8) -> Seq<u8> {
    seq![0x3bu8, 0x00, 0x01, 0x00, 0x00, 0x00, size, 0x01, 0x00, 0x01, 0x00, 0x00, 0x00, 0x12, 0x00, 0x00, 0x06]
}

/// The number of the mute object of a channel.
pub open spec fn mute_object(channel: char) -> Seq<u8> {
    if channel == 'A' {
        seq![0x10u8, 0x00, 0x82]
    } else if channel == 'B' {
        seq![0x10u8, 0x01, 0x02]
    } else if channel == 'C' {
        seq![0x10u8, 0x01, 0x82]
    } else {
        seq![0x10u8, 0x02, 0x02]
    }
}

/// The command that asks for the state of a channel.
pub open spec fn get_mute_bytes(channel: char) -> Seq<u8> {
    frame_head(0x17) + seq![(0xc4 + (channel as u32 - 65)) as u8] + mute_object(channel) + seq![
        0x03u8,
        0x00,
        0x02,
        0x00,
        0x01,
    ]
}

/// The command that mutes a channel or ends its mute.
pub open spec fn set_mute_bytes(channel: char, muted: bool) -> Seq<u8> {
    frame_head(0x1b) + seq![
        ((if muted {
            0xc4int
        } else {
            0xc8int
        }) + (channel as u32 - 65)) as u8,
    ] + mute_object(channel) + seq![
        0x05u8,
        0x00,
        0x04,
        0x00,
        0x02,
        0x01,
        if muted {
            0x01
        } else {
            0x02
        },
    ]
}

pub open spec fn is_channel(c: char) -> bool {
    'A' <= c <= 'D'
}

fn head(size: u8) -> (r: Vec<u8>)
    ensures
        r@ == frame_head(size),
{
    vec![0x3b, 0x00, 0x01, 0x00, 0x00, 0x00, size, 0x01, 0x00, 0x01, 0x00, 0x00, 0x00, 0x12, 0x00, 0x00, 0x06]
}

fn object_of(channel: char) -> (r: Vec<u8>)
    ensures
        r@ == mute_object(channel),
{
    if channel == 'A' {
        vec![0x10, 0x00, 0x82]
    } else if channel == 'B' {
        vec![0x10, 0x01, 0x02]
    } else if channel == 'C' {
        vec![0x10, 0x01, 0x82]
    } else {
        vec![0x10, 0x02, 0x02]
    }
}

/// Builds the command that asks for the state of a channel.
pub fn get_mute_command(channel: char) -> (r: Vec<u8>)
    requires
        is_channel(channel),
    ensures
        r@ == get_mute_bytes(channel),
{
    let mut out = head(0x17);
    out.push(0xc4 + ((channel as u8) - 65));
    numerals::extend_bytes(&mut out, &object_of(channel));
    numerals::extend_bytes(&mut out, &vec![0x03, 0x00, 0x02, 0x00, 0x01]);
    proof {
        assert(out@ =~= get_mute_bytes(channel));
    }
    out
}

/// Builds the command that mutes a channel or ends its mute.
pub fn set_mute_command(channel: char, muted: bool) -> (r: Vec<u8>)
    requires
        is_channel(channel),
    ensures
        r@ == set_mute_bytes(channel, muted),
{
    let mut out = head(0x1b);
    let base: u8 = if muted {
        0xc4
    } else {
        0xc8
    };
    let state: u8 = if muted {
        0x01
    } else {
        0x02
    };
    out.push(base + ((channel as u8) - 65));
    numerals::extend_bytes(&mut out, &object_of(channel));
    numerals::extend_bytes(&mut out, &vec![0x05, 0x00, 0x04, 0x00, 0x02, 0x01, state]);
    proof {
        assert(out@ =~= set_mute_bytes(channel, muted));
    }
    out
}

/// The channel and the state that a command for one channel names.
pub open spec fn mute_command(cmd: Seq<char>) -> Option<(char, bool)> {
    if cmd == "mute_A"@ {
        Some(('A', true))
    } else if cmd == "unmute_A"@ {
        Some(('A', false))
    } else if cmd == "mute_B"@ {
        Some(('B', true))
    } else if cmd == "unmute_B"@ {
        Some(('B', false))
    } else if cmd == "mute_C"@ {
        Some(('C', true))
    } else if cmd == "unmute_C"@ {
        Some(('C', false))
    } else if cmd == "mute_D"@ {
        Some(('D', true))
    } else if cmd == "unmute_D"@ {
        Some(('D', false))
    } else {
        None
    }
}

fn read_mute_command(cmd: &str) -> (r: Option<(char, bool)>)
    ensures
        r == mute_command(cmd@),
        r matches Some((c, _)) ==> is_channel(c),
{
    if text::same(cmd, "mute_A") {
        Some(('A', true))
    } else if text::same(cmd, "unmute_A") {
        Some(('A', false))
    } else if text::same(cmd, "mute_B") {
        Some(('B', true))
    } else if text::same(cmd, "unmute_B") {
        Some(('B', false))
    } else if text::same(cmd, "mute_C") {
        Some(('C', true))
    } else if text::same(cmd, "unmute_C") {
        Some(('C', false))
    } else if text::same(cmd, "mute_D") {
        Some(('D', true))
    } else if text::same(cmd, "unmute_D") {
        Some(('D', false))
    } else {
        None
    }
}

/// The bytes of a command for one channel.
pub fn get_cmd_bytes(cmd: &str) -> (r: Result<Vec<u8>, String>)
    ensures
        match (r, mute_command(cmd@)) {
            (Ok(bytes), Some((c, muted))) => bytes@ == set_mute_bytes(c, muted),
            (Err(e), None) => e@ == "Unknown: "@ + cmd@,
            _ => false,
        },
{
    match read_mute_command(cmd) {
        Some((c, muted)) => Ok(set_mute_command(c, muted)),
        None => Err(text::glue("Unknown: ", cmd)),
    }
}

/// What a command comes down to.
#[derive(Debug, PartialEq)]
pub enum OcaPlan {
    /// The state of a channel is asked for: these bytes are sent, and the reply is read.
    Ask(Vec<u8>),
    /// The state of something that is no channel is asked for: nothing is sent.
    AskUnknown,
    /// These bytes are sent, and a reply is awaited.
    Send(Vec<u8>),
    /// These messages are sent one after the other, and no reply is awaited.
    SendEach(Vec<Vec<u8>>),
    /// The frame that is stored for this preset is sent, and a reply is awaited.
    Preset(u8),
    /// The command is not known.
    Refuse(String),
}

/// The mathematical value of an [`OcaPlan`].
pub enum OcaPlanV {
    Ask(Seq<u8>),
    AskUnknown,
    Send(Seq<u8>),
    SendEach(Seq<Seq<u8>>),
    Preset(u8),
    Refuse(Seq<char>),
}

pub open spec fn byte_lists(list: Seq<Vec<u8>>) -> Seq<Seq<u8>> {
    Seq::new(list.len(), |i: int| list[i]@)
}

impl View for OcaPlan {
    type V = OcaPlanV;

    open spec fn view(&self) -> OcaPlanV {
        match self {
            OcaPlan::Ask(b) => OcaPlanV::Ask(b@),
            OcaPlan::AskUnknown => OcaPlanV::AskUnknown,
            OcaPlan::Send(b) => OcaPlanV::Send(b@),
            OcaPlan::SendEach(l) => OcaPlanV::SendEach(byte_lists(l@)),
            OcaPlan::Preset(n) => OcaPlanV::Preset(*n),
            OcaPlan::Refuse(e) => OcaPlanV::Refuse(e@),
        }
    }
}

/// The commands that set all four channels.
pub open spec fn all_channels(muted: bool) -> Seq<Seq<u8>> {
    seq![
        set_mute_bytes('A', muted),
        set_mute_bytes('B', muted),
        set_mute_bytes('C', muted),
        set_mute_bytes('D', muted),
    ]
}

/// The number of the preset that a command loads.
pub open spec fn preset_command(command: Seq<char>) -> Option<u8> {
    if command == "preset_1"@ {
        Some(1u8)
    } else if command == "preset_2"@ {
        Some(2u8)
    } else if command == "preset_3"@ {
        Some(3u8)
    } else {
        None
    }
}

fn read_preset_command(command: &str) -> (r: Option<u8>)
    ensures
        r == preset_command(command@),
{
    if text::same(command, "preset_1") {
        Some(1)
    } else if text::same(command, "preset_2") {
        Some(2)
    } else if text::same(command, "preset_3") {
        Some(3)
    } else {
        None
    }
}

/// What a command comes down to: a question for the state of the channel that its last
/// character names, a command for one channel, one for all four, or a preset.
pub open spec fn command_plan(command: Seq<char>) -> OcaPlanV {
    if text::begins(command, "get_mute_"@) {
        if is_channel(command.last()) {
            OcaPlanV::Ask(get_mute_bytes(command.last()))
        } else {
            OcaPlanV::AskUnknown
        }
    } else {
        match mute_command(command) {
            Some((c, muted)) => OcaPlanV::Send(set_mute_bytes(c, muted)),
            None => if command == "mute_all"@ {
                OcaPlanV::SendEach(all_channels(true))
            } else if command == "unmute_all"@ {
                OcaPlanV::SendEach(all_channels(false))
            } else {
                match preset_command(command) {
                    Some(n) => OcaPlanV::Preset(n),
                    None => OcaPlanV::Refuse("Unknown command: "@ + command),
                }
            },
        }
    }
}

fn each_channel(muted: bool) -> (r: Vec<Vec<u8>>)
    ensures
        byte_lists(r@) == all_channels(muted),
{
    let mut list: Vec<Vec<u8>> = Vec::new();
    list.push(set_mute_command('A', muted));
    list.push(set_mute_command('B', muted));
    list.push(set_mute_command('C', muted));
    list.push(set_mute_command('D', muted));
    proof {
        assert(byte_lists(list@) =~= all_channels(muted));
    }
    list
}

/// Works out what a command comes down to.
pub fn plan_command(command: &str) -> (r: OcaPlan)
    ensures
        r@ == command_plan(command@),
{
    if text::starts_with(command, "get_mute_") {
        let v = text::chars_of(command);
        let n = v.len();
        proof {
            reveal_strlit("get_mute_");
        }
        let c = v[n - 1];
        if 'A' <= c && c <= 'D' {
            return OcaPlan::Ask(get_mute_command(c));
        }
        return OcaPlan::AskUnknown;
    }
    match read_mute_command(command) {
        Some((c, muted)) => OcaPlan::Send(set_mute_command(c, muted)),
        None => if text::same(command, "mute_all") {
            OcaPlan::SendEach(each_channel(true))
        } else if text::same(command, "unmute_all") {
            OcaPlan::SendEach(each_channel(false))
        } else {
            match read_preset_command(command) {
                Some(n) => OcaPlan::Preset(n),
                None => OcaPlan::Refuse(text::glue("Unknown command: ", command)),
            }
        },
    }
}

/// What the reply to a question for the state of a channel says: its last byte is 1 where the
/// channel is muted.
pub fn mute_reply(reply: &Vec<u8>) -> (r: Result<String, String>)
    ensures
        projector_extras::view_text_result(r) == if reply@.len() == 0 {
            Err("No mute status response"@)
        } else if reply@.last() == 1 {
            Ok("muted:true"@)
        } else {
            Ok("muted:false"@)
        },
{
    let n = reply.len();
    if n == 0 {
        return Err("No mute status response".to_owned());
    }
    if reply[n - 1] == 1 {
        Ok("muted:true".to_owned())
    } else {
        Ok("muted:false".to_owned())
    }
}

/// The report on the state of a channel that the amplifier does not have.
pub fn unknown_mute_report() -> (r: String)
    ensures
        r@ == "muted:unknown"@,
{
    "muted:unknown".to_owned()
}

/// The report on a command that went to all channels.
pub fn all_sent_report(command: &str) -> (r: String)
    ensures
        r@ == command@ + " sent"@,
{
    text::glue(command, " sent")
}

/// What is reported of a command that was sent.
pub fn sent_report(command: &str, ip: &str) -> (r: String)
    ensures
        r@ == command@ + " sent to "@ + ip@,
{
    text::glue3(command, " sent to ", ip)
}

// ---------------------------------------------------------------------------
// Presets
// ---------------------------------------------------------------------------

/// The frame that is stored for a preset; presets count from one, and an empty frame is none.
pub open spec fn stored_frame(n: u8, frames: Seq<Seq<u8>>) -> Option<Seq<u8>> {
    if 1 <= n <= frames.len() && frames[n - 1].len() > 0 {
        Some(frames[n - 1])
    } else {
        None
    }
}

/// The frame that loads a preset, out of those that are stored.
pub fn preset_frame(n: u8, frames: &Vec<Vec<u8>>) -> (r: Result<Vec<u8>, String>)
    ensures
        match (r, stored_frame(n, byte_lists(frames@))) {
            (Ok(frame), Some(stored)) => frame@ == stored,
            (Err(e), None) => e@ == "No frame is stored for preset "@ + numerals::dec(n as nat),
            _ => false,
        },
{
    if 1 <= n && n as usize <= frames.len() && frames[n as usize - 1].len() > 0 {
        let frame = &frames[n as usize - 1];
        Ok(numerals::bytes_between(frame, 0, frame.len()))
    } else {
        Err(text::glue("No frame is stored for preset ", numerals::dec_u64(n as u64).as_str()))
    }
}

/// What a text in the settings holds as a frame: the bytes that it spells in hexadecimal, or
/// none.
pub open spec fn frame_in_text(s: Seq<char>) -> Seq<u8> {
    match hex_bytes(s) {
        Some(bytes) => bytes,
        None => Seq::empty(),
    }
}

proof fn pairs_of_ascii(s: Seq<char>)
    requires
        text::is_ascii_text(s),
        s.len() % 2 == 0,
    ensures
        cuts_into_pairs(s),
    decreases s.len(),
{
    if s.len() > 0 {
        pairs_of_ascii(s.skip(2));
    }
}

proof fn hexadecimal_is_ascii(s: Seq<char>)
    requires
        hex_bytes(s) is Some,
    ensures
        text::is_ascii_text(s),
        s.len() % 2 == 0,
    decreases s.len(),
{
    if s.len() > 0 {
        hexadecimal_is_ascii(s.skip(2));
        assert forall|i: int| 0 <= i < s.len() implies (#[trigger] s[i]) < '\u{80}' by {
            if i >= 2 {
                assert(s[i] == s.skip(2)[i - 2]);
            }
        }
    }
}

fn ascii_pairs(s: &str) -> (r: bool)
    ensures
        r == (text::is_ascii_text(s@) && s@.len() % 2 == 0),
{
    let v = text::chars_of(s);
    let mut i: usize = 0;
    while i < v.len()
        invariant
            i <= v@.len(),
            v@ == s@,
            forall|k: int| 0 <= k < i ==> (#[trigger] v@[k]) < '\u{80}',
        decreases v@.len() - i,
    {
        if v[i] >= '\u{80}' {
            return false;
        }
        i += 1;
    }
    v.len() % 2 == 0
}

fn read_frame(s: &str) -> (r: Vec<u8>)
    ensures
        r@ == frame_in_text(s@),
{
    if ascii_pairs(s) {
        proof {
            pairs_of_ascii(s@);
        }
        match hex_to_bytes(s) {
            Ok(bytes) => bytes,
            Err(_) => Vec::new(),
        }
    } else {
        proof {
            if hex_bytes(s@) is Some {
                hexadecimal_is_ascii(s@);
            }
        }
        Vec::new()
    }
}

/// What a value in the settings holds as a frame.
pub open spec fn frame_in(v: JsonV) -> Seq<u8> {
    match v.as_text() {
        Some(s) => frame_in_text(s),
        None => Seq::empty(),
    }
}

/// The frames that the settings hold for the presets, that of the first preset first.
pub open spec fn frames_in(cfg: JsonV) -> Seq<Seq<u8>> {
    match cfg.get("d40_presets"@) {
        Some(v) => match v.as_list() {
            Some(l) => Seq::new(l.len(), |i: int| frame_in(l[i])),
            None => Seq::empty(),
        },
        None => Seq::empty(),
    }
}

/// Reads the frames of the presets out of the settings.
pub fn preset_frames(cfg: &Json) -> (r: Vec<Vec<u8>>)
    ensures
        byte_lists(r@) == frames_in(cfg@),
{
    let mut out: Vec<Vec<u8>> = Vec::new();
    let list = match cfg.get("d40_presets") {
        Some(v) => match v.as_array() {
            Some(l) => l,
            None => {
                proof {
                    assert(byte_lists(out@) =~= frames_in(cfg@));
                }
                return out;
            },
        },
        None => {
            proof {
                assert(byte_lists(out@) =~= frames_in(cfg@));
            }
            return out;
        },
    };
    let ghost values = json::list_view(list@);
    proof {
        json::list_view_index(list@);
    }
    let mut i: usize = 0;
    while i < list.len()
        invariant
            i <= list@.len(),
            values.len() == list@.len(),
            forall|k: int| 0 <= k < list@.len() ==> #[trigger] values[k] == list@[k]@,
            out@.len() == i,
            forall|k: int| 0 <= k < i ==> (#[trigger] out@[k])@ == frame_in(values[k]),
        decreases list@.len() - i,
    {
        let frame = match list[i].as_str() {
            Some(s) => read_frame(s),
            None => Vec::new(),
        };
        proof {
            assert(frame@ =~= frame_in(values[i as int]));
        }
        out.push(frame);
        i += 1;
    }
    proof {
        assert(byte_lists(out@) =~= frames_in(cfg@));
    }
    out
}

/// The commands that an amplifier takes.
pub open spec fn is_listed(command: Seq<char>) -> bool {
    mute_command(command) is Some || command == "mute_all"@ || command == "unmute_all"@
        || preset_command(command) is Some
}

/// The frames that a command puts on the wire, with these stored for the presets.
pub open spec fn frames_sent(plan: OcaPlanV, stored: Seq<Seq<u8>>) -> Seq<Seq<u8>> {
    match plan {
        OcaPlanV::Ask(b) => seq![b],
        OcaPlanV::AskUnknown => Seq::empty(),
        OcaPlanV::Send(b) => seq![b],
        OcaPlanV::SendEach(l) => l,
        OcaPlanV::Preset(n) => match stored_frame(n, stored) {
            Some(frame) => seq![frame],
            None => Seq::empty(),
        },
        OcaPlanV::Refuse(_) => Seq::empty(),
    }
}

/// No command that an amplifier takes is refused as unknown, and each puts at least one frame
/// on the wire, a preset where a frame is stored for it.
pub proof fn listed_commands_are_sent(command: Seq<char>, stored: Seq<Seq<u8>>)
    requires
        is_listed(command),
    ensures
        command_plan(command) !is Refuse,
        (match preset_command(command) {
            Some(n) => stored_frame(n, stored) is Some,
            None => true,
        }) ==> frames_sent(command_plan(command), stored).len() > 0,
        preset_command(command) matches Some(n) ==> command_plan(command) == OcaPlanV::Preset(n),
{
    reveal_strlit("get_mute_");
    reveal_strlit("mute_A");
    reveal_strlit("mute_B");
    reveal_strlit("mute_C");
    reveal_strlit("mute_D");
    reveal_strlit("unmute_A");
    reveal_strlit("unmute_B");
    reveal_strlit("unmute_C");
    reveal_strlit("unmute_D");
    reveal_strlit("mute_all");
    reveal_strlit("unmute_all");
    reveal_strlit("preset_1");
    reveal_strlit("preset_2");
    reveal_strlit("preset_3");
    assert(command[0] != 'g');
    assert(!text::begins(command, "get_mute_"@)) by {
        if text::begins(command, "get_mute_"@) {
            assert(command.take("get_mute_"@.len() as int)[0] == command[0]);
        }
    }
}

// ---------------------------------------------------------------------------
// Percent-encoding
// ---------------------------------------------------------------------------

/// Whether a byte stands for itself in an address.
pub open spec fn is_unreserved(b: u8) -> bool {
    65 <= b <= 90 || 97 <= b <= 122 || 48 <= b <= 57 || b == 45 || b == 95 || b == 46 || b == 126
}

pub open spec fn byte_encoded(b: u8) -> Seq<char> {
    if is_unreserved(b) {
        seq![b as char]
    } else {
        "%"@ + numerals::hex_pair(b)
    }
}

pub open spec fn bytes_encoded(bytes: Seq<u8>) -> Seq<char>
    decreases bytes.len(),
{
    if bytes.len() == 0 {
        Seq::empty()
    } else {
        bytes_encoded(bytes.drop_last()) + byte_encoded(bytes.last())
    }
}

/// Writes a text so that it can stand in an address.
pub fn url_encode(value: &str) -> (r: String)
    ensures
        r@ == bytes_encoded(encode_utf8(value@)),
{
    let bytes = numerals::bytes_of(value);
    let mut out = String::new();
    let mut i: usize = 0;
    while i < bytes.len()
        invariant
            i <= bytes@.len(),
            out@ == bytes_encoded(bytes@.take(i as int)),
        decreases bytes@.len() - i,
    {
        let b = bytes[i];
        let ghost before = out@;
        proof {
            assert(bytes@.take(i + 1).drop_last() =~= bytes@.take(i as int));
        }
        if (65 <= b && b <= 90) || (97 <= b && b <= 122) || (48 <= b && b <= 57) || b == 45 || b
            == 95 || b == 46 || b == 126 {
            out.push(b as char);
            proof {
                assert(out@ =~= before + byte_encoded(b));
            }
        } else {
            out.append("%");
            numerals::push_hex_pair(&mut out, b);
            proof {
                assert(out@ =~= before + byte_encoded(b));
            }
        }
        i += 1;
    }
    proof {
        assert(bytes@.take(i as int) =~= bytes@);
    }
    out
}

/// The bytes that a percent-encoded text stands for.
pub open spec fn bytes_decoded(s: Seq<char>) -> Seq<u8>
    decreases s.len(),
{
    if s.len() == 0 {
        Seq::empty()
    } else if s[0] == '%' && s.len() >= 3 && hex_byte(s[1], s[2]) is Some {
        seq![hex_byte(s[1], s[2])->0] + bytes_decoded(s.skip(3))
    } else {
        seq![s[0] as u8] + bytes_decoded(s.skip(1))
    }
}

proof fn encoded_from_front(bytes: Seq<u8>)
    requires
        bytes.len() > 0,
    ensures
        bytes_encoded(bytes) == byte_encoded(bytes[0]) + bytes_encoded(bytes.skip(1)),
    decreases bytes.len(),
{
    let front = bytes.drop_last();
    if front.len() == 0 {
        assert(bytes.skip(1) =~= Seq::<u8>::empty());
        assert(bytes_encoded(front) =~= Seq::<char>::empty());
        assert(bytes_encoded(bytes) =~= byte_encoded(bytes[0]));
        assert(bytes_encoded(bytes) =~= byte_encoded(bytes[0]) + bytes_encoded(bytes.skip(1)));
    } else {
        encoded_from_front(front);
        assert(bytes.skip(1).drop_last() =~= front.skip(1));
        assert(bytes_encoded(bytes) =~= byte_encoded(bytes[0]) + bytes_encoded(bytes.skip(1)));
    }
}

/// Decoding gives back what was encoded.
pub proof fn encoding_reads_back(bytes: Seq<u8>)
    ensures
        bytes_decoded(bytes_encoded(bytes)) == bytes,
    decreases bytes.len(),
{
    if bytes.len() > 0 {
        encoded_from_front(bytes);
        encoding_reads_back(bytes.skip(1));
        let b = bytes[0];
        let one = byte_encoded(b);
        let rest = bytes_encoded(bytes.skip(1));
        let s = one + rest;
        reveal_strlit("%");
        if is_unreserved(b) {
            assert(s[0] == b as char);
            assert(s[0] as u8 == b);
            assert(s.skip(1) =~= rest);
        } else {
            assert("%"@.len() == 1);
            assert(s[0] == '%');
            assert(s[1] == numerals::hex_pair(b)[0]);
            assert(s[2] == numerals::hex_pair(b)[1]);
            assert(hex_byte(s[1], s[2]) == Some(b));
            assert(s.skip(3) =~= rest);
        }
        assert(seq![b] + bytes.skip(1) =~= bytes);
    }
}

// ---------------------------------------------------------------------------
// Status and gain over HTTP
// ---------------------------------------------------------------------------

/// The request for a path.
pub fn http_request(ip: &str, path: &str) -> (r: String)
    ensures
        r@ == "GET "@ + path@ + " HTTP/1.0\r\nHost: "@ + ip@ + "\r\nConnection: close\r\n\r\n"@,
{
    let mut out = text::glue3("GET ", path, " HTTP/1.0\r\nHost: ");
    out.append(ip);
    out.append("\r\nConnection: close\r\n\r\n");
    out
}

/// The body of a response: what follows the first empty line, or all of it.
pub open spec fn body_of(response: Seq<char>) -> Seq<char> {
    match text::after_first(response, "\r\n\r\n"@) {
        Some(body) => body,
        None => response,
    }
}

/// Cuts the body out of a response.
pub fn response_body(response: &str) -> (r: String)
    ensures
        r@ == body_of(response@),
{
    match text::tail_after(response, "\r\n\r\n") {
        Some(body) => body,
        None => response.to_owned(),
    }
}

/// The body in the bytes of a response.
pub fn http_body(response: &Vec<u8>) -> (r: String)
    ensures
        r@ == body_of(numerals::utf8_lossy(response@)),
{
    response_body(numerals::lossy_text(response).as_str())
}

/// The path of a command of the web interface.
pub open spec fn dx_path(cmd: Seq<char>) -> Seq<char> {
    "/dxcmd.cgi?cmd="@ + bytes_encoded(encode_utf8(cmd))
}

fn dx_path_of(cmd: &str) -> (r: String)
    ensures
        r@ == dx_path(cmd@),
{
    text::glue("/dxcmd.cgi?cmd=", url_encode(cmd).as_str())
}

/// Two numbers behind a word.
pub open spec fn at_point(word: Seq<char>, x: u32, y: u32) -> Seq<char> {
    word + " "@ + numerals::dec(x as nat) + " "@ + numerals::dec(y as nat)
}

fn at_point_of(word: &str, x: u32, y: u32) -> (r: String)
    ensures
        r@ == at_point(word@, x, y),
{
    let mut out = text::glue3(word, " ", numerals::dec_u64(x as u64).as_str());
    out.append(" ");
    out.append(numerals::dec_u64(y as u64).as_str());
    out
}

/// The path that asks for the element at a point.
pub fn eleinfo_path(x: u32, y: u32) -> (r: String)
    ensures
        r@ == dx_path(at_point("ELEINFO"@, x, y)),
{
    dx_path_of(at_point_of("ELEINFO", x, y).as_str())
}

/// The name and the value that a part of a description gives.
pub open spec fn element_field(token: Seq<char>) -> Option<(Seq<char>, Seq<char>)> {
    match text::found(token, seq!['=']) {
        Some(i) => Some((text::trimmed(token.take(i)), text::trimmed(token.skip(i + 1)))),
        None => None,
    }
}

/// The fields that the parts of a description give, with their names in lower case; a later
/// one replaces an earlier one.
pub open spec fn element_fields(tokens: Seq<Seq<char>>) -> Map<Seq<char>, Seq<char>>
    decreases tokens.len(),
{
    if tokens.len() == 0 {
        Map::empty()
    } else {
        let before = element_fields(tokens.drop_last());
        match element_field(tokens.last()) {
            Some((k, v)) => before.insert(text::unicode_lowercase(k), v),
            None => before,
        }
    }
}

/// The fields that the parts of an ASCII description give.
pub open spec fn ascii_element_fields(tokens: Seq<Seq<char>>) -> Map<Seq<char>, Seq<char>>
    decreases tokens.len(),
{
    if tokens.len() == 0 {
        Map::empty()
    } else {
        let before = ascii_element_fields(tokens.drop_last());
        match element_field(tokens.last()) {
            Some((k, v)) => before.insert(text::lowered(k), v),
            None => before,
        }
    }
}

proof fn field_name_is_ascii(token: Seq<char>)
    requires
        text::is_ascii_text(token),
    ensures
        element_field(token) matches Some((k, _)) ==> text::is_ascii_text(k),
{
    if let Some(i) = text::found(token, seq!['=']) {
        text::found_is_first(token, seq!['='], 0);
        assert(text::is_ascii_text(token.take(i)));
        text::trimmed_is_ascii(token.take(i));
    }
}

/// Cuts a part of a description into the name and the value.
pub fn split_field(token: &str) -> (r: Option<(String, String)>)
    ensures
        match r {
            Some((k, v)) => element_field(token@) == Some((k@, v@)),
            None => element_field(token@) is None,
        },
{
    match projector_extras::split_at_equals(token) {
        Some((k, v)) => Some((text::trim(k.as_str()), text::trim(v.as_str()))),
        None => None,
    }
}

pub open spec fn view_map(r: Result<StrMap<String>, String>) -> Result<
    Map<Seq<char>, Seq<char>>,
    Seq<char>,
> {
    match r {
        Ok(m) => Ok(strmap::text_map(m)),
        Err(e) => Err(e@),
    }
}

/// What a description with these fields reads as.
pub open spec fn outcome_with(value: Seq<char>, m: Map<Seq<char>, Seq<char>>) -> Result<
    Map<Seq<char>, Seq<char>>,
    Seq<char>,
> {
    if m == Map::<Seq<char>, Seq<char>>::empty() {
        Err("Invalid ELEINFO response: "@ + value)
    } else {
        Ok(m)
    }
}

/// What a description of an element reads as.
pub open spec fn element_outcome(value: Seq<char>) -> Result<Map<Seq<char>, Seq<char>>, Seq<char>> {
    outcome_with(value, element_fields(text::pieces(value, ',')))
}

/// What an ASCII description of an element reads as.
pub open spec fn ascii_element_outcome(value: Seq<char>) -> Result<
    Map<Seq<char>, Seq<char>>,
    Seq<char>,
> {
    outcome_with(value, ascii_element_fields(text::pieces(value, ',')))
}

/// Reads the description of an element.
pub fn parse_eleinfo(value: &str) -> (r: Result<StrMap<String>, String>)
    ensures
        view_map(r) == element_outcome(value@),
        text::is_ascii_text(value@) ==> view_map(r) == ascii_element_outcome(value@),
{
    let tokens = text::split(value, ',');
    let ghost all = text::texts(tokens@);
    proof {
        if text::is_ascii_text(value@) {
            text::pieces_are_ascii(value@, ',');
        }
    }
    let mut m = strmap::empty_text_map();
    let mut any = false;
    let mut i: usize = 0;
    while i < tokens.len()
        invariant
            i <= tokens@.len(),
            all == text::texts(tokens@),
            all == text::pieces(value@, ','),
            text::is_ascii_text(value@) ==> forall|k: int|
                0 <= k < all.len() ==> text::is_ascii_text(#[trigger] all[k]),
            strmap::text_map(m) == element_fields(all.take(i as int)),
            text::is_ascii_text(value@) ==> strmap::text_map(m) == ascii_element_fields(
                all.take(i as int),
            ),
            !any ==> strmap::text_map(m) == Map::<Seq<char>, Seq<char>>::empty(),
            any ==> exists|k: Seq<char>| strmap::text_map(m).dom().contains(k),
        decreases tokens@.len() - i,
    {
        proof {
            assert(all.take(i + 1).drop_last() =~= all.take(i as int));
            assert(all.take(i + 1).last() == tokens@[i as int]@);
            if text::is_ascii_text(value@) {
                field_name_is_ascii(all[i as int]);
            }
        }
        if let Some((k, v)) = split_field(tokens[i].as_str()) {
            let key = text::to_lowercase(k.as_str());
            let ghost name = key@;
            strmap::put_text(&mut m, key, v);
            any = true;
            proof {
                assert(strmap::text_map(m).dom().contains(name));
            }
        }
        i += 1;
    }
    proof {
        assert(all.take(i as int) =~= all);
    }
    if !any {
        return Err(text::glue("Invalid ELEINFO response: ", value));
    }
    proof {
        let k = choose|k: Seq<char>| strmap::text_map(m).dom().contains(k);
        assert(!Map::<Seq<char>, Seq<char>>::empty().dom().contains(k));
    }
    Ok(m)
}

/// What the answer to a question for an element means.
pub fn eleinfo(body: &str) -> (r: Result<StrMap<String>, String>)
    ensures
        view_map(r) == if text::begins(body@, "Error"@) {
            Err(body@)
        } else {
            element_outcome(body@)
        },
        text::is_ascii_text(body@) && !text::begins(body@, "Error"@) ==> view_map(r)
            == ascii_element_outcome(body@),
{
    if text::starts_with(body, "Error") {
        return Err(body.to_owned());
    }
    parse_eleinfo(body)
}

/// Where the elements of a channel stand: its gain and its state.
pub open spec fn channel_row(i: usize) -> (u32, Seq<char>) {
    match i {
        0 => (80, "A"@),
        1 => (120, "B"@),
        2 => (200, "C"@),
        _ => (240, "D"@),
    }
}

pub const GAIN_X: u32 = 360;

pub const STATE_X: u32 = 440;

pub const CHANNEL_COUNT: usize = 4;

/// The height at which the elements of a channel stand, and the name of the channel.
pub fn channel_at(i: usize) -> (r: (u32, String))
    ensures
        (r.0, r.1@) == channel_row(i),
{
    match i {
        0 => (80, "A".to_owned()),
        1 => (120, "B".to_owned()),
        2 => (200, "C".to_owned()),
        _ => (240, "D".to_owned()),
    }
}

/// The state of a channel out of the descriptions of its gain and of its state.
pub open spec fn channel_status(
    channel: Seq<char>,
    gain: Map<Seq<char>, Seq<char>>,
    state: Map<Seq<char>, Seq<char>>,
) -> JsonV {
    let value = strmap::text_under(state, "value"@);
    JsonV::Object(
        Map::<Seq<char>, JsonV>::empty().insert("channel"@, JsonV::Text(channel)).insert(
            "gain"@,
            JsonV::Text(
                match strmap::text_under(gain, "value"@) {
                    Some(g) => g,
                    None => "-- dB"@,
                },
            ),
        ).insert(
            "muted"@,
            JsonV::Bool(
                match value {
                    Some(v) => match numerals::parsed_unsigned(v, 255) {
                        Some(n) => n != 0,
                        None => false,
                    },
                    None => false,
                },
            ),
        ).insert(
            "status"@,
            JsonV::Text(
                match value {
                    Some(v) => v,
                    None => "0"@,
                },
            ),
        ),
    )
}

pub fn channel_report(channel: &str, gain: &StrMap<String>, state: &StrMap<String>) -> (r: Json)
    ensures
        r@ == channel_status(channel@, strmap::text_map(*gain), strmap::text_map(*state)),
{
    let value = strmap::get_text(state, "value");
    let muted = match &value {
        Some(v) => match numerals::parse_unsigned(v.as_str(), 255) {
            Some(n) => n != 0,
            None => false,
        },
        None => false,
    };
    let gain_text = match strmap::get_text(gain, "value") {
        Some(g) => g,
        None => "-- dB".to_owned(),
    };
    let status = match value {
        Some(v) => v,
        None => "0".to_owned(),
    };
    let mut m = json::empty_object();
    json::put(&mut m, "channel", json::text(channel));
    json::put(&mut m, "gain", Json::Text(gain_text));
    json::put(&mut m, "muted", Json::Bool(muted));
    json::put(&mut m, "status", Json::Text(status));
    Json::Object(m)
}

/// The state of an amplifier.
pub fn amp_report(ip: &str, channels: Vec<Json>) -> (r: Json)
    ensures
        r@ == JsonV::Object(
            Map::<Seq<char>, JsonV>::empty().insert("ip"@, JsonV::Text(ip@)).insert(
                "channels"@,
                JsonV::List(json::list_view(channels@)),
            ),
        ),
{
    let mut m = json::empty_object();
    json::put(&mut m, "ip", json::text(ip));
    json::put(&mut m, "channels", Json::List(channels));
    Json::Object(m)
}

/// What a change of the gain comes down to.
#[derive(Debug, PartialEq)]
pub enum GainPlan {
    /// Nothing is to be done.
    Nothing(String),
    /// Two paths are asked for, one after the other; then the change is reported.
    Change(String, String, String),
}

pub open spec fn view_gain(r: Result<GainPlan, String>) -> Result<
    (Option<(Seq<char>, Seq<char>)>, Seq<char>),
    Seq<char>,
> {
    match r {
        Ok(GainPlan::Nothing(done)) => Ok((None, done@)),
        Ok(GainPlan::Change(touch, value, done)) => Ok((Some((touch@, value@)), done@)),
        Err(e) => Err(e@),
    }
}

/// What a change of the gain of a channel by a number of steps comes down to. `current` is the
/// gain in decibels as text.
pub open spec fn gain_plan(channel: usize, steps: i32, current: Seq<char>) -> Result<
    (Option<(Seq<char>, Seq<char>)>, Seq<char>),
    Seq<char>,
> {
    if channel >= CHANNEL_COUNT {
        Err("Unsupported channel: "@ + numerals::dec(channel as nat))
    } else if steps == 0 {
        Ok((None, "Gain already at "@ + current + " dB"@))
    } else {
        Ok(
            (
                Some(
                    (
                        dx_path(at_point("TOUCH"@, GAIN_X, channel_row(channel).0)),
                        dx_path("VALUE "@ + numerals::dec_signed(steps as int)),
                    ),
                ),
                "Set gain channel "@ + numerals::dec(channel as nat) + " by "@
                    + numerals::dec_int(steps as int) + " steps"@,
            ),
        )
    }
}

/// Works out a change of the gain.
pub fn plan_gain(channel: usize, steps: i32, current: &str) -> (r: Result<GainPlan, String>)
    ensures
        view_gain(r) == gain_plan(channel, steps, current@),
{
    let name = numerals::dec_u64(channel as u64);
    if channel >= CHANNEL_COUNT {
        return Err(text::glue("Unsupported channel: ", name.as_str()));
    }
    if steps == 0 {
        return Ok(GainPlan::Nothing(text::glue3("Gain already at ", current, " dB")));
    }
    let (y, _) = channel_at(channel);
    let touch = dx_path_of(at_point_of("TOUCH", GAIN_X, y).as_str());
    let value = dx_path_of(
        text::glue("VALUE ", numerals::dec_signed_i32(steps).as_str()).as_str(),
    );
    let mut done = text::glue3("Set gain channel ", name.as_str(), " by ");
    done.append(numerals::dec_i64(steps as i64).as_str());
    done.append(" steps");
    Ok(GainPlan::Change(touch, value, done))
}

// ---------------------------------------------------------------------------
// What the commands do
// ---------------------------------------------------------------------------

proof fn channel_command_names(c: char)
    requires
        is_channel(c),
    ensures
        mute_command("mute_"@.push(c)) == Some((c, true)),
        mute_command("unmute_"@.push(c)) == Some((c, false)),
        !text::begins("mute_"@.push(c), "get_mute_"@),
        !text::begins("unmute_"@.push(c), "get_mute_"@),
{
    reveal_strlit("mute_");
    reveal_strlit("unmute_");
    reveal_strlit("get_mute_");
    reveal_strlit("mute_A");
    reveal_strlit("mute_B");
    reveal_strlit("mute_C");
    reveal_strlit("mute_D");
    reveal_strlit("unmute_A");
    reveal_strlit("unmute_B");
    reveal_strlit("unmute_C");
    reveal_strlit("unmute_D");
    let m = "mute_"@.push(c);
    let u = "unmute_"@.push(c);
    assert(m.len() == 6 && u.len() == 8);
    assert(m[5] == c && u[7] == c);
    if c == 'A' {
        assert(m =~= "mute_A"@);
        assert(u =~= "unmute_A"@);
    } else if c == 'B' {
        assert(m =~= "mute_B"@);
        assert(u =~= "unmute_B"@);
    } else if c == 'C' {
        assert(m =~= "mute_C"@);
        assert(u =~= "unmute_C"@);
    } else {
        assert(m =~= "mute_D"@);
        assert(u =~= "unmute_D"@);
    }
    assert("mute_A"@[5] == 'A' && "mute_B"@[5] == 'B' && "mute_C"@[5] == 'C'
        && "mute_D"@[5] == 'D');
    assert("unmute_A"@[7] == 'A' && "unmute_B"@[7] == 'B' && "unmute_C"@[7] == 'C' && "unmute_D"@[7]
        == 'D');
}

/// A command that mutes a channel sends one frame that ends in 1, and the one that ends the
/// mute of the channel one that ends in 2. Both name the same object.
pub proof fn mute_and_unmute_differ(
    c: char,
    mute: &str,
    unmute: &str,
    muting: OcaPlan,
    unmuting: OcaPlan,
)
    requires
        'A' <= c <= 'D',
        mute@ == "mute_"@.push(c),
        unmute@ == "unmute_"@.push(c),
        call_ensures(plan_command, (mute,), muting),
        call_ensures(plan_command, (unmute,), unmuting),
    ensures
        muting is Send,
        unmuting is Send,
        (muting->Send_0)@.last() == 1,
        (unmuting->Send_0)@.last() == 2,
        (muting->Send_0)@.len() == 28,
        (unmuting->Send_0)@.len() == 28,
        (muting->Send_0)@.subrange(18, 27) == (unmuting->Send_0)@.subrange(18, 27),
        (muting->Send_0)@.take(17) == (unmuting->Send_0)@.take(17),
        (muting->Send_0)@[17] == 0xc4 + (c as int - 'A' as int),
        (unmuting->Send_0)@[17] == 0xc8 + (c as int - 'A' as int),
{
    channel_command_names(c);
    let a = set_mute_bytes(c, true);
    let b = set_mute_bytes(c, false);
    assert(muting@ == OcaPlanV::Send(a));
    assert(unmuting@ == OcaPlanV::Send(b));
    assert(a.subrange(18, 27) =~= b.subrange(18, 27));
    assert(a.take(17) =~= b.take(17));
}

/// The commands for different channels name different objects.
pub proof fn channels_are_told_apart(
    c: char,
    d: char,
    first: &str,
    second: &str,
    one: OcaPlan,
    other: OcaPlan,
)
    requires
        'A' <= c <= 'D',
        'A' <= d <= 'D',
        c != d,
        first@ == "mute_"@.push(c) || first@ == "unmute_"@.push(c),
        second@ == "mute_"@.push(d) || second@ == "unmute_"@.push(d),
        call_ensures(plan_command, (first,), one),
        call_ensures(plan_command, (second,), other),
    ensures
        one is Send,
        other is Send,
        (one->Send_0)@.subrange(18, 21) != (other->Send_0)@.subrange(18, 21),
{
    channel_command_names(c);
    channel_command_names(d);
    let a = (one->Send_0)@;
    let b = (other->Send_0)@;
    assert(a.subrange(18, 21) =~= mute_object(c));
    assert(b.subrange(18, 21) =~= mute_object(d));
    assert(mute_object(c)[1] != mute_object(d)[1] || mute_object(c)[2] != mute_object(d)[2]);
}

/// A question for the state of a channel names the object that the commands for the channel
/// name.
pub proof fn state_is_asked_of_the_same_object(
    c: char,
    question: &str,
    mute: &str,
    asking: OcaPlan,
    muting: OcaPlan,
)
    requires
        'A' <= c <= 'D',
        question@ == "get_mute_"@.push(c),
        mute@ == "mute_"@.push(c),
        call_ensures(plan_command, (question,), asking),
        call_ensures(plan_command, (mute,), muting),
    ensures
        asking is Ask,
        muting is Send,
        (asking->Ask_0)@.subrange(18, 21) == (muting->Send_0)@.subrange(18, 21),
        (asking->Ask_0)@[21] == 3,
        (muting->Send_0)@[21] == 5,
{
    channel_command_names(c);
    assert(question@.take("get_mute_"@.len() as int) =~= "get_mute_"@);
    let a = (asking->Ask_0)@;
    let b = (muting->Send_0)@;
    assert(a.subrange(18, 21) =~= mute_object(c));
    assert(b.subrange(18, 21) =~= mute_object(c));
}

/// A command for all channels sends what the commands for the single channels send, from A to
/// D.
pub proof fn all_channels_are_the_single_ones(
    on: bool,
    all: &str,
    a: &str,
    b: &str,
    c: &str,
    d: &str,
    plan: OcaPlan,
    pa: OcaPlan,
    pb: OcaPlan,
    pc: OcaPlan,
    pd: OcaPlan,
)
    requires
        all@ == (if on {
            "mute_"@
        } else {
            "unmute_"@
        }) + "all"@,
        a@ == (if on {
            "mute_"@
        } else {
            "unmute_"@
        }).push('A'),
        b@ == (if on {
            "mute_"@
        } else {
            "unmute_"@
        }).push('B'),
        c@ == (if on {
            "mute_"@
        } else {
            "unmute_"@
        }).push('C'),
        d@ == (if on {
            "mute_"@
        } else {
            "unmute_"@
        }).push('D'),
        call_ensures(plan_command, (all,), plan),
        call_ensures(plan_command, (a,), pa),
        call_ensures(plan_command, (b,), pb),
        call_ensures(plan_command, (c,), pc),
        call_ensures(plan_command, (d,), pd),
    ensures
        plan is SendEach,
        pa is Send && pb is Send && pc is Send && pd is Send,
        (plan->SendEach_0)@.len() == 4,
        (plan->SendEach_0)@[0]@ == (pa->Send_0)@,
        (plan->SendEach_0)@[1]@ == (pb->Send_0)@,
        (plan->SendEach_0)@[2]@ == (pc->Send_0)@,
        (plan->SendEach_0)@[3]@ == (pd->Send_0)@,
        forall|i: int|
            0 <= i < 4 ==> (#[trigger] (plan->SendEach_0)@[i])@.last() == (if on {
                1u8
            } else {
                2u8
            }),
{
    channel_command_names('A');
    channel_command_names('B');
    channel_command_names('C');
    channel_command_names('D');
    reveal_strlit("mute_");
    reveal_strlit("unmute_");
    reveal_strlit("all");
    reveal_strlit("get_mute_");
    reveal_strlit("mute_A");
    reveal_strlit("mute_B");
    reveal_strlit("mute_C");
    reveal_strlit("mute_D");
    reveal_strlit("unmute_A");
    reveal_strlit("unmute_B");
    reveal_strlit("unmute_C");
    reveal_strlit("unmute_D");
    reveal_strlit("mute_all");
    reveal_strlit("unmute_all");
    if on {
        assert(all@ =~= "mute_all"@);
        assert(all@.len() == 8);
        assert(all@[0] == 'm');
        assert("unmute_A"@[0] == 'u');
    } else {
        assert(all@ =~= "unmute_all"@);
        assert(all@.len() == 10);
        assert("mute_all"@.len() == 8);
    }
    assert(mute_command(all@) is None);
    assert(!text::begins(all@, "get_mute_"@)) by {
        if text::begins(all@, "get_mute_"@) {
            assert(all@.take(9)[0] == all@[0]);
        }
    }
    assert(plan@ == OcaPlanV::SendEach(all_channels(on)));
    let l = (plan->SendEach_0)@;
    assert(byte_lists(l) == all_channels(on));
    assert(byte_lists(l).len() == 4);
    assert(byte_lists(l)[0] == l[0]@ && byte_lists(l)[1] == l[1]@ && byte_lists(l)[2] == l[2]@
        && byte_lists(l)[3] == l[3]@);
}

/// A channel that was muted is reported as muted when the reply repeats the last byte of the
/// command, and one whose mute was ended is not.
pub proof fn set_states_read_back(
    c: char,
    muted: bool,
    frame: Vec<u8>,
    reply: &Vec<u8>,
    r: Result<String, String>,
)
    requires
        'A' <= c <= 'D',
        call_ensures(set_mute_command, (c, muted), frame),
        reply@.len() > 0,
        reply@.last() == frame@.last(),
        call_ensures(mute_reply, (reply,), r),
    ensures
        r is Ok,
        muted ==> (r->Ok_0)@ == "muted:"@ + "true"@,
        !muted ==> (r->Ok_0)@ == "muted:"@ + "false"@,
{
    reveal_strlit("muted:");
    reveal_strlit("true");
    reveal_strlit("false");
    reveal_strlit("muted:true");
    reveal_strlit("muted:false");
    assert("muted:"@ + "true"@ =~= "muted:true"@);
    assert("muted:"@ + "false"@ =~= "muted:false"@);
}

/// A channel counts as muted where its state is a number other than zero.
pub proof fn muted_channels_have_a_state(
    channel: &str,
    gain: &StrMap<String>,
    state: &StrMap<String>,
    r: Json,
    n: nat,
)
    requires
        call_ensures(channel_report, (channel, gain, state), r),
        strmap::text_under(strmap::text_map(*state), "value"@) == Some(numerals::dec(n)),
        n < 256,
    ensures
        r@.get("muted"@) == Some(JsonV::Bool(n > 0)),
        r@.get("status"@) == Some(JsonV::Text(numerals::dec(n))),
        r@.get("channel"@) == Some(JsonV::Text(channel@)),
        strmap::text_under(strmap::text_map(*gain), "value"@) matches Some(g) ==> r@.get("gain"@)
            == Some(JsonV::Text(g)),
{
    numerals::decimal_reads_back(n, 255);
    reveal_strlit("muted");
    reveal_strlit("status");
    reveal_strlit("channel");
    reveal_strlit("gain");
    assert("muted"@.len() == 5 && "status"@.len() == 6 && "channel"@.len() == 7 && "gain"@.len()
        == 4);
}

/// Gains of different channels are changed at different places, and the change says how many
/// steps, with their sign.
pub proof fn gains_are_told_apart(
    i: usize,
    j: usize,
    steps: i32,
    current: &str,
    one: Result<GainPlan, String>,
    other: Result<GainPlan, String>,
)
    requires
        i < 4,
        j < 4,
        i != j,
        steps != 0,
        call_ensures(plan_gain, (i, steps, current), one),
        call_ensures(plan_gain, (j, steps, current), other),
    ensures
        one matches Ok(GainPlan::Change(..)),
        other matches Ok(GainPlan::Change(..)),
        ((one->Ok_0)->Change_0)@ != ((other->Ok_0)->Change_0)@,
        ((one->Ok_0)->Change_1)@ == ((other->Ok_0)->Change_1)@,
{
    let a = at_point("TOUCH"@, GAIN_X, channel_row(i).0);
    let b = at_point("TOUCH"@, GAIN_X, channel_row(j).0);
    points_are_told_apart("TOUCH"@, GAIN_X, channel_row(i).0, channel_row(j).0);
    assert(((one->Ok_0)->Change_0)@ == dx_path(a));
    assert(((other->Ok_0)->Change_0)@ == dx_path(b));
    paths_are_told_apart(a, b);
}

proof fn points_are_told_apart(word: Seq<char>, x: u32, y: u32, z: u32)
    requires
        y != z,
    ensures
        at_point(word, x, y) != at_point(word, x, z),
{
    let lead = word + " "@ + numerals::dec(x as nat) + " "@;
    if at_point(word, x, y) == at_point(word, x, z) {
        assert(at_point(word, x, y).skip(lead.len() as int) =~= numerals::dec(y as nat));
        assert(at_point(word, x, z).skip(lead.len() as int) =~= numerals::dec(z as nat));
        numerals::decimal_reads_back(y as nat, u32::MAX as nat);
        numerals::decimal_reads_back(z as nat, u32::MAX as nat);
    }
}

proof fn paths_are_told_apart(a: Seq<char>, b: Seq<char>)
    requires
        a != b,
    ensures
        dx_path(a) != dx_path(b),
{
    if dx_path(a) == dx_path(b) {
        let n = "/dxcmd.cgi?cmd="@.len() as int;
        assert(dx_path(a).skip(n) =~= bytes_encoded(encode_utf8(a)));
        assert(dx_path(b).skip(n) =~= bytes_encoded(encode_utf8(b)));
        encoding_reads_back(encode_utf8(a));
        encoding_reads_back(encode_utf8(b));
        encode_utf8_decode_utf8(a);
        encode_utf8_decode_utf8(b);
    }
}

// ---------------------------------------------------------------------------
// Presets and descriptions
// ---------------------------------------------------------------------------

/// Two hexadecimal digits are a byte, of which the first counts sixteen times, in
/// capital or small letters.
pub proof fn hexadecimal_bytes_are_read(s: Seq<char>, a: char, b: char, n: nat, m: nat)
    requires
        n < 16 && m < 16,
        n < 10 ==> a as int == '0' as int + n,
        n >= 10 ==> a as int == 'a' as int + n - 10 || a as int == 'A' as int + n - 10,
        m < 10 ==> b as int == '0' as int + m,
        m >= 10 ==> b as int == 'a' as int + m - 10 || b as int == 'A' as int + m - 10,
    ensures
        hex_bytes(seq![a, b]) == Some(seq![(n * 16 + m) as u8]),
        hex_bytes(s) is Some ==> hex_bytes(seq![a, b] + s) == Some(
            seq![(n * 16 + m) as u8] + hex_bytes(s)->0,
        ),
{
    let e = Seq::<char>::empty();
    assert(hex_digit(a) == Some(n));
    assert(hex_digit(b) == Some(m));
    let t = seq![a, b];
    assert(t.skip(2) =~= e);
    assert(hex_bytes(e) =~= Some(Seq::<u8>::empty()));
    assert(seq![(n * 16 + m) as u8] + Seq::<u8>::empty() =~= seq![(n * 16 + m) as u8]);
    assert((t + s).skip(2) =~= s);
    assert((t + s)[0] == a && (t + s)[1] == b);
}

/// A preset is the frame that is stored at its place, counted from one; where there is none, or
/// an empty one, the preset is refused.
pub proof fn presets_count_from_one(n: u8, frames: &Vec<Vec<u8>>, r: Result<Vec<u8>, String>)
    requires
        call_ensures(preset_frame, (n, frames), r),
    ensures
        r is Ok <==> 1 <= n <= frames@.len() && frames@[n - 1]@.len() > 0,
        r is Ok ==> (r->Ok_0)@ == frames@[n - 1]@,
{
    let all = byte_lists(frames@);
    if 1 <= n <= frames@.len() {
        assert(all[n - 1] == frames@[n - 1]@);
    }
}

/// The frames of the presets are those that the settings list, in their order.
pub proof fn presets_are_those_of_the_settings(
    cfg: &Json,
    list: Seq<JsonV>,
    i: int,
    s: Seq<char>,
    r: Vec<Vec<u8>>,
)
    requires
        cfg@.get("d40_presets"@) == Some(JsonV::List(list)),
        call_ensures(preset_frames, (cfg,), r),
    ensures
        r@.len() == list.len(),
        0 <= i < list.len() && list[i] == JsonV::Text(s) && hex_bytes(s) is Some ==> r@[i]@
            == hex_bytes(s)->0,
        0 <= i < list.len() && !(list[i] is Text) ==> r@[i]@.len() == 0,
{
    let all = byte_lists(r@);
    assert(all.len() == r@.len());
    if 0 <= i < list.len() {
        assert(all[i] == r@[i]@);
        assert(frames_in(cfg@)[i] == frame_in(list[i]));
    }
}

/// Letters and digits stand in an address as they are, and other bytes as a percent sign and two
/// hexadecimal digits; nothing is lost.
pub proof fn addresses_are_encoded(
    value: &str,
    r: String,
    other: &str,
    r2: String,
    bytes: Seq<u8>,
    b: u8,
)
    requires
        call_ensures(url_encode, (value,), r),
        call_ensures(url_encode, (other,), r2),
    ensures
        bytes_decoded(r@) == encode_utf8(value@),
        r@ == r2@ ==> value@ == other@,
        bytes_encoded(bytes.push(b)) == bytes_encoded(bytes) + bytes_encoded(seq![b]),
        65 <= b <= 90 || 97 <= b <= 122 || 48 <= b <= 57 ==> bytes_encoded(seq![b]) == seq![b as char],
        b <= 44 || b == 47 || b >= 127 ==> bytes_encoded(seq![b]).len() == 3
            && bytes_encoded(seq![b])[0] == '%',
{
    reveal_strlit("%");
    assert(bytes.push(b).drop_last() =~= bytes);
    assert(seq![b].drop_last() =~= Seq::<u8>::empty());
    assert(bytes_encoded(Seq::<u8>::empty()) =~= Seq::<char>::empty());
    assert(bytes_encoded(seq![b]) =~= byte_encoded(b));
    encoding_reads_back(encode_utf8(value@));
    encoding_reads_back(encode_utf8(other@));
    encode_utf8_decode_utf8(value@);
    encode_utf8_decode_utf8(other@);
}

/// The body of a response follows the first empty line; a response without one is all body.
pub proof fn bodies_follow_an_empty_line(
    head: Seq<char>,
    body: Seq<char>,
    response: &str,
    r: String,
)
    requires
        call_ensures(response_body, (response,), r),
    ensures
        !text::has(response@, "\r\n\r\n"@) ==> r@ == response@,
        response@ == head + "\r\n\r\n"@ + body && (forall|j: int|
            0 <= j < head.len() ==> !text::matches_at(response@, "\r\n\r\n"@, j)) ==> r@ == body,
{
    let gap = "\r\n\r\n"@;
    reveal_strlit("\r\n\r\n");
    text::found_is_first(response@, gap, 0);
    if response@ == head + gap + body && (forall|j: int|
        0 <= j < head.len() ==> !text::matches_at(response@, gap, j)) {
        let n = head.len() as int;
        assert(response@.subrange(n, n + 4) =~= gap);
        assert(text::matches_at(response@, gap, n));
        assert(text::found(response@, gap) == Some(n));
        assert(response@.skip(n + 4) =~= body);
    }
}

/// A field of a description is a name and a value around the first equals sign, without the
/// white space around them; a part without one is no field.
pub proof fn fields_stand_around_an_equals_sign(
    k: Seq<char>,
    v: Seq<char>,
    token: &str,
    r: Option<(String, String)>,
)
    requires
        !k.contains('='),
        call_ensures(split_field, (token,), r),
    ensures
        token@ == k ==> r is None,
        token@ == k.push('=') + v ==> r is Some && (r->0).0@ == text::trimmed(k) && (r->0).1@
            == text::trimmed(v),
{
    let eq = seq!['='];
    let t = token@;
    text::found_is_first(t, eq, 0);
    if token@ == k {
        if text::found(t, eq) is Some {
            let i = text::found(t, eq)->0;
            assert(t.subrange(i, i + 1)[0] == t[i]);
            assert(k[i] == '=');
        }
    }
    if token@ == k.push('=') + v {
        let n = k.len() as int;
        assert(t.subrange(n, n + 1) =~= eq);
        assert(text::matches_at(t, eq, n));
        let i = text::found(t, eq)->0;
        if i < n {
            assert(t.subrange(i, i + 1)[0] == t[i]);
            assert(k[i] == '=');
        }
        assert(t.take(n) =~= k);
        assert(t.skip(n + 1) =~= v);
    }
}

/// An error of the amplifier is handed on as it is.
pub proof fn amplifier_errors_are_errors(
    body: &str,
    rest: Seq<char>,
    r: Result<StrMap<String>, String>,
)
    requires
        body@ == "Error"@ + rest,
        call_ensures(eleinfo, (body,), r),
    ensures
        r is Err && (r->Err_0)@ == body@,
{
    assert(body@.take("Error"@.len() as int) =~= "Error"@);
}

/// The four channels are A to D, from top to bottom.
pub proof fn channels_stand_below_one_another(
    i: usize,
    j: usize,
    a: (u32, String),
    b: (u32, String),
)
    requires
        i < j < CHANNEL_COUNT,
        call_ensures(channel_at, (i,), a),
        call_ensures(channel_at, (j,), b),
    ensures
        a.0 < b.0,
        a.1@.len() == 1 && a.1@[0] as int == 'A' as int + i,
        b.1@.len() == 1 && b.1@[0] as int == 'A' as int + j,
{
    reveal_strlit("A");
    reveal_strlit("B");
    reveal_strlit("C");
    reveal_strlit("D");
}

/// The report on an amplifier names it and lists its channels.
pub proof fn amplifiers_list_their_channels(ip: &str, channels: Vec<Json>, r: Json)
    requires
        call_ensures(amp_report, (ip, channels), r),
    ensures
        r@.get("ip"@) == Some(JsonV::Text(ip@)),
        r@.get("channels"@) == Some(JsonV::List(json::list_view(channels@))),
{
    reveal_strlit("ip");
    reveal_strlit("channels");
    assert("ip"@.len() != "channels"@.len());
}

} // verus!

//! OSC messages of the emergency path, over UDP.

use vstd::prelude::*;
use vstd::string::*;
use vstd::utf8::*;

use crate::numerals;
use crate::projector_extras;
use crate::text;

verus! {

/// The port that emergency messages are received at.
pub const OSC_LISTENER_PORT: u16 = 9001;

/// How many bytes of a message are received.
pub const OSC_BUFFER_SIZE: usize = 256;

/// The message that stops the show.
pub const NOTAUS_ADDRESS: &'static str = "/notaus";

/// The message that tells the emergency switch of a stop.
pub const PRESSED_ADDRESS: &'static str = "/projektil_control_pressed";

/// The message that tells the emergency switch that the stop is over.
pub const RESET_ADDRESS: &'static str = "/emergency_reset";

/// The device that shows the state of the emergency switch.
pub const SWITCH_TARGET: &'static str = "192.168.1.99:9000";

pub open spec fn zeros(n: nat) -> Seq<u8> {
    Seq::new(n, |i: int| 0u8)
}

/// A text with at least one zero byte behind it, made up to a multiple of four bytes.
pub open spec fn padded_bytes(bytes: Seq<u8>) -> Seq<u8> {
    bytes + zeros((4 - bytes.len() % 4) as nat)
}

/// Writes a text as OSC has it.
pub fn osc_padded_string_bytes(value: &str) -> (r: Vec<u8>)
    ensures
        r@ == padded_bytes(encode_utf8(value@)),
{
    let mut out = numerals::bytes_of(value);
    let ghost bytes = out@;
    let pad: usize = 4 - out.len() % 4;
    let mut i: usize = 0;
    while i < pad
        invariant
            i <= pad,
            out@ == bytes + zeros(i as nat),
        decreases pad - i,
    {
        out.push(0);
        proof {
            assert(out@ =~= bytes + zeros((i + 1) as nat));
        }
        i += 1;
    }
    out
}

/// A message to an address with the integer 1.
pub open spec fn osc_packet(address: Seq<char>) -> Seq<u8> {
    padded_bytes(encode_utf8(address)) + padded_bytes(encode_utf8(",i"@)) + seq![0u8, 0, 0, 1]
}

/// Builds a message to an address with the integer 1.
pub fn build_osc_packet(address: &str) -> (r: Vec<u8>)
    ensures
        r@ == osc_packet(address@),
{
    let mut packet = osc_padded_string_bytes(address);
    numerals::extend_bytes(&mut packet, &osc_padded_string_bytes(",i"));
    numerals::extend_bytes(&mut packet, &vec![0, 0, 0, 1]);
    packet
}

/// The message that stops the show.
pub fn build_notaus_osc_packet() -> (r: Vec<u8>)
    ensures
        r@ == osc_packet(NOTAUS_ADDRESS@),
{
    build_osc_packet(NOTAUS_ADDRESS)
}

/// What OSC asks of a message: its length is a multiple of four, and the text that it begins
/// with, which holds no zero, ends at its first zero byte.
pub proof fn packets_are_aligned(address: Seq<char>)
    ensures
        osc_packet(address).len() % 4 == 0,
        osc_packet(address).take(encode_utf8(address).len() as int) == encode_utf8(address),
        osc_packet(address)[encode_utf8(address).len() as int] == 0,
{
    let bytes = encode_utf8(address);
    let packet = osc_packet(address);
    assert(packet.take(bytes.len() as int) =~= bytes);
    assert(packet[bytes.len() as int] == zeros((4 - bytes.len() % 4) as nat)[0]);
    let a = padded_bytes(bytes).len();
    let b = padded_bytes(encode_utf8(",i"@)).len();
    assert(a % 4 == 0);
    assert(b % 4 == 0);
    assert((a + b + 4) % 4 == 0);
}

/// Where the message that stops the show goes: the given address, or the usual one, and the
/// given port, or the usual one.
pub open spec fn notaus_target(target_ip: Option<Seq<char>>, target_port: Option<u16>) -> Seq<char> {
    let ip = match target_ip {
        Some(v) => if text::is_blank(v) {
            "192.168.1.31"@
        } else {
            text::trimmed(v)
        },
        None => "192.168.1.31"@,
    };
    let port = match target_port {
        Some(p) => p,
        None => 8000,
    };
    ip + ":"@ + numerals::dec(port as nat)
}

pub fn notaus_address(target_ip: &Option<String>, target_port: Option<u16>) -> (r: String)
    ensures
        r@ == notaus_target(text::view_option(*target_ip), target_port),
{
    let given = match target_ip {
        Some(v) => text::trim(v.as_str()),
        None => String::new(),
    };
    let port: u16 = match target_port {
        Some(p) => p,
        None => 8000,
    };
    let number = numerals::dec_u64(port as u64);
    if given.as_str().is_empty() {
        text::glue3("192.168.1.31", ":", number.as_str())
    } else {
        text::glue3(given.as_str(), ":", number.as_str())
    }
}

/// What is logged before a message is sent.
pub fn sending_log(address: &str, target: &str) -> (r: String)
    ensures
        r@ == "[OSC OUT] Sending "@ + address@ + " to "@ + target@,
{
    let mut s = text::glue3("[OSC OUT] Sending ", address, " to ");
    s.append(target);
    s
}

/// What is reported of a message that could not be sent.
pub fn send_failure(address: &str, error: &str) -> (r: String)
    ensures
        r@ == "[OSC OUT ERROR] "@ + address@ + " send failed: "@ + error@,
{
    let mut s = text::glue3("[OSC OUT ERROR] ", address, " send failed: ");
    s.append(error);
    s
}

/// What is reported of a message of which `sent` bytes went out: success where that is all of
/// it.
pub open spec fn sent_outcome(address: Seq<char>, sent: usize, size: usize) -> Result<
    Seq<char>,
    Seq<char>,
> {
    if sent != size {
        Err(
            "[OSC OUT ERROR] "@ + address + " incomplete: "@ + numerals::dec(sent as nat)
                + " von "@ + numerals::dec(size as nat) + " Bytes"@,
        )
    } else {
        Ok(
            "[OSC OUT] "@ + address + " sent successfully ("@ + numerals::dec(sent as nat)
                + " bytes)"@,
        )
    }
}

pub fn sent_report(address: &str, sent: usize, size: usize) -> (r: Result<String, String>)
    ensures
        projector_extras::view_text_result(r) == sent_outcome(address@, sent, size),
{
    let count = numerals::dec_u64(sent as u64);
    if sent != size {
        let mut e = text::glue3("[OSC OUT ERROR] ", address, " incomplete: ");
        e.append(count.as_str());
        e.append(" von ");
        e.append(numerals::dec_u64(size as u64).as_str());
        e.append(" Bytes");
        return Err(e);
    }
    let mut s = text::glue3("[OSC OUT] ", address, " sent successfully (");
    s.append(count.as_str());
    s.append(" bytes)");
    Ok(s)
}

/// What a received message is.
#[derive(Debug, PartialEq)]
pub enum Inbound {
    /// The emergency switch was pressed.
    Emergency,
    /// Some other command; what is logged of it.
    Unknown(String),
    /// Nothing to act on or to log.
    Other,
}

/// The mathematical value of an [`Inbound`].
pub enum InboundV {
    Emergency,
    Unknown(Seq<char>),
    Other,
}

impl View for Inbound {
    type V = InboundV;

    open spec fn view(&self) -> InboundV {
        match self {
            Inbound::Emergency => InboundV::Emergency,
            Inbound::Unknown(s) => InboundV::Unknown(s@),
            Inbound::Other => InboundV::Other,
        }
    }
}

pub open spec fn begins_with(data: Seq<u8>, head: Seq<u8>) -> bool {
    head.len() <= data.len() && data.take(head.len() as int) == head
}

/// The first fifty bytes of a message.
pub open spec fn shown_part(data: Seq<u8>) -> Seq<u8> {
    if data.len() > 50 {
        data.take(50)
    } else {
        data
    }
}

/// What a received message is: the emergency command, another command that is text, or
/// neither.
pub open spec fn inbound(data: Seq<u8>) -> InboundV {
    if begins_with(data, encode_utf8("/emergency_pressed"@)) {
        InboundV::Emergency
    } else if data.len() > 0 && data[0] == 0x2f && valid_utf8(shown_part(data)) {
        InboundV::Unknown("[OSC] Unknown command: "@ + decode_utf8(shown_part(data)))
    } else {
        InboundV::Other
    }
}

fn starts_with(data: &Vec<u8>, head: &Vec<u8>) -> (r: bool)
    ensures
        r == begins_with(data@, head@),
{
    if head.len() > data.len() {
        return false;
    }
    let mut i: usize = 0;
    while i < head.len()
        invariant
            i <= head@.len() <= data@.len(),
            forall|j: int| 0 <= j < i ==> data@[j] == head@[j],
        decreases head@.len() - i,
    {
        if data[i] != head[i] {
            proof {
                assert(data@.take(head@.len() as int)[i as int] == data@[i as int]);
            }
            return false;
        }
        i += 1;
    }
    proof {
        assert(data@.take(head@.len() as int) =~= head@);
    }
    true
}

/// Tells what a received message is.
pub fn classify_inbound(data: &Vec<u8>) -> (r: Inbound)
    ensures
        r@ == inbound(data@),
{
    if starts_with(data, &numerals::bytes_of("/emergency_pressed")) {
        return Inbound::Emergency;
    }
    let n = data.len();
    if n == 0 || data[0] != 0x2f {
        return Inbound::Other;
    }
    let shown: usize = if n > 50 {
        50
    } else {
        n
    };
    proof {
        assert(data@.subrange(0, shown as int) =~= shown_part(data@));
    }
    match numerals::utf8_text(numerals::bytes_between(data, 0, shown)) {
        Ok(cmd) => Inbound::Unknown(text::glue("[OSC] Unknown command: ", cmd.as_str())),
        Err(_) => Inbound::Other,
    }
}

/// What is logged of every message that is received.
pub fn received_log(size: usize, from: &str) -> (r: String)
    ensures
        r@ == "[OSC] Received "@ + numerals::dec(size as nat) + " bytes from "@ + from@,
{
    let mut s = text::glue3(
        "[OSC] Received ",
        numerals::dec_u64(size as u64).as_str(),
        " bytes from ",
    );
    s.append(from);
    s
}

/// Messages of fewer than four bytes are padded to four, and so on: the padding is one to four
/// zero bytes.
pub proof fn texts_are_padded(value: &str, r: Vec<u8>)
    requires
        call_ensures(osc_padded_string_bytes, (value,), r),
    ensures
        r@.len() % 4 == 0,
        encode_utf8(value@).len() < r@.len() <= encode_utf8(value@).len() + 4,
        r@.take(encode_utf8(value@).len() as int) == encode_utf8(value@),
        forall|i: int| encode_utf8(value@).len() <= i < r@.len() ==> #[trigger] r@[i] == 0,
{
    let b = encode_utf8(value@);
    assert(r@.take(b.len() as int) =~= b);
}

/// A message ends with the type of its one argument and the number 1, and the message that
/// stops the show goes to `/notaus`.
pub proof fn messages_carry_a_one(address: &str, r: Vec<u8>, stop: Vec<u8>)
    requires
        call_ensures(build_osc_packet, (address,), r),
        call_ensures(build_notaus_osc_packet, (), stop),
    ensures
        r@.skip(r@.len() - 8) == seq![0x2cu8, 0x69, 0, 0, 0, 0, 0, 1],
        address@ == seq!['/', 'n', 'o', 't', 'a', 'u', 's'] ==> stop@ == r@,
{
    reveal_strlit(",i");
    reveal_strlit("/notaus");
    broadcast use vstd::utf8::is_ascii_chars_encode_utf8;

    let t = ",i"@;
    assert(is_ascii_chars(t));
    let b = encode_utf8(t);
    assert(b =~= seq![0x2cu8, 0x69]);
    let p = padded_bytes(b);
    assert(p =~= seq![0x2cu8, 0x69, 0, 0]);
    let a = padded_bytes(encode_utf8(address@));
    assert(r@ =~= a + (p + seq![0u8, 0, 0, 1]));
    assert(r@.skip(r@.len() - 8) =~= seq![0x2cu8, 0x69, 0, 0, 0, 0, 0, 1]);
    assert(seq!['/', 'n', 'o', 't', 'a', 'u', 's'] =~= "/notaus"@);
}

/// A message counts as sent where all of it went out, and only there.
pub proof fn all_of_a_message_goes_out(
    address: &str,
    sent: usize,
    size: usize,
    r: Result<String, String>,
)
    requires
        call_ensures(sent_report, (address, sent, size), r),
    ensures
        r is Ok <==> sent == size,
{
}

/// The address that is given is used, with the port that is given; else the usual ones are.
pub proof fn stops_go_where_they_are_sent(ip: &Option<String>, port: Option<u16>, r: String)
    requires
        call_ensures(notaus_address, (ip, port), r),
    ensures
        *ip is None && port is None ==> r@ == "192.168.1.31:8000"@,
        *ip matches Some(v) ==> !text::is_blank(v@) ==> text::begins(r@, text::trimmed(v@)),
        port matches Some(p) ==> text::ends(r@, ":"@ + numerals::dec(p as nat)),
{
    reveal_strlit(":");
    reveal_strlit("192.168.1.31");
    reveal_strlit("192.168.1.31:8000");
    reveal_with_fuel(numerals::dec, 5);
    assert(numerals::dec(8000) =~= seq!['8', '0', '0', '0']);
    if *ip is None && port is None {
        assert(r@ =~= "192.168.1.31:8000"@);
    }
    if let Some(v) = *ip {
        if !text::is_blank(v@) {
            let t = text::trimmed(v@);
            assert(r@.take(t.len() as int) =~= t);
        }
    }
    if let Some(p) = port {
        let tail = ":"@ + numerals::dec(p as nat);
        assert(r@.skip(r@.len() - tail.len()) =~= tail);
    }
}

/// The emergency switch is heard whatever follows its command; every other message is not taken
/// for it.
pub proof fn the_emergency_switch_is_heard(data: &Vec<u8>, rest: Seq<u8>, r: Inbound)
    requires
        call_ensures(classify_inbound, (data,), r),
    ensures
        data@ == encode_utf8("/emergency_pressed"@) + rest ==> r is Emergency,
        r is Emergency ==> exists|tail: Seq<u8>| #[trigger]
            (encode_utf8("/emergency_pressed"@) + tail) == data@,
        data@.len() == 0 || data@[0] != 0x2f ==> !(r is Unknown),
{
    let head = encode_utf8("/emergency_pressed"@);
    assert((head + rest).take(head.len() as int) =~= head);
    if r is Emergency {
        let tail = data@.skip(head.len() as int);
        assert(head + tail =~= data@);
    }
}

} // verus!

//! SNMPv1 over UDP: the requests that are sent and what is read out of the replies.
//!
//! Requests and replies are byte strings in the basic encoding rules of ASN.1.

use vstd::prelude::*;
use vstd::string::*;
use vstd::utf8::*;

use crate::numerals;
use crate::text;

verus! {

// ---------------------------------------------------------------------------
// Reading a reply
// ---------------------------------------------------------------------------

/// The number that bytes spell, most significant byte first.
pub open spec fn big_endian(bytes: Seq<u8>) -> nat
    decreases bytes.len(),
{
    if bytes.len() == 0 {
        0
    } else {
        big_endian(bytes.drop_last()) * 256 + bytes.last() as nat
    }
}

/// The length field at `offset`: the length, and how many bytes the field takes.
pub open spec fn asn1_length(data: Seq<u8>, offset: int) -> Option<(nat, nat)> {
    if offset < 0 || offset >= data.len() {
        None
    } else if data[offset] < 128 {
        Some((data[offset] as nat, 1))
    } else {
        let count = data[offset] - 128;
        if count == 0 || count > 4 || offset + 1 + count > data.len() {
            None
        } else {
            Some((big_endian(data.subrange(offset + 1, offset + 1 + count)), (1 + count) as nat))
        }
    }
}

pub open spec fn view_length(o: Option<(usize, usize)>) -> Option<(nat, nat)> {
    match o {
        Some((len, size)) => Some((len as nat, size as nat)),
        None => None,
    }
}

/// Reads a length field: short form, or long form with one to four bytes.
pub fn decode_asn1_length(data: &[u8], offset: usize) -> (r: Option<(usize, usize)>)
    ensures
        view_length(r) == asn1_length(data@, offset as int),
{
    if offset >= data.len() {
        return None;
    }
    let first = data[offset];
    if first < 128 {
        return Some((first as usize, 1));
    }
    let count: usize = (first - 128) as usize;
    if count == 0 || count > 4 || count > data.len() - offset - 1 {
        return None;
    }
    let n = data.len();
    let ghost field = data@.subrange(offset + 1, offset + 1 + count);
    let mut len: usize = 0;
    let mut i: usize = 0;
    while i < count
        invariant
            i <= count <= 4,
            n == data@.len(),
            offset + 1 + count <= n,
            field == data@.subrange(offset + 1, offset + 1 + count),
            len == big_endian(field.take(i as int)),
            i == 0 ==> len == 0,
            i <= 1 ==> len < 0x100,
            i <= 2 ==> len < 0x1_0000,
            i <= 3 ==> len < 0x100_0000,
        decreases count - i,
    {
        proof {
            assert(field.take(i + 1).drop_last() =~= field.take(i as int));
            assert(field.take(i + 1).last() == data@[offset + 1 + i]);
        }
        len = len * 256 + data[offset + 1 + i] as usize;
        i += 1;
    }
    proof {
        assert(field.take(count as int) =~= field);
    }
    Some((len, 1 + count))
}

/// Where the object identifier that starts at `i` ends, if one does and the data holds all of it.
pub open spec fn oid_end_at(data: Seq<u8>, i: int) -> Option<int> {
    if data[i] != 0x06 {
        None
    } else {
        match asn1_length(data, i + 1) {
            Some((len, size)) => if i + 1 + size + len <= data.len() {
                Some(i + 1 + size + len)
            } else {
                None
            },
            None => None,
        }
    }
}

/// The end of the last object identifier that a scan from `i` meets, and `last` if it meets
/// none. The scan goes on behind each identifier, and stops two bytes before the end.
pub open spec fn last_oid_end(data: Seq<u8>, i: int, last: int) -> int
    decreases data.len() - i,
{
    if i < 0 || i + 2 >= data.len() {
        last
    } else {
        match oid_end_at(data, i) {
            Some(end) => if end > i {
                last_oid_end(data, end, end)
            } else {
                last
            },
            None => last_oid_end(data, i + 1, last),
        }
    }
}

/// The value that follows the last object identifier: its type and its bytes.
pub open spec fn value_field(data: Seq<u8>) -> Option<(u8, Seq<u8>)> {
    let at = last_oid_end(data, 0, 0);
    if at + 2 > data.len() {
        None
    } else {
        match asn1_length(data, at + 1) {
            Some((len, size)) => if len == 0 || at + 1 + size + len > data.len() {
                None
            } else {
                Some((data[at], data.subrange(at + 1 + size as int, at + 1 + size + len)))
            },
            None => None,
        }
    }
}

fn find_last_oid_end(data: &[u8]) -> (r: usize)
    ensures
        r == last_oid_end(data@, 0, 0),
        r <= data@.len(),
{
    let n = data.len();
    let mut last: usize = 0;
    let mut i: usize = 0;
    while i < n && n - i > 2
        invariant
            n == data@.len(),
            i <= n,
            last <= n,
            last_oid_end(data@, 0, 0) == last_oid_end(data@, i as int, last as int),
        decreases n - i,
    {
        let mut next: usize = i + 1;
        let mut found = false;
        if data[i] == 0x06 {
            if let Some((len, size)) = decode_asn1_length(data, i + 1) {
                let start = i + 1 + size;
                if len <= n - start {
                    next = start + len;
                    found = true;
                }
            }
        }
        if found {
            last = next;
        }
        i = next;
    }
    last
}

/// Finds the value that follows the last object identifier.
pub fn snmp_value_field(data: &[u8]) -> (r: Option<(u8, Vec<u8>)>)
    ensures
        match r {
            Some((tag, bytes)) => value_field(data@) == Some((tag, bytes@)) && bytes@.len() > 0,
            None => value_field(data@) is None,
        },
{
    let n = data.len();
    let at = find_last_oid_end(data);
    if n < 2 || at > n - 2 {
        return None;
    }
    match decode_asn1_length(data, at + 1) {
        Some((len, size)) => {
            let start = at + 1 + size;
            if len == 0 || len > n - start {
                return None;
            }
            let mut bytes: Vec<u8> = Vec::new();
            let mut k: usize = 0;
            while k < len
                invariant
                    n == data@.len(),
                    k <= len,
                    start + len <= n,
                    bytes@ == data@.subrange(start as int, start + k),
                decreases len - k,
            {
                bytes.push(data[start + k]);
                proof {
                    assert(data@.subrange(start as int, start + k + 1) =~= data@.subrange(
                        start as int,
                        start + k,
                    ).push(data@[start + k]));
                }
                k += 1;
            }
            Some((data[at], bytes))
        },
        None => None,
    }
}

/// The powers of 256.
pub open spec fn pow256(n: nat) -> nat
    decreases n,
{
    if n == 0 {
        1
    } else {
        256 * pow256((n - 1) as nat)
    }
}

/// The number with the same low 64 bits that a signed 64-bit integer can hold.
pub open spec fn as_signed64(n: nat) -> int {
    let m = n as int % 0x1_0000_0000_0000_0000;
    if m >= 0x8000_0000_0000_0000 {
        m - 0x1_0000_0000_0000_0000
    } else {
        m
    }
}

/// Whether values of a type are read as numbers: integer, counter, gauge, time ticks.
pub open spec fn is_numeric_type(tag: u8) -> bool {
    tag == 0x02 || tag == 0x41 || tag == 0x42 || tag == 0x43
}

/// The number that a value stands for. An integer of fewer than eight bytes is signed; of
/// longer values the low 64 bits count.
pub open spec fn number_of(tag: u8, bytes: Seq<u8>) -> int {
    if tag == 0x02 && 0 < bytes.len() < 8 && bytes[0] >= 128 {
        big_endian(bytes) - pow256(bytes.len())
    } else {
        as_signed64(big_endian(bytes))
    }
}

/// The number in a reply.
pub open spec fn reply_number(data: Seq<u8>) -> Option<int> {
    match value_field(data) {
        Some((tag, bytes)) => if is_numeric_type(tag) {
            Some(number_of(tag, bytes))
        } else {
            None
        },
        None => None,
    }
}

proof fn big_endian_bound(bytes: Seq<u8>)
    ensures
        big_endian(bytes) < pow256(bytes.len()),
    decreases bytes.len(),
{
    if bytes.len() > 0 {
        big_endian_bound(bytes.drop_last());
    }
}

proof fn pow256_grows(a: nat, b: nat)
    requires
        a <= b,
    ensures
        pow256(a) <= pow256(b),
    decreases b,
{
    if a < b {
        pow256_grows(a, (b - 1) as nat);
    }
}

proof fn pow256_seven()
    ensures
        pow256(7) == 0x100_0000_0000_0000,
{
    reveal_with_fuel(pow256, 8);
}

proof fn low_bits_step(x: nat, b: nat)
    ensures
        ((x % 0x1_0000_0000_0000_0000) * 256 + b) % 0x1_0000_0000_0000_0000 == (x * 256 + b)
            % 0x1_0000_0000_0000_0000,
{
    let m: nat = 0x1_0000_0000_0000_0000;
    vstd::arithmetic::div_mod::lemma_mul_mod_noop_left(x as int, 256, m as int);
    vstd::arithmetic::div_mod::lemma_add_mod_noop(((x % m) * 256) as int, b as int, m as int);
    vstd::arithmetic::div_mod::lemma_add_mod_noop((x * 256) as int, b as int, m as int);
}

fn low_bits(bytes: &Vec<u8>) -> (r: u64)
    ensures
        r == big_endian(bytes@) % 0x1_0000_0000_0000_0000,
{
    let mut acc: u64 = 0;
    let mut i: usize = 0;
    while i < bytes.len()
        invariant
            i <= bytes@.len(),
            acc == big_endian(bytes@.take(i as int)) % 0x1_0000_0000_0000_0000,
        decreases bytes@.len() - i,
    {
        proof {
            let before = bytes@.take(i as int);
            assert(bytes@.take(i + 1).drop_last() =~= before);
            let b = bytes@[i as int] as nat;
            low_bits_step(big_endian(before), b);
            let scaled = (acc as nat * 256) % 0x1_0000_0000_0000_0000;
            low_bits_step(acc as nat, b);
            vstd::arithmetic::div_mod::lemma_add_mod_noop(
                acc as int * 256,
                b as int,
                0x1_0000_0000_0000_0000,
            );
            vstd::arithmetic::div_mod::lemma_add_mod_noop(
                scaled as int,
                b as int,
                0x1_0000_0000_0000_0000,
            );
        }
        acc = acc.wrapping_mul(256).wrapping_add(bytes[i] as u64);
        i += 1;
    }
    proof {
        assert(bytes@.take(i as int) =~= bytes@);
    }
    acc
}

fn power(n: usize) -> (r: u64)
    requires
        n < 8,
    ensures
        r == pow256(n as nat),
{
    let mut p: u64 = 1;
    let mut i: usize = 0;
    while i < n
        invariant
            i <= n < 8,
            p == pow256(i as nat),
        decreases n - i,
    {
        proof {
            pow256_grows((i + 1) as nat, 7);
            pow256_seven();
        }
        p = p * 256;
        i += 1;
    }
    p
}

/// The number that a value of numeric type stands for.
pub fn snmp_number(tag: u8, bytes: &Vec<u8>) -> (r: i64)
    ensures
        r == number_of(tag, bytes@),
{
    let acc = low_bits(bytes);
    let n = bytes.len();
    if tag == 0x02 && 0 < n && n < 8 && bytes[0] >= 128 {
        proof {
            big_endian_bound(bytes@);
            pow256_grows(n as nat, 7);
            pow256_seven();
            vstd::arithmetic::div_mod::lemma_small_mod(
                big_endian(bytes@),
                0x1_0000_0000_0000_0000,
            );
        }
        acc as i64 - power(n) as i64
    } else if acc >= 0x8000_0000_0000_0000 {
        -((0xffff_ffff_ffff_ffff - acc) as i64) - 1
    } else {
        acc as i64
    }
}

pub open spec fn view_number(o: Option<i64>) -> Option<int> {
    match o {
        Some(n) => Some(n as int),
        None => None,
    }
}

/// Reads the number out of a reply.
pub fn extract_snmp_value(data: &[u8]) -> (r: Option<i64>)
    ensures
        view_number(r) == reply_number(data@),
{
    match snmp_value_field(data) {
        Some((tag, bytes)) => if tag == 0x02 || tag == 0x41 || tag == 0x42 || tag == 0x43 {
            Some(snmp_number(tag, &bytes))
        } else {
            None
        },
        None => None,
    }
}

/// The text that the bytes of an octet string stand for: without the zero characters and then
/// the white space at both ends.
pub open spec fn octets_text(s: Seq<char>) -> Seq<char> {
    text::trimmed(text::without_trailing(text::without_leading(s, '\0'), '\0'))
}

/// The text in a reply.
pub open spec fn reply_text(data: Seq<u8>) -> Option<Seq<char>> {
    match value_field(data) {
        Some((tag, bytes)) => if tag == 0x04 {
            Some(octets_text(numerals::utf8_lossy(bytes)))
        } else {
            None
        },
        None => None,
    }
}

/// Takes zero characters and white space off both ends of a text.
pub fn strip_octets(s: &str) -> (r: String)
    ensures
        r@ == octets_text(s@),
{
    let led = text::trim_leading(s, '\0');
    text::trim(text::trim_trailing(led.as_str(), '\0').as_str())
}

/// Reads the text out of a reply.
pub fn extract_snmp_octet_string(data: &[u8]) -> (r: Option<String>)
    ensures
        text::view_option(r) == reply_text(data@),
{
    match snmp_value_field(data) {
        Some((tag, bytes)) => if tag == 0x04 {
            Some(strip_octets(numerals::lossy_text(&bytes).as_str()))
        } else {
            None
        },
        None => None,
    }
}

/// What a reply says as text: its text, or its number in decimal where it has no text that is
/// not blank.
pub open spec fn reply_as_text(data: Seq<u8>) -> Option<Seq<char>> {
    match reply_text(data) {
        Some(s) => if !text::is_blank(s) {
            Some(s)
        } else {
            None
        },
        None => match reply_number(data) {
            Some(n) => Some(numerals::dec_int(n)),
            None => None,
        },
    }
}

/// Reads a reply as text.
pub fn snmp_text(data: &[u8]) -> (r: Option<String>)
    ensures
        text::view_option(r) == reply_as_text(data@),
{
    if let Some(s) = extract_snmp_octet_string(data) {
        if !text::blank(s.as_str()) {
            return Some(s);
        }
    }
    match extract_snmp_value(data) {
        Some(n) => Some(numerals::dec_i64(n)),
        None => None,
    }
}

// ---------------------------------------------------------------------------
// Building a request
// ---------------------------------------------------------------------------

/// How a component of an object identifier is written: in groups of seven bits. Three groups
/// are the most that are written.
pub open spec fn arc_bytes(n: u32) -> Seq<u8> {
    if n < 128 {
        seq![n as u8]
    } else if n < 16384 {
        seq![(128 + n / 128) as u8, (n % 128) as u8]
    } else {
        seq![(128 + (n / 16384) % 128) as u8, (128 + (n / 128) % 128) as u8, (n % 128) as u8]
    }
}

pub open spec fn arcs_bytes(arcs: Seq<u32>) -> Seq<u8>
    decreases arcs.len(),
{
    if arcs.len() == 0 {
        Seq::empty()
    } else {
        arcs_bytes(arcs.drop_last()) + arc_bytes(arcs.last())
    }
}

/// Whether the first two components of an identifier fit in the byte that holds both.
pub open spec fn root_fits(oid: Seq<u32>) -> bool {
    oid.len() >= 2 && (oid[0] % 256) * 40 + oid[1] % 256 <= 255
}

pub open spec fn oid_bytes(oid: Seq<u32>) -> Seq<u8> {
    seq![((oid[0] % 256) * 40 + oid[1] % 256) as u8] + arcs_bytes(oid.skip(2))
}

/// The bytes of an object identifier.
pub fn encode_oid(oid: &[u32]) -> (r: Vec<u8>)
    requires
        root_fits(oid@),
    ensures
        r@ == oid_bytes(oid@),
{
    let mut bytes: Vec<u8> = Vec::new();
    bytes.push(((oid[0] % 256) * 40 + oid[1] % 256) as u8);
    let ghost root = bytes@;
    let ghost arcs = oid@.skip(2);
    let mut i: usize = 2;
    while i < oid.len()
        invariant
            2 <= i <= oid@.len(),
            arcs == oid@.skip(2),
            bytes@ == root + arcs_bytes(arcs.take(i - 2)),
        decreases oid@.len() - i,
    {
        let n = oid[i];
        let ghost before = bytes@;
        proof {
            assert(arcs.take(i - 1).drop_last() =~= arcs.take(i - 2));
            assert(arcs.take(i - 1).last() == n);
        }
        if n < 128 {
            bytes.push(n as u8);
        } else if n < 16384 {
            bytes.push((128 + n / 128) as u8);
            bytes.push((n % 128) as u8);
        } else {
            bytes.push((128 + (n / 16384) % 128) as u8);
            bytes.push((128 + (n / 128) % 128) as u8);
            bytes.push((n % 128) as u8);
        }
        proof {
            assert(bytes@ =~= before + arc_bytes(n));
            assert(bytes@ =~= root + arcs_bytes(arcs.take(i - 1)));
        }
        i += 1;
    }
    proof {
        assert(arcs.take(i - 2) =~= arcs);
    }
    bytes
}

/// How a length is written: in one byte below 128, and else in its low eight bits behind the
/// byte 0x81.
pub open spec fn length_bytes(len: nat) -> Seq<u8> {
    if len < 128 {
        seq![len as u8]
    } else {
        seq![0x81u8, (len % 256) as u8]
    }
}

/// The bytes of a length.
pub fn encode_length(len: usize) -> (r: Vec<u8>)
    ensures
        r@ == length_bytes(len as nat),
{
    if len < 128 {
        vec![len as u8]
    } else {
        vec![0x81, (len % 256) as u8]
    }
}

/// A value with its tag and its length in front.
pub open spec fn tagged(tag: u8, content: Seq<u8>) -> Seq<u8> {
    seq![tag] + length_bytes(content.len()) + content
}

fn wrap(tag: u8, content: &Vec<u8>) -> (r: Vec<u8>)
    ensures
        r@ == tagged(tag, content@),
{
    let mut out: Vec<u8> = vec![tag];
    numerals::extend_bytes(&mut out, &encode_length(content.len()));
    numerals::extend_bytes(&mut out, content);
    out
}

/// The pair of an object identifier and the null that stands for its value in a request.
pub open spec fn varbind(oid: Seq<u32>) -> Seq<u8> {
    tagged(0x30, tagged(0x06, oid_bytes(oid)) + seq![0x05u8, 0x00])
}

/// The request part of a message: request number 1, no error, one variable.
pub open spec fn get_pdu(oid: Seq<u32>) -> Seq<u8> {
    tagged(
        0xa0,
        seq![0x02u8, 0x01, 0x01, 0x02, 0x01, 0x00, 0x02, 0x01, 0x00] + tagged(0x30, varbind(oid)),
    )
}

/// The message that asks for the value of one object: version 1, community, request.
pub open spec fn get_packet(community: Seq<char>, oid: Seq<u32>) -> Seq<u8> {
    tagged(
        0x30,
        seq![0x02u8, 0x01, 0x00] + tagged(0x04, encode_utf8(community)) + get_pdu(oid),
    )
}

/// Builds the message that asks for the value of one object.
pub fn snmp_get_packet(community: &str, oid: &[u32]) -> (r: Vec<u8>)
    requires
        root_fits(oid@),
    ensures
        r@ == get_packet(community@, oid@),
{
    let mut variable = wrap(0x06, &encode_oid(oid));
    numerals::extend_bytes(&mut variable, &vec![0x05, 0x00]);
    let list = wrap(0x30, &wrap(0x30, &variable));
    let mut pdu_inner: Vec<u8> = vec![0x02, 0x01, 0x01, 0x02, 0x01, 0x00, 0x02, 0x01, 0x00];
    numerals::extend_bytes(&mut pdu_inner, &list);
    let pdu = wrap(0xa0, &pdu_inner);
    let mut inner: Vec<u8> = vec![0x02, 0x01, 0x00];
    numerals::extend_bytes(&mut inner, &wrap(0x04, &numerals::bytes_of(community)));
    numerals::extend_bytes(&mut inner, &pdu);
    wrap(0x30, &inner)
}

// ---------------------------------------------------------------------------
// The objects that may be asked for
// ---------------------------------------------------------------------------

/// Whether an identifier begins with another.
pub open spec fn below(oid: Seq<u32>, root: Seq<u32>) -> bool {
    root.len() <= oid.len() && oid.take(root.len() as int) == root
}

/// The branches that the application asks for: system, interfaces, host resources, UPS, power
/// over Ethernet, and the enterprises APC, Eaton, Synology, Teltonika and Janitza.
pub open spec fn allowed_root(i: usize) -> Seq<u32> {
    match i {
        0 => seq![1u32, 3, 6, 1, 2, 1, 1],
        1 => seq![1u32, 3, 6, 1, 2, 1, 2],
        2 => seq![1u32, 3, 6, 1, 2, 1, 25],
        3 => seq![1u32, 3, 6, 1, 2, 1, 33],
        4 => seq![1u32, 3, 6, 1, 2, 1, 105],
        5 => seq![1u32, 3, 6, 1, 4, 1, 318],
        6 => seq![1u32, 3, 6, 1, 4, 1, 534],
        7 => seq![1u32, 3, 6, 1, 4, 1, 6574],
        8 => seq![1u32, 3, 6, 1, 4, 1, 48690],
        _ => seq![1u32, 3, 6, 1, 4, 1, 2578],
    }
}

pub open spec fn allowed(oid: Seq<u32>) -> bool {
    exists|i: usize| i < 10 && below(oid, #[trigger] allowed_root(i))
}

fn root_at(i: usize) -> (r: Vec<u32>)
    ensures
        r@ == allowed_root(i),
{
    match i {
        0 => vec![1, 3, 6, 1, 2, 1, 1],
        1 => vec![1, 3, 6, 1, 2, 1, 2],
        2 => vec![1, 3, 6, 1, 2, 1, 25],
        3 => vec![1, 3, 6, 1, 2, 1, 33],
        4 => vec![1, 3, 6, 1, 2, 1, 105],
        5 => vec![1, 3, 6, 1, 4, 1, 318],
        6 => vec![1, 3, 6, 1, 4, 1, 534],
        7 => vec![1, 3, 6, 1, 4, 1, 6574],
        8 => vec![1, 3, 6, 1, 4, 1, 48690],
        _ => vec![1, 3, 6, 1, 4, 1, 2578],
    }
}

fn is_below(oid: &[u32], root: &Vec<u32>) -> (r: bool)
    ensures
        r == below(oid@, root@),
{
    if root.len() > oid.len() {
        return false;
    }
    let mut k: usize = 0;
    while k < root.len()
        invariant
            k <= root@.len() <= oid@.len(),
            forall|j: int| 0 <= j < k ==> oid@[j] == root@[j],
        decreases root@.len() - k,
    {
        if oid[k] != root[k] {
            proof {
                assert(oid@.take(root@.len() as int)[k as int] == oid@[k as int]);
            }
            return false;
        }
        k += 1;
    }
    proof {
        assert(oid@.take(root@.len() as int) =~= root@);
    }
    true
}

fn is_allowed(oid: &[u32]) -> (r: bool)
    ensures
        r == allowed(oid@),
{
    let mut i: usize = 0;
    while i < 10
        invariant
            i <= 10,
            forall|j: usize| j < i ==> !below(oid@, #[trigger] allowed_root(j)),
        decreases 10 - i,
    {
        let root = root_at(i);
        if is_below(oid, &root) {
            proof {
                assert(below(oid@, allowed_root(i)));
            }
            return true;
        }
        i += 1;
    }
    false
}

/// The components of an identifier in decimal.
pub open spec fn arc_texts(oid: Seq<u32>) -> Seq<Seq<char>> {
    Seq::new(oid.len(), |i: int| numerals::dec(oid[i] as nat))
}

/// The dotted form of an identifier.
pub open spec fn dotted(oid: Seq<u32>) -> Seq<char> {
    text::joined(arc_texts(oid), "."@)
}

/// Writes an identifier in its dotted form.
pub fn oid_to_string(oid: &[u32]) -> (r: String)
    ensures
        r@ == dotted(oid@),
{
    let mut parts: Vec<String> = Vec::new();
    let mut i: usize = 0;
    while i < oid.len()
        invariant
            i <= oid@.len(),
            parts@.len() == i,
            forall|j: int| 0 <= j < i ==> (#[trigger] parts@[j])@ == numerals::dec(oid@[j] as nat),
        decreases oid@.len() - i,
    {
        parts.push(numerals::dec_u64(oid[i] as u64));
        i += 1;
    }
    proof {
        assert(text::texts(parts@) =~= arc_texts(oid@));
    }
    text::join(&parts, ".")
}

/// Why an identifier may not be asked for.
pub open spec fn oid_fault(oid: Seq<u32>) -> Option<Seq<char>> {
    if oid.len() == 0 {
        Some("SNMP OID cannot be empty"@)
    } else if oid.len() > 128 {
        Some(
            "SNMP OID too long: "@ + numerals::dec(oid.len()) + " components (max 128)"@,
        )
    } else if oid[0] > 2 {
        Some(
            "Invalid OID root: "@ + numerals::dec(oid[0] as nat) + " (must be 0, 1, or 2)"@,
        )
    } else if !allowed(oid) {
        Some("SNMP OID not whitelisted: "@ + dotted(oid))
    } else {
        None
    }
}

/// Checks that an identifier may be asked for.
pub fn validate_snmp_oid(oid: &[u32]) -> (r: Result<(), String>)
    ensures
        match r {
            Ok(_) => oid_fault(oid@) is None,
            Err(e) => oid_fault(oid@) == Some(e@),
        },
{
    let n = oid.len();
    if n == 0 {
        return Err("SNMP OID cannot be empty".to_owned());
    }
    if n > 128 {
        return Err(
            text::glue3(
                "SNMP OID too long: ",
                numerals::dec_u64(n as u64).as_str(),
                " components (max 128)",
            ),
        );
    }
    if oid[0] > 2 {
        return Err(
            text::glue3(
                "Invalid OID root: ",
                numerals::dec_u64(oid[0] as u64).as_str(),
                " (must be 0, 1, or 2)",
            ),
        );
    }
    if !is_allowed(oid) {
        return Err(text::glue("SNMP OID not whitelisted: ", oid_to_string(oid).as_str()));
    }
    Ok(())
}

/// An identifier that passes the check can be encoded.
pub proof fn valid_oid_is_encodable(oid: Seq<u32>)
    requires
        oid_fault(oid) is None,
    ensures
        root_fits(oid),
{
    let i = choose|i: usize| i < 10 && below(oid, #[trigger] allowed_root(i));
    let root = allowed_root(i);
    assert(root[0] == 1 && root[1] == 3 && root.len() == 7);
    assert(oid.take(7)[0] == oid[0] && oid.take(7)[1] == oid[1]);
}

/// The request for an object, or why it may not be asked for.
pub fn snmp_request(community: &str, oid: &[u32]) -> (r: Result<Vec<u8>, String>)
    ensures
        match r {
            Ok(packet) => oid_fault(oid@) is None && packet@ == get_packet(community@, oid@),
            Err(e) => oid_fault(oid@) == Some(e@),
        },
{
    match validate_snmp_oid(oid) {
        Ok(_) => {
            proof {
                valid_oid_is_encodable(oid@);
            }
            Ok(snmp_get_packet(community, oid))
        },
        Err(e) => Err(e),
    }
}

/// The bytes of a reply in hexadecimal, two digits for each, with spaces between them.
pub open spec fn hex_dump(bytes: Seq<u8>) -> Seq<char> {
    text::joined(Seq::new(bytes.len(), |i: int| numerals::hex_pair(bytes[i])), " "@)
}

/// Writes bytes in hexadecimal.
pub fn bytes_to_hex_string(bytes: &[u8]) -> (r: String)
    ensures
        r@ == hex_dump(bytes@),
{
    let mut parts: Vec<String> = Vec::new();
    let mut i: usize = 0;
    while i < bytes.len()
        invariant
            i <= bytes@.len(),
            parts@.len() == i,
            forall|j: int| 0 <= j < i ==> (#[trigger] parts@[j])@ == numerals::hex_pair(bytes@[j]),
        decreases bytes@.len() - i,
    {
        let mut pair = String::new();
        numerals::push_hex_pair(&mut pair, bytes[i]);
        proof {
            assert(pair@ =~= numerals::hex_pair(bytes@[i as int]));
        }
        parts.push(pair);
        i += 1;
    }
    proof {
        assert(text::texts(parts@) =~= Seq::new(
            bytes@.len(),
            |j: int| numerals::hex_pair(bytes@[j]),
        ));
    }
    text::join(&parts, " ")
}

// ---------------------------------------------------------------------------
// What reading gives back of writing
// ---------------------------------------------------------------------------

/// A length below 256 that was written is read back wherever it stands, with the number of
/// bytes it took.
pub proof fn length_reads_back(lead: Seq<u8>, len: nat, rest: Seq<u8>)
    requires
        len < 256,
    ensures
        asn1_length(lead + length_bytes(len) + rest, lead.len() as int) == Some(
            (len, length_bytes(len).len()),
        ),
{
    let data = lead + length_bytes(len) + rest;
    let at = lead.len() as int;
    assert(data[at] == length_bytes(len)[0]);
    if len >= 128 {
        let field = data.subrange(at + 1, at + 2);
        assert(field =~= seq![len as u8]);
        assert(field.drop_last() =~= Seq::<u8>::empty());
        assert(big_endian(field.drop_last()) == 0);
        assert(big_endian(field) == len);
    }
}

proof fn scan_passes(data: Seq<u8>, i: int, k: int, last: int)
    requires
        0 <= i <= k,
        forall|j: int| i <= j < k && j + 2 < data.len() ==> oid_end_at(data, j) is None,
        k + 2 <= data.len() || i + 2 >= data.len(),
    ensures
        last_oid_end(data, i, last) == last_oid_end(data, k, last) || i + 2 >= data.len(),
        i + 2 >= data.len() ==> last_oid_end(data, i, last) == last,
    decreases k - i,
{
    if i < k && i + 2 < data.len() {
        scan_passes(data, i + 1, k, last);
    }
}

/// Of a message in which a variable follows `lead`, the value of the variable is read: the
/// bytes behind the object identifier. Left out are messages in which other bytes, before the
/// identifier or behind it, look like an identifier too.
pub proof fn value_reads_back(lead: Seq<u8>, oid: Seq<u8>, tag: u8, content: Seq<u8>)
    requires
        oid.len() < 128,
        0 < content.len() < 128,
        ({
            let data = lead + tagged(0x06, oid) + tagged(tag, content);
            forall|j: int|
                0 <= j && j + 2 < data.len() && !(lead.len() <= j < lead.len() + 2 + oid.len())
                    ==> oid_end_at(data, j) is None
        }),
    ensures
        value_field(lead + tagged(0x06, oid) + tagged(tag, content)) == Some((tag, content)),
{
    let data = lead + tagged(0x06, oid) + tagged(tag, content);
    let at = lead.len() as int;
    let end = at + 2 + oid.len();
    assert(data[at] == 0x06);
    assert(data[at + 1] == oid.len());
    assert(oid_end_at(data, at) == Some(end));
    assert(data.len() == end + 2 + content.len());
    scan_passes(data, 0, at, 0);
    assert(last_oid_end(data, at, 0) == last_oid_end(data, end, end));
    let stop = data.len() - 2;
    if end + 2 < data.len() {
        scan_passes(data, end, stop, end);
        assert(last_oid_end(data, stop, end) == end);
    }
    assert(last_oid_end(data, 0, 0) == end);
    assert(data[end] == tag);
    assert(data[end + 1] == content.len());
    assert(data.subrange(end + 2, end + 2 + content.len()) =~= content);
}

/// The number that groups of seven bits spell.
pub open spec fn base128(bytes: Seq<u8>) -> nat
    decreases bytes.len(),
{
    if bytes.len() == 0 {
        0
    } else {
        base128(bytes.drop_last()) * 128 + (bytes.last() % 128) as nat
    }
}

/// The bytes of a component below 2097152 spell that component, and all but the last of them
/// have the high bit.
pub proof fn arc_reads_back(n: u32)
    requires
        n < 2097152,
    ensures
        base128(arc_bytes(n)) == n,
        forall|i: int| 0 <= i < arc_bytes(n).len() ==> (arc_bytes(n)[i] >= 128 <==> i
            < arc_bytes(n).len() - 1),
{
    reveal_with_fuel(base128, 4);
    let b = arc_bytes(n);
    if n < 128 {
        assert(b.drop_last() =~= Seq::<u8>::empty());
    } else if n < 16384 {
        assert(b.drop_last() =~= seq![b[0]]);
        assert(b.drop_last().drop_last() =~= Seq::<u8>::empty());
    } else {
        assert(b.drop_last() =~= seq![b[0], b[1]]);
        assert(b.drop_last().drop_last() =~= seq![b[0]]);
        assert(b.drop_last().drop_last().drop_last() =~= Seq::<u8>::empty());
        assert(n / 16384 < 128);
    }
}

/// The components that bytes spell, and what a last one amounts to that is not complete: each
/// ends with the first byte that does not have the high bit.
pub open spec fn arcs_in(bytes: Seq<u8>) -> (Seq<nat>, nat)
    decreases bytes.len(),
{
    if bytes.len() == 0 {
        (Seq::empty(), 0)
    } else {
        let (done, part) = arcs_in(bytes.drop_last());
        let now = part * 128 + (bytes.last() % 128) as nat;
        if bytes.last() >= 128 {
            (done, now)
        } else {
            (done.push(now), 0)
        }
    }
}

/// The identifier that bytes spell. The first byte holds two components, of which the first is
/// at most 2.
pub open spec fn oid_in(bytes: Seq<u8>) -> Seq<nat> {
    let first = if bytes[0] < 80 {
        (bytes[0] / 40) as nat
    } else {
        2
    };
    seq![first, (bytes[0] - 40 * first) as nat] + arcs_in(bytes.skip(1)).0
}

/// The components of an identifier as numbers.
pub open spec fn components(oid: Seq<u32>) -> Seq<nat> {
    Seq::new(oid.len(), |i: int| oid[i] as nat)
}

proof fn one_more_arc(before: Seq<u8>, n: u32)
    requires
        n < 2097152,
        arcs_in(before).1 == 0,
    ensures
        arcs_in(before + arc_bytes(n)) == (arcs_in(before).0.push(n as nat), 0nat),
{
    let b = arc_bytes(n);
    let all = before + b;
    if n < 128 {
        assert(all.drop_last() =~= before);
    } else if n < 16384 {
        let one = before.push(b[0]);
        assert(one.drop_last() =~= before);
        assert(all.drop_last() =~= one);
        assert(arcs_in(one) == (arcs_in(before).0, (n / 128) as nat));
    } else {
        let one = before.push(b[0]);
        let two = one.push(b[1]);
        assert(one.drop_last() =~= before);
        assert(two.drop_last() =~= one);
        assert(all.drop_last() =~= two);
        assert(n / 16384 < 128);
        assert(arcs_in(one) == (arcs_in(before).0, (n / 16384) as nat));
        assert(arcs_in(two) == (arcs_in(before).0, (n / 128) as nat));
    }
}

proof fn arcs_read_back(arcs: Seq<u32>)
    requires
        forall|i: int| 0 <= i < arcs.len() ==> (#[trigger] arcs[i]) < 2097152,
    ensures
        arcs_in(arcs_bytes(arcs)) == (components(arcs), 0nat),
    decreases arcs.len(),
{
    if arcs.len() > 0 {
        arcs_read_back(arcs.drop_last());
        one_more_arc(arcs_bytes(arcs.drop_last()), arcs.last());
        assert(components(arcs) =~= components(arcs.drop_last()).push(arcs.last() as nat));
    } else {
        assert(components(arcs) =~= Seq::<nat>::empty());
    }
}

/// An identifier that was written is read back. Its first component is 0, 1 or 2, its second
/// is below 40 under the first two of these and fits in the byte under the third; a component
/// from 2097152 on is written only in part.
pub proof fn oid_reads_back(oid: Seq<u32>)
    requires
        oid.len() >= 2,
        oid[0] <= 2,
        oid[1] < 40 || (oid[0] == 2 && oid[1] < 176),
        forall|i: int| 2 <= i < oid.len() ==> (#[trigger] oid[i]) < 2097152,
    ensures
        root_fits(oid),
        oid_in(oid_bytes(oid)) == components(oid),
{
    let arcs = oid.skip(2);
    assert forall|i: int| 0 <= i < arcs.len() implies (#[trigger] arcs[i]) < 2097152 by {
        assert(arcs[i] == oid[i + 2]);
    }
    arcs_read_back(arcs);
    assert(oid_bytes(oid).skip(1) =~= arcs_bytes(arcs));
    assert(oid_in(oid_bytes(oid)) =~= components(oid));
}

/// One byte stands for itself, or for 256 less where it is an integer with the high bit; each
/// further byte counts behind the ones before it. So far as a value has at most seven bytes,
/// this says which number it is.
pub proof fn numbers_are_read_byte_by_byte(tag: u8, bytes: Seq<u8>, b: u8, more: Vec<u8>, r: i64)
    requires
        more@ == bytes.push(b),
        bytes.len() < 7,
        call_ensures(snmp_number, (tag, &more), r),
    ensures
        bytes.len() == 0 ==> r == (if tag == 0x02 && b >= 128 {
            b as int - 256
        } else {
            b as int
        }),
        bytes.len() > 0 ==> r == 256 * number_of(tag, bytes) + b,
{
    let all = bytes.push(b);
    assert(all.drop_last() =~= bytes);
    assert(big_endian(all) == big_endian(bytes) * 256 + b);
    big_endian_bound(all);
    big_endian_bound(bytes);
    pow256_grows(all.len(), 7);
    pow256_grows(bytes.len(), 7);
    pow256_seven();
    assert(pow256(all.len()) == 256 * pow256(bytes.len()));
    if bytes.len() == 0 {
        assert(bytes =~= Seq::<u8>::empty());
        assert(pow256(0) == 1);
        assert(all[0] == b);
    } else {
        assert(all[0] == bytes[0]);
    }
}

/// Of a message in which a variable follows `lead`, the number or the text of the variable is
/// read, by its type; other types give neither.
pub proof fn replies_give_their_value(
    lead: Seq<u8>,
    oid: Seq<u8>,
    tag: u8,
    content: Seq<u8>,
    data: &[u8],
    number: Option<i64>,
    words: Option<String>,
)
    requires
        oid.len() < 128,
        0 < content.len() < 128,
        data@ == lead + tagged(0x06, oid) + tagged(tag, content),
        forall|j: int|
            0 <= j && j + 2 < data@.len() && !(lead.len() <= j < lead.len() + 2 + oid.len())
                ==> oid_end_at(data@, j) is None,
        call_ensures(extract_snmp_value, (data,), number),
        call_ensures(extract_snmp_octet_string, (data,), words),
    ensures
        tag == 0x02 || tag == 0x41 || tag == 0x42 || tag == 0x43 ==> number is Some
            && number->0 as int == number_of(tag, content) && words is None,
        tag == 0x04 ==> number is None && words is Some && (words->0)@ == octets_text(
            numerals::utf8_lossy(content),
        ),
        tag == 0x05 || tag == 0x06 || tag == 0x30 ==> number is None && words is None,
{
    value_reads_back(lead, oid, tag, content);
}

proof fn leading_zeros_go(zeros: Seq<char>, s: Seq<char>)
    requires
        forall|i: int| 0 <= i < zeros.len() ==> (#[trigger] zeros[i]) == '\0',
    ensures
        text::without_leading(zeros + s, '\0') == text::without_leading(s, '\0'),
    decreases zeros.len(),
{
    if zeros.len() > 0 {
        assert((zeros + s)[0] == '\0');
        assert((zeros + s).skip(1) =~= zeros.skip(1) + s);
        leading_zeros_go(zeros.skip(1), s);
    } else {
        assert(zeros + s =~= s);
    }
}

proof fn trailing_zeros_go(s: Seq<char>, zeros: Seq<char>)
    requires
        forall|i: int| 0 <= i < zeros.len() ==> (#[trigger] zeros[i]) == '\0',
    ensures
        text::without_trailing(s + zeros, '\0') == text::without_trailing(s, '\0'),
    decreases zeros.len(),
{
    if zeros.len() > 0 {
        assert((s + zeros).last() == '\0');
        assert((s + zeros).drop_last() =~= s + zeros.drop_last());
        trailing_zeros_go(s, zeros.drop_last());
    } else {
        assert(s + zeros =~= s);
    }
}

/// The zero characters around a text are taken off, and the text stays.
pub proof fn texts_lose_their_padding(
    a: Seq<char>,
    s: Seq<char>,
    b: Seq<char>,
    padded: &str,
    r: String,
)
    requires
        forall|i: int| 0 <= i < a.len() ==> (#[trigger] a[i]) == '\0',
        forall|i: int| 0 <= i < b.len() ==> (#[trigger] b[i]) == '\0',
        s.len() > 0,
        s[0] != '\0' && s.last() != '\0',
        text::is_trimmed(s),
        padded@ == a + s + b,
        call_ensures(strip_octets, (padded,), r),
    ensures
        r@ == s,
{
    assert(a + s + b =~= a + (s + b));
    leading_zeros_go(a, s + b);
    assert((s + b)[0] == s[0]);
    trailing_zeros_go(s, b);
    text::trimming_takes_off_white_space(Seq::empty(), s, Seq::empty());
    assert(Seq::<char>::empty() + s + Seq::<char>::empty() =~= s);
}

/// What may be asked for begins with one of the roots; what does not is refused with a text that
/// names it, and nothing is sent.
pub proof fn only_listed_objects_are_asked_for(
    community: &str,
    oid: &[u32],
    r: Result<Vec<u8>, String>,
)
    requires
        call_ensures(snmp_request, (community, oid), r),
    ensures
        r is Ok <==> 7 <= oid@.len() <= 128 && oid@[0] == 1 && oid@[1] == 3 && oid@[2] == 6
            && oid@[3] == 1 && oid@[5] == 1 && (if oid@[4] == 2 {
            oid@[6] == 1 || oid@[6] == 2 || oid@[6] == 25 || oid@[6] == 33 || oid@[6] == 105
        } else {
            oid@[4] == 4 && (oid@[6] == 318 || oid@[6] == 534 || oid@[6] == 6574 || oid@[6] == 48690
                || oid@[6] == 2578)
        }),
        r is Err && oid@.len() > 0 && oid@.len() <= 128 && oid@[0] <= 2 ==> text::ends(
            (r->Err_0)@,
            dotted(oid@),
        ),
{
    let o = oid@;
    if r is Ok {
        let i = choose|i: usize| i < 10 && below(o, #[trigger] allowed_root(i));
        let root = allowed_root(i);
        assert(root.len() == 7);
        assert(forall|k: int| 0 <= k < 7 ==> o.take(7)[k] == o[k]);
        assert(root[6] == o.take(7)[6]);
    } else {
        if 7 <= o.len() <= 128 {
            assert forall|i: usize| i < 10 implies (#[trigger] below(o, allowed_root(i))
                <==> forall|k: int|
                0 <= k < 7 ==> o[k] == allowed_root(i)[k]) by {
                assert(allowed_root(i).len() == 7);
                if forall|k: int| 0 <= k < 7 ==> o[k] == allowed_root(i)[k] {
                    assert(o.take(7) =~= allowed_root(i));
                }
            }
            assert(!below(o, allowed_root(0)) && !below(o, allowed_root(1)) && !below(
                o,
                allowed_root(2),
            ) && !below(o, allowed_root(3)) && !below(o, allowed_root(4)) && !below(
                o,
                allowed_root(5),
            ) && !below(o, allowed_root(6)) && !below(o, allowed_root(7)) && !below(
                o,
                allowed_root(8),
            ) && !below(o, allowed_root(9)));
        }
        if o.len() > 0 && o.len() <= 128 && o[0] <= 2 {
            let lead = "SNMP OID not whitelisted: "@;
            let e = (r->Err_0)@;
            assert(e == lead + dotted(o));
            assert(e.skip(lead.len() as int) =~= dotted(o));
        }
    }
}

/// A request of fewer than 128 bytes says how long it is, names version 1 and the community, and
/// ends with the identifier and the null that stands for its value.
pub proof fn requests_hold_what_is_asked(community: &str, oid: &[u32], r: Vec<u8>)
    requires
        root_fits(oid@),
        call_ensures(snmp_get_packet, (community, oid), r),
    ensures
        r@[0] == 0x30,
        r@.len() < 130 ==> r@[1] == r@.len() - 2,
        r@.len() < 130 ==> r@.subrange(2, 5) == seq![0x02u8, 0x01, 0x00],
        r@.len() < 130 ==> r@[5] == 0x04 && r@[6] == encode_utf8(community@).len() && r@.subrange(
            7,
            (7 + encode_utf8(community@).len()) as int,
        ) == encode_utf8(community@) && r@[(7 + encode_utf8(community@).len()) as int] == 0xa0,
        r@.len() < 130 ==> r@.skip(r@.len() - oid_bytes(oid@).len() - 4) == seq![
            0x06u8,
            oid_bytes(oid@).len() as u8,
        ] + oid_bytes(oid@) + seq![0x05u8, 0x00],
{
    let o = oid_bytes(oid@);
    let c = encode_utf8(community@);
    let inner = seq![0x02u8, 0x01, 0x00] + tagged(0x04, c) + get_pdu(oid@);
    assert(r@ == tagged(0x30, inner));
    if r@.len() < 130 {
        assert(inner.len() < 128);
        assert(r@.len() == inner.len() + 2);
        assert(r@.subrange(2, 5) =~= seq![0x02u8, 0x01, 0x00]);
        let tc = tagged(0x04, c);
        assert(c.len() < 128);
        assert(tc.len() == c.len() + 2);
        assert(r@[5] == tc[0] && r@[6] == tc[1]);
        assert(r@.subrange(7, (7 + c.len()) as int) =~= c);
        assert(r@[(7 + c.len()) as int] == get_pdu(oid@)[0]);
        let to = tagged(0x06, o);
        let pair = to + seq![0x05u8, 0x00];
        let vb = tagged(0x30, pair);
        let list = tagged(0x30, vb);
        assert(o.len() < 128);
        assert(pair.len() < 128 && vb.len() < 128);
        assert(to =~= seq![0x06u8, o.len() as u8] + o);
        let n = r@.len() - o.len() - 4;
        assert(vb.skip(vb.len() - pair.len()) =~= pair);
        assert(list.skip(list.len() - pair.len()) =~= pair);
        let pdu = get_pdu(oid@);
        assert(pdu.skip(pdu.len() - pair.len()) =~= pair);
        assert(inner.skip(inner.len() - pair.len()) =~= pair);
        assert(r@.skip(n) =~= pair);
    }
}

/// An identifier is written with a dot before each further component, and bytes with a space
/// before each further pair of digits.
pub proof fn components_are_written_in_order(oid: Seq<u32>, n: u32, bytes: Seq<u8>, b: u8)
    ensures
        dotted(seq![n]) == numerals::dec(n as nat),
        oid.len() > 0 ==> dotted(oid.push(n)) == dotted(oid) + seq!['.'] + numerals::dec(n as nat),
        hex_dump(seq![b]) == numerals::hex_pair(b),
        bytes.len() > 0
            ==> hex_dump(bytes.push(b)) == hex_dump(bytes) + seq![' '] + numerals::hex_pair(
            b,
        ),
{
    reveal_strlit(".");
    reveal_strlit(" ");
    assert("."@ =~= seq!['.']);
    assert(" "@ =~= seq![' ']);
    assert(arc_texts(seq![n]) =~= seq![numerals::dec(n as nat)]);
    assert(arc_texts(oid.push(n)) =~= arc_texts(oid).push(numerals::dec(n as nat)));
    text::joining_puts_separators_between(arc_texts(oid), numerals::dec(n as nat), "."@);
    let pairs = Seq::new(bytes.len(), |i: int| numerals::hex_pair(bytes[i]));
    let more = bytes.push(b);
    assert(Seq::new(more.len(), |i: int| numerals::hex_pair(more[i])) =~= pairs.push(
        numerals::hex_pair(b),
    ));
    let one = seq![b];
    assert(Seq::new(one.len(), |i: int| numerals::hex_pair(one[i])) =~= seq![numerals::hex_pair(b)]);
    text::joining_puts_separators_between(pairs, numerals::hex_pair(b), " "@);
}

/// A reply reads as its text, and as its number in decimal where it is one.
pub proof fn replies_read_as_text(
    data: &[u8],
    words: Option<String>,
    number: Option<i64>,
    r: Option<String>,
)
    requires
        call_ensures(extract_snmp_octet_string, (data,), words),
        call_ensures(extract_snmp_value, (data,), number),
        call_ensures(snmp_text, (data,), r),
    ensures
        words is Some && !text::is_blank((words->0)@) ==> r is Some && (r->0)@ == (words->0)@,
        words is None && number is Some ==> r is Some
            && (r->0)@ == numerals::dec_int(number->0 as int),
        words is None && number is None ==> r is None,
{
}

/// An object that may not be asked for is refused before anything is sent.
pub proof fn refused_objects_are_not_asked_for(
    community: &str,
    oid: &[u32],
    judged: Result<(), String>,
    r: Result<Vec<u8>, String>,
)
    requires
        call_ensures(validate_snmp_oid, (oid,), judged),
        call_ensures(snmp_request, (community, oid), r),
    ensures
        judged is Ok <==> r is Ok,
        oid@.len() == 0 ==> judged is Err,
        oid@.len() > 128 ==> judged is Err,
{
}

} // verus!

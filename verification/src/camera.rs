//! The cameras: frames out of a stream of JPEG images, the MJPEG server, pan and tilt, and the
//! program that decodes the streams.

use base64::Engine;
use vstd::prelude::*;
use vstd::string::*;
use vstd::utf8::*;

use crate::numerals;
use crate::projector_extras;
use crate::text;
use crate::ups;

verus! {

pub const CAMERA_MJPEG_PORT: u16 = 41777;

// ---------------------------------------------------------------------------
// Frames
// ---------------------------------------------------------------------------

/// Whether two bytes stand next to each other at a position.
pub open spec fn marker_at(data: Seq<u8>, a: u8, b: u8, i: int) -> bool {
    0 <= i && i + 1 < data.len() && data[i] == a && data[i + 1] == b
}

/// The first position from `i` on at which two bytes stand next to each other.
pub open spec fn marker_from(data: Seq<u8>, a: u8, b: u8, i: int) -> Option<int>
    decreases data.len() - i,
{
    if i < 0 || i + 1 >= data.len() {
        None
    } else if marker_at(data, a, b, i) {
        Some(i)
    } else {
        marker_from(data, a, b, i + 1)
    }
}

proof fn marker_is_first(data: Seq<u8>, a: u8, b: u8, i: int)
    requires
        0 <= i,
    ensures
        match marker_from(data, a, b, i) {
            Some(k) => i <= k && marker_at(data, a, b, k) && forall|j: int|
                i <= j < k ==> !marker_at(data, a, b, j),
            None => forall|j: int| i <= j ==> !marker_at(data, a, b, j),
        },
    decreases data.len() - i,
{
    if i + 1 < data.len() && !marker_at(data, a, b, i) {
        marker_is_first(data, a, b, i + 1);
    }
}

proof fn marker_is_there(data: Seq<u8>, a: u8, b: u8, i: int, k: int)
    requires
        0 <= i <= k,
        marker_at(data, a, b, k),
        forall|j: int| i <= j < k ==> !marker_at(data, a, b, j),
    ensures
        marker_from(data, a, b, i) == Some(k),
    decreases k - i,
{
    if i < k {
        assert(!marker_at(data, a, b, i));
        marker_is_there(data, a, b, i + 1, k);
    }
}

proof fn marker_is_absent(data: Seq<u8>, a: u8, b: u8, i: int)
    requires
        0 <= i,
        forall|j: int| i <= j ==> !marker_at(data, a, b, j),
    ensures
        marker_from(data, a, b, i) is None,
    decreases data.len() - i,
{
    if i + 1 < data.len() {
        marker_is_absent(data, a, b, i + 1);
    }
}

/// The position of the first marker.
pub fn find_jpeg_marker(data: &[u8], a: u8, b: u8) -> (r: Option<usize>)
    ensures
        match r {
            Some(i) => marker_from(data@, a, b, 0) == Some(i as int),
            None => marker_from(data@, a, b, 0) is None,
        },
{
    find_marker_from(data, a, b, 0)
}

fn find_marker_from(data: &[u8], a: u8, b: u8, from: usize) -> (r: Option<usize>)
    requires
        from <= data@.len(),
    ensures
        match r {
            Some(i) => marker_from(data@, a, b, from as int) == Some(i as int) && from <= i && i + 1
                < data@.len(),
            None => marker_from(data@, a, b, from as int) is None,
        },
{
    let n = data.len();
    let mut i: usize = from;
    while i < n && n - i > 1
        invariant
            n == data@.len(),
            from <= i <= n,
            marker_from(data@, a, b, from as int) == marker_from(data@, a, b, i as int),
        decreases n - i,
    {
        if data[i] == a && data[i + 1] == b {
            return Some(i);
        }
        i += 1;
    }
    None
}

pub const MAX_PENDING_BYTES: usize = 2_000_000;

/// The bytes from the first start of an image on.
pub open spec fn image_start(data: Seq<u8>) -> Option<Seq<u8>> {
    match marker_from(data, 0xff, 0xd8, 0) {
        Some(i) => Some(data.skip(i)),
        None => None,
    }
}

/// How long the image is that the bytes begin with, if all of it is there.
pub open spec fn image_len(data: Seq<u8>) -> Option<int> {
    match marker_from(data, 0xff, 0xd9, 2) {
        Some(i) => Some(i + 2),
        None => None,
    }
}

/// What is kept of bytes without the start of an image: the last one.
pub open spec fn last_byte(data: Seq<u8>) -> Seq<u8> {
    if data.len() > 1 {
        data.skip(data.len() - 1)
    } else {
        data
    }
}

/// The images that are complete in the bytes of a stream, and the bytes that are kept for the
/// next ones. An image that grows beyond the limit is dropped.
pub open spec fn split_frames(data: Seq<u8>) -> (Seq<Seq<u8>>, Seq<u8>)
    decreases data.len(),
{
    match image_start(data) {
        None => (Seq::empty(), last_byte(data)),
        Some(image) => match image_len(image) {
            None => (
                Seq::empty(),
                if image.len() > MAX_PENDING_BYTES {
                    Seq::empty()
                } else {
                    image
                },
            ),
            Some(len) => if 0 < len <= image.len() && image.len() <= data.len() {
                let (frames, rest) = split_frames(image.skip(len));
                (seq![image.take(len)] + frames, rest)
            } else {
                (Seq::empty(), image)
            },
        },
    }
}

/// The bytes of a stream that are not part of a complete image yet.
pub struct FrameBuffer {
    pub bytes: Vec<u8>,
}

pub open spec fn last_frame(frames: Seq<Seq<u8>>) -> Option<Seq<u8>> {
    if frames.len() > 0 {
        Some(frames.last())
    } else {
        None
    }
}

impl FrameBuffer {
    pub fn new() -> (r: Self)
        ensures
            r.bytes@ == Seq::<u8>::empty(),
    {
        FrameBuffer { bytes: Vec::new() }
    }

    /// Takes in a piece of the stream; the last image that it completes, if it completes one.
    pub fn feed(&mut self, chunk: &Vec<u8>) -> (r: Option<Vec<u8>>)
        ensures
            ups::view_bytes(r) == last_frame(split_frames(old(self).bytes@ + chunk@).0),
            final(self).bytes@ == split_frames(old(self).bytes@ + chunk@).1,
    {
        let mut data: Vec<u8> = numerals::bytes_between(&self.bytes, 0, self.bytes.len());
        numerals::extend_bytes(&mut data, chunk);
        proof {
            assert(data@ =~= old(self).bytes@ + chunk@);
            assert(data@.skip(0) =~= data@);
        }
        let n = data.len();
        let mut latest: Option<Vec<u8>> = None;
        let mut pos: usize = 0;
        let ghost mut done: Seq<Seq<u8>> = Seq::empty();
        proof {
            let all = split_frames(data@);
            assert(done + all.0 =~= all.0);
        }
        loop
            invariant
                pos <= n,
                n == data@.len(),
                data@ == old(self).bytes@ + chunk@,
                ups::view_bytes(latest) == last_frame(done),
                split_frames(data@).0 == done + split_frames(data@.skip(pos as int)).0,
                split_frames(data@).1 == split_frames(data@.skip(pos as int)).1,
            decreases n - pos,
        {
            let ghost cur = data@.skip(pos as int);
            match find_marker_from(data.as_slice(), 0xff, 0xd8, pos) {
                None => {
                    proof {
                        shift_marker(data@, 0xff, 0xd8, pos as int, 0);
                        assert(image_start(cur) is None);
                        assert(done + Seq::<Seq<u8>>::empty() =~= done);
                    }
                    let from = if n - pos > 1 {
                        n - 1
                    } else {
                        pos
                    };
                    proof {
                        assert(data@.subrange(from as int, n as int) =~= last_byte(cur));
                    }
                    self.bytes = numerals::bytes_between(&data, from, n);
                    return latest;
                },
                Some(start) => {
                    let ghost image = data@.skip(start as int);
                    proof {
                        shift_marker(data@, 0xff, 0xd8, pos as int, 0);
                        assert(cur.skip(start - pos) =~= image);
                        assert(image_start(cur) == Some(image));
                        shift_marker(data@, 0xff, 0xd9, start as int, 2);
                    }
                    match find_marker_from(data.as_slice(), 0xff, 0xd9, start + 2) {
                        None => {
                            proof {
                                assert(image_len(image) is None);
                                assert(done + Seq::<Seq<u8>>::empty() =~= done);
                            }
                            if n - start > MAX_PENDING_BYTES {
                                self.bytes = Vec::new();
                            } else {
                                proof {
                                    assert(data@.subrange(start as int, n as int) =~= image);
                                }
                                self.bytes = numerals::bytes_between(&data, start, n);
                            }
                            return latest;
                        },
                        Some(end) => {
                            let ghost len = end + 2 - start;
                            let frame = numerals::bytes_between(&data, start, end + 2);
                            proof {
                                assert(image_len(image) == Some(len));
                                assert(frame@ =~= image.take(len));
                                assert(image.skip(len) =~= data@.skip(end + 2));
                                let tail = split_frames(data@.skip(end + 2));
                                assert(split_frames(cur).0 == seq![frame@] + tail.0);
                                assert(done + (seq![frame@] + tail.0) =~= done.push(frame@) + tail.0);
                                done = done.push(frame@);
                            }
                            latest = Some(frame);
                            pos = end + 2;
                        },
                    }
                },
            }
        }
    }
}

proof fn shift_marker(data: Seq<u8>, a: u8, b: u8, at: int, i: int)
    requires
        0 <= at <= data.len(),
        0 <= i,
    ensures
        marker_from(data.skip(at), a, b, i) == (match marker_from(data, a, b, at + i) {
            Some(k) => Some(k - at),
            None => None,
        }),
    decreases data.len() - at - i,
{
    let tail = data.skip(at);
    if i + 1 < tail.len() {
        assert(tail[i] == data[at + i]);
        assert(tail[i + 1] == data[at + i + 1]);
        if !marker_at(tail, a, b, i) {
            shift_marker(data, a, b, at, i + 1);
        }
    }
}

/// Every image that is handed out begins with the start of an image and ends with the end of
/// one.
pub proof fn frames_are_images(data: Seq<u8>, i: int)
    requires
        0 <= i < split_frames(data).0.len(),
    ensures
        ({
            let frame = split_frames(data).0[i];
            &&& frame.len() >= 4
            &&& frame[0] == 0xff && frame[1] == 0xd8
            &&& frame[frame.len() - 2] == 0xff && frame[frame.len() - 1] == 0xd9
        }),
    decreases data.len(),
{
    marker_is_first(data, 0xff, 0xd8, 0);
    let image = image_start(data)->0;
    marker_is_first(image, 0xff, 0xd9, 2);
    let len = image_len(image)->0;
    if i > 0 {
        frames_are_images(image.skip(len), i - 1);
    }
}

/// How a stream is cut into pieces does not matter: taking in `a` and then `b` gives the same
/// images, and keeps the same bytes, as taking in both at once. Left out are streams in which
/// an image was dropped for its size.
pub proof fn pieces_do_not_matter(a: Seq<u8>, b: Seq<u8>)
    requires
        no_drop(a),
    ensures
        split_frames(a + b).0 == split_frames(a).0 + split_frames(split_frames(a).1 + b).0,
        split_frames(a + b).1 == split_frames(split_frames(a).1 + b).1,
    decreases a.len(),
{
    let ab = a + b;
    marker_is_first(a, 0xff, 0xd8, 0);
    match image_start(a) {
        None => {
            let kept = last_byte(a);
            assert(split_frames(a).0 =~= Seq::<Seq<u8>>::empty());
            if a.len() > 1 {
                let at = a.len() - 1;
                assert(ab.skip(at) =~= kept + b);
                scan_passes(a, b, 0);
                shift_marker(ab, 0xff, 0xd8, at, 0);
                match marker_from(ab, 0xff, 0xd8, at) {
                    Some(k) => {
                        marker_is_first(ab, 0xff, 0xd8, at);
                        assert((kept + b).skip(k - at) =~= ab.skip(k));
                    },
                    None => {
                        assert(last_byte(ab) =~= last_byte(kept + b));
                    },
                }
                same_start(ab, kept + b);
            } else {
                assert(kept + b =~= ab);
            }
            assert(Seq::<Seq<u8>>::empty() + split_frames(kept + b).0 =~= split_frames(
                kept + b,
            ).0);
        },
        Some(image) => {
            let s = marker_from(a, 0xff, 0xd8, 0)->0;
            assert(marker_at(ab, 0xff, 0xd8, s));
            assert forall|j: int| 0 <= j < s implies !marker_at(ab, 0xff, 0xd8, j) by {
                assert(!marker_at(a, 0xff, 0xd8, j));
            }
            marker_is_there(ab, 0xff, 0xd8, 0, s);
            let whole = ab.skip(s);
            assert(whole =~= image + b);
            marker_is_first(image, 0xff, 0xd9, 2);
            match image_len(image) {
                None => {
                    assert(split_frames(a).1 == image);
                    assert(marker_at(whole, 0xff, 0xd8, 0));
                    marker_is_there(whole, 0xff, 0xd8, 0, 0);
                    assert(whole.skip(0) =~= whole);
                    same_start(ab, whole);
                    assert(split_frames(a).0 =~= Seq::<Seq<u8>>::empty());
                    assert(Seq::<Seq<u8>>::empty() + split_frames(whole).0 =~= split_frames(
                        whole,
                    ).0);
                },
                Some(len) => {
                    let e = len - 2;
                    assert(marker_at(whole, 0xff, 0xd9, e));
                    assert forall|j: int| 2 <= j < e implies !marker_at(whole, 0xff, 0xd9, j) by {
                        assert(!marker_at(image, 0xff, 0xd9, j));
                    }
                    marker_is_there(whole, 0xff, 0xd9, 2, e);
                    assert(whole.skip(len) =~= image.skip(len) + b);
                    assert(whole.take(len) =~= image.take(len));
                    pieces_do_not_matter(image.skip(len), b);
                    let rest = split_frames(image.skip(len));
                    let later = split_frames(rest.1 + b).0;
                    assert(seq![image.take(len)] + (rest.0 + later) =~= (seq![image.take(len)]
                        + rest.0) + later);
                },
            }
        },
    }
}

/// Whether no image is dropped for its size while the bytes of a stream are taken in.
pub open spec fn no_drop(data: Seq<u8>) -> bool
    decreases data.len(),
{
    match image_start(data) {
        None => true,
        Some(image) => match image_len(image) {
            None => image.len() <= MAX_PENDING_BYTES,
            Some(len) => if 0 < len <= image.len() && image.len() <= data.len() {
                no_drop(image.skip(len))
            } else {
                true
            },
        },
    }
}

proof fn same_start(x: Seq<u8>, y: Seq<u8>)
    requires
        image_start(x) == image_start(y),
        image_start(x) is None ==> last_byte(x) == last_byte(y),
    ensures
        split_frames(x) == split_frames(y),
{
    marker_is_first(x, 0xff, 0xd8, 0);
    marker_is_first(y, 0xff, 0xd8, 0);
}

proof fn scan_passes(a: Seq<u8>, b: Seq<u8>, i: int)
    requires
        a.len() > 1,
        0 <= i <= a.len() - 1,
        forall|j: int| 0 <= j ==> !marker_at(a, 0xff, 0xd8, j),
    ensures
        marker_from(a + b, 0xff, 0xd8, i) == marker_from(a + b, 0xff, 0xd8, a.len() - 1),
    decreases a.len() - i,
{
    if i < a.len() - 1 {
        assert(!marker_at(a, 0xff, 0xd8, i));
        assert(!marker_at(a + b, 0xff, 0xd8, i));
        scan_passes(a, b, i + 1);
    }
}

/// The letter for a number below 64.
pub open spec fn base64_letter(n: int) -> char {
    if n < 26 {
        ('A' as u32 + n) as char
    } else if n < 52 {
        ('a' as u32 + (n - 26)) as char
    } else if n < 62 {
        ('0' as u32 + (n - 52)) as char
    } else if n == 62 {
        '+'
    } else {
        '/'
    }
}

/// A byte string in base 64: four letters for three bytes, and padding for those that are
/// missing at the end.
pub open spec fn base64_of(bytes: Seq<u8>) -> Seq<char>
    decreases bytes.len(),
{
    if bytes.len() == 0 {
        Seq::empty()
    } else {
        let a = bytes[0] as int;
        let b = if bytes.len() > 1 {
            bytes[1] as int
        } else {
            0
        };
        let c = if bytes.len() > 2 {
            bytes[2] as int
        } else {
            0
        };
        let third = if bytes.len() > 1 {
            base64_letter(b % 16 * 4 + c / 64)
        } else {
            '='
        };
        let fourth = if bytes.len() > 2 {
            base64_letter(c % 64)
        } else {
            '='
        };
        seq![base64_letter(a / 4), base64_letter(a % 4 * 16 + b / 16), third, fourth] + base64_of(
            if bytes.len() > 3 {
                bytes.skip(3)
            } else {
                Seq::empty()
            },
        )
    }
}

/// `base64::engine::general_purpose::STANDARD.encode`: the bytes in the standard alphabet of
/// base 64, with padding.
#[verifier::external_body]
fn base64_text(bytes: &Vec<u8>) -> (r: String)
    ensures
        r@ == base64_of(bytes@),
{
    base64::engine::general_purpose::STANDARD.encode(bytes)
}

/// The number that a letter stands for.
pub open spec fn base64_number(c: char) -> int {
    if 'A' <= c <= 'Z' {
        c as int - 'A' as int
    } else if 'a' <= c <= 'z' {
        c as int - 'a' as int + 26
    } else if '0' <= c <= '9' {
        c as int - '0' as int + 52
    } else if c == '+' {
        62
    } else {
        63
    }
}

/// The byte string that a text in base 64 stands for.
pub open spec fn base64_read(s: Seq<char>) -> Seq<u8>
    decreases s.len(),
{
    if s.len() < 4 {
        Seq::empty()
    } else {
        let a = base64_number(s[0]);
        let b = base64_number(s[1]);
        let c = base64_number(s[2]);
        let d = base64_number(s[3]);
        let first = (a * 4 + b / 16) as u8;
        let second = (b % 16 * 16 + c / 4) as u8;
        let third = (c % 4 * 64 + d) as u8;
        if s[2] == '=' {
            seq![first]
        } else if s[3] == '=' {
            seq![first, second]
        } else {
            seq![first, second, third] + base64_read(s.skip(4))
        }
    }
}

proof fn letters_are_told_apart(n: int)
    requires
        0 <= n < 64,
    ensures
        base64_number(base64_letter(n)) == n,
        base64_letter(n) != '=',
{
}

/// An image in base 64 can be read back.
pub proof fn images_read_back(bytes: Seq<u8>)
    ensures
        base64_read(base64_of(bytes)) == bytes,
    decreases bytes.len(),
{
    let n = bytes.len();
    if n > 0 {
        let a = bytes[0] as int;
        let b = if n > 1 {
            bytes[1] as int
        } else {
            0
        };
        let c = if n > 2 {
            bytes[2] as int
        } else {
            0
        };
        letters_are_told_apart(a / 4);
        letters_are_told_apart(a % 4 * 16 + b / 16);
        letters_are_told_apart(b % 16 * 4 + c / 64);
        letters_are_told_apart(c % 64);
        let rest = if n > 3 {
            bytes.skip(3)
        } else {
            Seq::empty()
        };
        images_read_back(rest);
        let s = base64_of(bytes);
        assert(s.skip(4) =~= base64_of(rest));
        assert(base64_read(s) =~= bytes);
    }
}

/// The address that holds an encoded image.
pub fn image_url(encoded: &str) -> (r: String)
    ensures
        r@ == "data:image/jpeg;base64,"@ + encoded@,
{
    text::glue("data:image/jpeg;base64,", encoded)
}

/// The address that holds an image.
pub fn data_url(bytes: &Vec<u8>) -> (r: String)
    ensures
        r@ == "data:image/jpeg;base64,"@ + base64_of(bytes@),
{
    image_url(base64_text(bytes).as_str())
}

// ---------------------------------------------------------------------------
// Streams
// ---------------------------------------------------------------------------

pub open spec fn clamped_stream(n: u8) -> u8 {
    if n < 1 {
        1
    } else if n > 4 {
        4
    } else {
        n
    }
}

/// The number of a stream: the given one, kept between 1 and 4, or 1.
pub fn stream_number(stream: Option<u8>) -> (r: u8)
    ensures
        r == match stream {
            Some(n) => clamped_stream(n),
            None => 1,
        },
        1 <= r <= 4,
{
    match stream {
        Some(n) => if n < 1 {
            1
        } else if n > 4 {
            4
        } else {
            n
        },
        None => 1,
    }
}

/// The key of a stream among those that run.
pub fn stream_key(ip: &str, stream: u8) -> (r: String)
    ensures
        r@ == ip@ + "|"@ + numerals::dec(stream as nat),
{
    text::glue3(ip, "|", numerals::dec_u64(stream as u64).as_str())
}

/// The address of a stream.
pub fn rtsp_url(ip: &str, stream: u8) -> (r: String)
    ensures
        r@ == "rtsp://"@ + ip@ + "/MediaInput/h264/stream_"@ + numerals::dec(stream as nat),
{
    let mut s = text::glue3("rtsp://", ip, "/MediaInput/h264/stream_");
    s.append(numerals::dec_u64(stream as u64).as_str());
    s
}

pub const IDLE_NS: u64 = 90_000_000_000;

pub const STALE_NS: u64 = 60_000_000_000;

pub const FIRST_FRAME_NS: u64 = 20_000_000_000;

pub const FIRST_FRAME_GRACE_NS: u64 = 25_000_000_000;

/// Whether a stream that nobody has used for a while is ended.
pub fn is_idle(unused_ns: u64) -> (r: bool)
    ensures
        r == (unused_ns > IDLE_NS),
{
    unused_ns > IDLE_NS
}

/// Whether a running stream is started anew: where its process has ended, where its last image
/// is old, or where its first image does not come. `quiet_ns` is the time since the last image,
/// or since the start, if it can be told.
pub fn should_restart(process_dead: bool, has_frame: bool, quiet_ns: Option<u64>) -> (r: bool)
    ensures
        r == (process_dead || match quiet_ns {
            Some(q) => q > STALE_NS || (!has_frame && q > FIRST_FRAME_GRACE_NS),
            None => true,
        }),
{
    if process_dead {
        return true;
    }
    match quiet_ns {
        Some(q) => q > STALE_NS || (!has_frame && q > FIRST_FRAME_GRACE_NS),
        None => true,
    }
}

/// Whether the wait for a first image has taken too long.
pub fn first_frame_overdue(waited_ns: u64) -> (r: bool)
    ensures
        r == (waited_ns > FIRST_FRAME_NS),
{
    waited_ns > FIRST_FRAME_NS
}

// ---------------------------------------------------------------------------
// The MJPEG server
// ---------------------------------------------------------------------------

/// The name and the value of a pair in a query.
pub open spec fn query_pair(pair: Seq<char>) -> (Seq<char>, Seq<char>) {
    match text::found(pair, seq!['=']) {
        Some(i) => (pair.take(i), pair.skip(i + 1)),
        None => (pair, Seq::empty()),
    }
}

/// The value of the first pair from `i` on that has a name.
pub open spec fn query_value(pairs: Seq<Seq<char>>, key: Seq<char>, i: int) -> Option<Seq<char>>
    decreases pairs.len() - i,
{
    if i < 0 || i >= pairs.len() {
        None
    } else if query_pair(pairs[i]).0 == key {
        Some(query_pair(pairs[i]).1)
    } else {
        query_value(pairs, key, i + 1)
    }
}

/// The value of a parameter in the query of a path.
pub open spec fn query_param(path: Seq<char>, key: Seq<char>) -> Option<Seq<char>> {
    let parts = text::pieces(path, '?');
    if parts.len() < 2 {
        None
    } else {
        query_value(text::pieces(parts[1], '&'), key, 0)
    }
}

/// Reads a parameter in the query of a path.
pub fn parse_query_param(path: &str, key: &str) -> (r: Option<String>)
    ensures
        text::view_option(r) == query_param(path@, key@),
{
    let parts = text::split(path, '?');
    if parts.len() < 2 {
        return None;
    }
    proof {
        assert(text::texts(parts@)[1] == parts@[1]@);
    }
    let pairs = text::split(parts[1].as_str(), '&');
    let ghost all = text::texts(pairs@);
    let mut i: usize = 0;
    while i < pairs.len()
        invariant
            i <= pairs@.len(),
            all == text::texts(pairs@),
            query_param(path@, key@) == query_value(all, key@, i as int),
        decreases pairs@.len() - i,
    {
        proof {
            assert(all[i as int] == pairs@[i as int]@);
        }
        match projector_extras::split_at_equals(pairs[i].as_str()) {
            Some((k, v)) => {
                if text::same(k.as_str(), key) {
                    return Some(v);
                }
            },
            None => {
                if text::same(pairs[i].as_str(), key) {
                    return Some(String::new());
                }
            },
        }
        i += 1;
    }
    None
}

/// What a request to the server asks for.
#[derive(Debug, PartialEq)]
pub enum MjpegRequest {
    NotFound,
    MissingIp,
    /// The images of a stream of a camera.
    Stream(String, u8),
}

/// The mathematical value of an [`MjpegRequest`].
pub enum MjpegRequestV {
    NotFound,
    MissingIp,
    Stream(Seq<char>, u8),
}

impl View for MjpegRequest {
    type V = MjpegRequestV;

    open spec fn view(&self) -> MjpegRequestV {
        match self {
            MjpegRequest::NotFound => MjpegRequestV::NotFound,
            MjpegRequest::MissingIp => MjpegRequestV::MissingIp,
            MjpegRequest::Stream(ip, n) => MjpegRequestV::Stream(ip@, *n),
        }
    }
}

/// The path in the first line of a request.
pub open spec fn request_path(request: Seq<char>) -> Seq<char> {
    let words = text::words(text::first_line_of(request));
    if words.len() < 2 {
        "/"@
    } else {
        words[1]
    }
}

/// The stream that a path asks for.
pub open spec fn path_stream(path: Seq<char>) -> u8 {
    match query_param(path, "stream"@) {
        Some(s) => match numerals::parsed_unsigned(s, 255) {
            Some(n) => clamped_stream(n as u8),
            None => 1,
        },
        None => 1,
    }
}

/// What a request asks for.
pub open spec fn mjpeg_request(request: Seq<char>) -> MjpegRequestV {
    let path = request_path(request);
    if !text::begins(path, "/camera/mjpeg"@) {
        MjpegRequestV::NotFound
    } else {
        match query_param(path, "ip"@) {
            Some(ip) => if text::is_blank(ip) {
                MjpegRequestV::MissingIp
            } else {
                MjpegRequestV::Stream(text::trimmed(ip), path_stream(path))
            },
            None => MjpegRequestV::MissingIp,
        }
    }
}

/// Reads the text of a request.
pub fn read_mjpeg_request(request: &str) -> (r: MjpegRequest)
    ensures
        r@ == mjpeg_request(request@),
{
    let words = text::split_whitespace(text::first_line(request).as_str());
    let path = if words.len() < 2 {
        "/".to_owned()
    } else {
        proof {
            assert(text::texts(words@)[1] == words@[1]@);
        }
        words[1].clone()
    };
    if !text::starts_with(path.as_str(), "/camera/mjpeg") {
        return MjpegRequest::NotFound;
    }
    let ip = match parse_query_param(path.as_str(), "ip") {
        Some(ip) => text::trim(ip.as_str()),
        None => String::new(),
    };
    if ip.as_str().is_empty() {
        return MjpegRequest::MissingIp;
    }
    let stream: u8 = match parse_query_param(path.as_str(), "stream") {
        Some(s) => match numerals::parse_unsigned(s.as_str(), 255) {
            Some(n) => stream_number(Some(n as u8)),
            None => 1,
        },
        None => 1,
    };
    MjpegRequest::Stream(ip, stream)
}

/// Reads the bytes of a request.
pub fn mjpeg_request_of(bytes: &Vec<u8>) -> (r: MjpegRequest)
    ensures
        r@ == mjpeg_request(numerals::utf8_lossy(bytes@)),
{
    read_mjpeg_request(numerals::lossy_text(bytes).as_str())
}

/// A response that ends the connection with a message.
pub open spec fn plain_response(status: Seq<char>, body: Seq<char>) -> Seq<char> {
    "HTTP/1.1 "@ + status
        + "\r\nContent-Type: text/plain; charset=utf-8\r\nConnection: close\r\nContent-Length: "@
        + numerals::dec(encode_utf8(body).len()) + "\r\n\r\n"@ + body
}

fn plain_response_of(status: &str, body: &str) -> (r: String)
    ensures
        r@ == plain_response(status@, body@),
{
    let mut s = text::glue3(
        "HTTP/1.1 ",
        status,
        "\r\nContent-Type: text/plain; charset=utf-8\r\nConnection: close\r\nContent-Length: ",
    );
    s.append(numerals::dec_u64(numerals::byte_len(body) as u64).as_str());
    s.append("\r\n\r\n");
    s.append(body);
    s
}

/// The response to a request for something else.
pub fn not_found_response() -> (r: String)
    ensures
        r@ == "HTTP/1.1 404 Not Found\r\nConnection: close\r\n\r\n"@,
{
    "HTTP/1.1 404 Not Found\r\nConnection: close\r\n\r\n".to_owned()
}

/// The response to a request without the address of a camera.
pub fn missing_ip_response() -> (r: String)
    ensures
        r@ == "HTTP/1.1 400 Bad Request\r\nConnection: close\r\n\r\nMissing ip"@,
{
    "HTTP/1.1 400 Bad Request\r\nConnection: close\r\n\r\nMissing ip".to_owned()
}

/// The response where the stream cannot be started.
pub fn start_failed_response(error: &str) -> (r: String)
    ensures
        r@ == plain_response("503 Service Unavailable"@, "Stream start failed: "@ + error@),
{
    plain_response_of(
        "503 Service Unavailable",
        text::glue("Stream start failed: ", error).as_str(),
    )
}

/// The response where no image comes.
pub fn no_frames_response() -> (r: String)
    ensures
        r@ == plain_response("504 Gateway Timeout"@, "Stream timeout: no frames"@),
{
    plain_response_of("504 Gateway Timeout", "Stream timeout: no frames")
}

/// What precedes the images of a stream.
pub fn stream_headers() -> (r: String)
    ensures
        r@
            == "HTTP/1.1 200 OK\r\nContent-Type: multipart/x-mixed-replace; boundary=frame\r\nCache-Control: no-cache, no-store, must-revalidate\r\nPragma: no-cache\r\nConnection: close\r\n\r\n"@,
{
    "HTTP/1.1 200 OK\r\nContent-Type: multipart/x-mixed-replace; boundary=frame\r\nCache-Control: no-cache, no-store, must-revalidate\r\nPragma: no-cache\r\nConnection: close\r\n\r\n".to_owned()
}

/// What precedes an image.
pub open spec fn part_head(len: nat) -> Seq<char> {
    "--frame\r\nContent-Type: image/jpeg\r\nContent-Length: "@ + numerals::dec(len) + "\r\n\r\n"@
}

/// An image as a part of a stream.
pub fn frame_part(frame: &Vec<u8>) -> (r: Vec<u8>)
    ensures
        r@ == encode_utf8(part_head(frame@.len())) + frame@ + seq![13u8, 10],
{
    let head = text::glue3(
        "--frame\r\nContent-Type: image/jpeg\r\nContent-Length: ",
        numerals::dec_u64(frame.len() as u64).as_str(),
        "\r\n\r\n",
    );
    let mut out = numerals::bytes_of(head.as_str());
    numerals::extend_bytes(&mut out, frame);
    numerals::extend_bytes(&mut out, &vec![13, 10]);
    out
}

// ---------------------------------------------------------------------------
// Pan and tilt
// ---------------------------------------------------------------------------

/// The request for a command of a camera; a hash sign in front of it is encoded.
pub open spec fn ptz_request(ip: Seq<char>, command: Seq<char>) -> Seq<char> {
    let encoded = match text::after_prefix(command, "#"@) {
        Some(rest) => "%23"@ + rest,
        None => command,
    };
    "GET /cgi-bin/aw_ptz?cmd="@ + encoded + "&res=1 HTTP/1.1\r\nHost: "@ + ip
        + "\r\nConnection: close\r\n\r\n"@
}

pub fn camera_ptz_request(ip: &str, command: &str) -> (r: String)
    ensures
        r@ == ptz_request(ip@, command@),
{
    let encoded = match text::strip_prefix(command, "#") {
        Some(rest) => text::glue("%23", rest.as_str()),
        None => command.to_owned(),
    };
    let mut s = text::glue3(
        "GET /cgi-bin/aw_ptz?cmd=",
        encoded.as_str(),
        "&res=1 HTTP/1.1\r\nHost: ",
    );
    s.append(ip);
    s.append("\r\nConnection: close\r\n\r\n");
    s
}

/// The part of a response between its first two empty lines, trimmed.
pub open spec fn ptz_body(response: Seq<char>) -> Seq<char> {
    match text::after_first(response, "\r\n\r\n"@) {
        Some(rest) => text::trimmed(text::before_first(rest, "\r\n\r\n"@)),
        None => Seq::empty(),
    }
}

/// What a camera answers to a command: the first line of the body, or that all is well.
pub open spec fn ptz_outcome(response: Seq<char>) -> Result<Seq<char>, Seq<char>> {
    if !text::has(response, "200 OK"@) {
        Err("Camera command failed (no HTTP 200 response)"@)
    } else if ptz_body(response).len() == 0 {
        Ok("OK"@)
    } else {
        Ok(text::first_line_of(ptz_body(response)))
    }
}

/// Reads the text of an answer of a camera.
pub fn read_ptz_response(response: &str) -> (r: Result<String, String>)
    ensures
        projector_extras::view_text_result(r) == ptz_outcome(response@),
{
    if !text::contains(response, "200 OK") {
        return Err("Camera command failed (no HTTP 200 response)".to_owned());
    }
    let body = match text::tail_after(response, "\r\n\r\n") {
        Some(rest) => text::trim(text::head_before(rest.as_str(), "\r\n\r\n").as_str()),
        None => String::new(),
    };
    if body.as_str().is_empty() {
        Ok("OK".to_owned())
    } else {
        Ok(text::first_line(body.as_str()))
    }
}

/// Reads the bytes of an answer of a camera.
pub fn camera_ptz_response(bytes: &Vec<u8>) -> (r: Result<String, String>)
    ensures
        projector_extras::view_text_result(r) == ptz_outcome(numerals::utf8_lossy(bytes@)),
{
    read_ptz_response(numerals::lossy_text(bytes).as_str())
}

// ---------------------------------------------------------------------------
// The decoder
// ---------------------------------------------------------------------------

/// The arguments with which the decoder turns a stream into images.
pub open spec fn stream_args(url: Seq<char>) -> Seq<Seq<char>> {
    seq![
        "-loglevel"@,
        "error"@,
        "-rtsp_transport"@,
        "tcp"@,
        "-i"@,
        url,
        "-vf"@,
        "scale=trunc(iw*sar):ih,setsar=1,fps=20"@,
        "-f"@,
        "image2pipe"@,
        "-vcodec"@,
        "mjpeg"@,
        "-q:v"@,
        "8"@,
        "-"@,
    ]
}

pub fn ffmpeg_stream_args(url: &str) -> (r: Vec<String>)
    ensures
        text::texts(r@) == stream_args(url@),
{
    let mut v: Vec<String> = Vec::new();
    ups::note(&mut v, "-loglevel".to_owned());
    ups::note(&mut v, "error".to_owned());
    ups::note(&mut v, "-rtsp_transport".to_owned());
    ups::note(&mut v, "tcp".to_owned());
    ups::note(&mut v, "-i".to_owned());
    ups::note(&mut v, url.to_owned());
    ups::note(&mut v, "-vf".to_owned());
    ups::note(&mut v, "scale=trunc(iw*sar):ih,setsar=1,fps=20".to_owned());
    ups::note(&mut v, "-f".to_owned());
    ups::note(&mut v, "image2pipe".to_owned());
    ups::note(&mut v, "-vcodec".to_owned());
    ups::note(&mut v, "mjpeg".to_owned());
    ups::note(&mut v, "-q:v".to_owned());
    ups::note(&mut v, "8".to_owned());
    ups::note(&mut v, "-".to_owned());
    proof {
        assert(text::texts(v@) =~= stream_args(url@));
    }
    v
}

/// The arguments with which the decoder writes one image to a file.
pub open spec fn snapshot_args(url: Seq<char>, file: Seq<char>) -> Seq<Seq<char>> {
    seq![
        "-y"@,
        "-loglevel"@,
        "error"@,
        "-rtsp_transport"@,
        "tcp"@,
        "-i"@,
        url,
        "-vf"@,
        "scale=trunc(iw*sar):ih,setsar=1"@,
        "-frames:v"@,
        "1"@,
        "-q:v"@,
        "5"@,
        file,
    ]
}

pub fn ffmpeg_snapshot_args(url: &str, file: &str) -> (r: Vec<String>)
    ensures
        text::texts(r@) == snapshot_args(url@, file@),
{
    let mut v: Vec<String> = Vec::new();
    ups::note(&mut v, "-y".to_owned());
    ups::note(&mut v, "-loglevel".to_owned());
    ups::note(&mut v, "error".to_owned());
    ups::note(&mut v, "-rtsp_transport".to_owned());
    ups::note(&mut v, "tcp".to_owned());
    ups::note(&mut v, "-i".to_owned());
    ups::note(&mut v, url.to_owned());
    ups::note(&mut v, "-vf".to_owned());
    ups::note(&mut v, "scale=trunc(iw*sar):ih,setsar=1".to_owned());
    ups::note(&mut v, "-frames:v".to_owned());
    ups::note(&mut v, "1".to_owned());
    ups::note(&mut v, "-q:v".to_owned());
    ups::note(&mut v, "5".to_owned());
    ups::note(&mut v, file.to_owned());
    proof {
        assert(text::texts(v@) =~= snapshot_args(url@, file@));
    }
    v
}

/// The name of the file that a single image is written to.
pub fn snapshot_name(ip: &str, now_ms: u64) -> (r: String)
    ensures
        r@ == "projektil-cam-"@ + text::replaced(ip@, '.', "_"@) + "-"@ + numerals::dec(
            now_ms as nat,
        ) + ".jpg"@,
{
    let mut s = text::glue3("projektil-cam-", text::replace(ip, '.', "_").as_str(), "-");
    s.append(numerals::dec_u64(now_ms).as_str());
    s.append(".jpg");
    s
}

/// What is reported of a program that failed: `what`, with what it said where it said
/// something.
pub open spec fn failure(what: Seq<char>, said: Seq<char>) -> Seq<char> {
    if text::is_blank(said) {
        what
    } else {
        what + ": "@ + text::trimmed(said)
    }
}

pub fn program_failure(what: &str, said: &str) -> (r: String)
    ensures
        r@ == failure(what@, said@),
{
    let t = text::trim(said);
    if t.as_str().is_empty() {
        what.to_owned()
    } else {
        text::glue3(what, ": ", t.as_str())
    }
}

/// What is reported of a program that failed, given the bytes that it wrote.
pub fn program_failure_of(what: &str, said: &Vec<u8>) -> (r: String)
    ensures
        r@ == failure(what@, numerals::utf8_lossy(said@)),
{
    program_failure(what, numerals::lossy_text(said).as_str())
}

/// The places in a directory where the decoder may stand.
pub open spec fn decoder_names() -> Seq<Seq<char>> {
    seq![
        "ffmpeg.exe"@,
        "ffmpeg"@,
        "ffmpeg-x86_64-pc-windows-msvc.exe"@,
        "ffmpeg-x86_64-pc-windows-gnu.exe"@,
        "bin/ffmpeg.exe"@,
        "ffmpeg/bin/ffmpeg.exe"@,
    ]
}

pub fn ffmpeg_names() -> (r: Vec<String>)
    ensures
        text::texts(r@) == decoder_names(),
{
    let mut v: Vec<String> = Vec::new();
    ups::note(&mut v, "ffmpeg.exe".to_owned());
    ups::note(&mut v, "ffmpeg".to_owned());
    ups::note(&mut v, "ffmpeg-x86_64-pc-windows-msvc.exe".to_owned());
    ups::note(&mut v, "ffmpeg-x86_64-pc-windows-gnu.exe".to_owned());
    ups::note(&mut v, "bin/ffmpeg.exe".to_owned());
    ups::note(&mut v, "ffmpeg/bin/ffmpeg.exe".to_owned());
    proof {
        assert(text::texts(v@) =~= decoder_names());
    }
    v
}

/// Whether a directory stands in a search path, in any letter case.
pub open spec fn on_path(path: Seq<char>, dir: Seq<char>) -> bool {
    exists|i: int|
        0 <= i < text::pieces(path, ';').len() && text::alike(
            #[trigger] text::pieces(path, ';')[i],
            dir,
        )
}

/// The search path with a directory in front, where it is not there yet.
pub fn extended_path(path: &str, dir: &str) -> (r: Option<String>)
    ensures
        text::view_option(r) == if on_path(path@, dir@) {
            None
        } else if path@.len() == 0 {
            Some(dir@)
        } else {
            Some(dir@ + ";"@ + path@)
        },
{
    let parts = text::split(path, ';');
    let ghost all = text::pieces(path@, ';');
    let mut i: usize = 0;
    while i < parts.len()
        invariant
            i <= parts@.len(),
            all == text::texts(parts@),
            all == text::pieces(path@, ';'),
            forall|j: int| 0 <= j < i ==> !text::alike(#[trigger] all[j], dir@),
        decreases parts@.len() - i,
    {
        if text::eq_ignore_ascii_case(parts[i].as_str(), dir) {
            proof {
                assert(text::alike(all[i as int], dir@));
            }
            return None;
        }
        i += 1;
    }
    if path.is_empty() {
        Some(dir.to_owned())
    } else {
        Some(text::glue3(dir, ";", path))
    }
}

/// A path as it stands in a script.
pub open spec fn script_path(path: Seq<char>) -> Seq<char> {
    text::replaced(path, '\\', "\\\\"@)
}

/// The script that downloads the decoder.
pub fn download_script(zip_path: &str) -> (r: String)
    ensures
        r@
            == "$ProgressPreference='SilentlyContinue'; Invoke-WebRequest -Uri 'https://www.gyan.dev/ffmpeg/builds/ffmpeg-release-essentials.zip' -OutFile '"@
            + script_path(zip_path@) + "'"@,
{
    text::glue3(
        "$ProgressPreference='SilentlyContinue'; Invoke-WebRequest -Uri 'https://www.gyan.dev/ffmpeg/builds/ffmpeg-release-essentials.zip' -OutFile '",
        text::replace(zip_path, '\\', "\\\\").as_str(),
        "'",
    )
}

/// The script that unpacks the decoder.
pub fn extract_script(zip_path: &str, target: &str) -> (r: String)
    ensures
        r@ == "$ProgressPreference='SilentlyContinue'; Expand-Archive -Path '"@ + script_path(
            zip_path@,
        ) + "' -DestinationPath '"@ + script_path(target@) + "' -Force"@,
{
    let mut s = text::glue3(
        "$ProgressPreference='SilentlyContinue'; Expand-Archive -Path '",
        text::replace(zip_path, '\\', "\\\\").as_str(),
        "' -DestinationPath '",
    );
    s.append(text::replace(target, '\\', "\\\\").as_str());
    s.append("' -Force");
    s
}

// ---------------------------------------------------------------------------
// What streams and requests are
// ---------------------------------------------------------------------------

/// A marker is found where its two bytes stand next to each other for the first time.
pub proof fn markers_are_found_first(data: &[u8], a: u8, b: u8, i: int, r: Option<usize>)
    requires
        call_ensures(find_jpeg_marker, (data, a, b), r),
    ensures
        r matches Some(k) ==> k + 1 < data@.len() && data@[k as int] == a && data@[k + 1] == b,
        0 <= i && i + 1 < data@.len() && data@[i] == a && data@[i + 1] == b ==> r is Some
            && r->0 <= i,
{
    marker_is_first(data@, a, b, 0);
    if 0 <= i && i + 1 < data@.len() && data@[i] == a && data@[i + 1] == b {
        assert(marker_at(data@, a, b, i));
    }
}

/// One image, fed at once to an empty buffer, comes out as it is, and nothing is kept.
#[verifier::spinoff_prover]
#[verifier::rlimit(40)]
pub proof fn whole_images_come_out(buffer: &mut FrameBuffer, image: &Vec<u8>, r: Option<Vec<u8>>)
    requires
        old(buffer).bytes@.len() == 0,
        image@.len() >= 4,
        image@[0] == 0xff && image@[1] == 0xd8,
        image@[image@.len() - 2] == 0xff && image@[image@.len() - 1] == 0xd9,
        forall|i: int, j: int|
            2 <= i < image@.len() - 2 && j == i + 1 ==> !(#[trigger] image@[i] == 0xff
                && #[trigger] image@[j] == 0xd9),
        call_ensures(FrameBuffer::feed, (buffer, image), r),
    ensures
        r is Some,
        (r->0)@ == image@,
        final(buffer).bytes@.len() == 0,
{
    let d = old(buffer).bytes@ + image@;
    assert(d =~= image@);
    let n = d.len() as int;
    assert(marker_at(d, 0xff, 0xd8, 0));
    marker_is_there(d, 0xff, 0xd8, 0, 0);
    assert(d.skip(0) =~= d);
    assert(marker_at(d, 0xff, 0xd9, n - 2));
    assert forall|j: int| 2 <= j < n - 2 implies !marker_at(d, 0xff, 0xd9, j) by {
        assert(!(image@[j] == 0xff && image@[j + 1] == 0xd9));
    }
    marker_is_there(d, 0xff, 0xd9, 2, n - 2);
    assert(d.take(n) =~= d);
    let rest = d.skip(n);
    assert(rest =~= Seq::<u8>::empty());
    assert(split_frames(rest) == (Seq::<Seq<u8>>::empty(), rest)) by {
        assert(image_start(rest) is None);
    }
    assert(split_frames(d).0 =~= seq![d]);
}

/// Bytes without the start of an image give none, and at most one of them is kept.
pub proof fn noise_gives_no_image(buffer: &mut FrameBuffer, chunk: &Vec<u8>, r: Option<Vec<u8>>)
    requires
        old(buffer).bytes@.len() == 0,
        forall|i: int, j: int|
            0 <= i && j == i + 1 && j < chunk@.len() ==> !(#[trigger] chunk@[i] == 0xff
                && #[trigger] chunk@[j] == 0xd8),
        call_ensures(FrameBuffer::feed, (buffer, chunk), r),
    ensures
        r is None,
        final(buffer).bytes@.len() <= 1,
{
    let d = old(buffer).bytes@ + chunk@;
    assert(d =~= chunk@);
    assert forall|j: int| 0 <= j implies !marker_at(d, 0xff, 0xd8, j) by {
        if j + 1 < d.len() {
            assert(!(chunk@[j] == 0xff && chunk@[j + 1] == 0xd8));
        }
    }
    marker_is_absent(d, 0xff, 0xd8, 0);
}

/// Streams 1 to 4 are what they are asked for; others become the nearest of them.
pub proof fn streams_are_one_to_four(stream: Option<u8>, r: u8)
    requires
        call_ensures(stream_number, (stream,), r),
    ensures
        1 <= r <= 4,
        stream is None ==> r == 1,
        stream matches Some(n) ==> (1 <= n <= 4 ==> r == n) && (n == 0 ==> r == 1) && (n > 4
            ==> r == 4),
{
}

/// A stream that was not used for more than a minute and a half is idle; one is started anew
/// when its process ended, after a minute without an image, and after twenty-five seconds
/// without a first one; a first one is waited for for twenty seconds.
pub proof fn streams_have_their_time(
    unused_ns: u64,
    idle: bool,
    dead: bool,
    has_frame: bool,
    quiet_ns: u64,
    restart: bool,
    overdue: bool,
)
    requires
        call_ensures(is_idle, (unused_ns,), idle),
        call_ensures(should_restart, (dead, has_frame, Some(quiet_ns)), restart),
        call_ensures(first_frame_overdue, (quiet_ns,), overdue),
    ensures
        idle <==> unused_ns > 90 * 1_000_000_000,
        dead ==> restart,
        quiet_ns > 60 * 1_000_000_000 ==> restart,
        !dead && has_frame && quiet_ns <= 60 * 1_000_000_000 ==> !restart,
        !has_frame && quiet_ns > 25 * 1_000_000_000 ==> restart,
        !dead && !has_frame && quiet_ns <= 25 * 1_000_000_000 ==> !restart,
        overdue <==> quiet_ns > 20 * 1_000_000_000,
{
}

/// Streams have different keys and addresses for different cameras and numbers.
pub proof fn streams_are_told_apart(
    ip: &str,
    a: u8,
    b: u8,
    one: String,
    other: String,
    first: String,
    second: String,
)
    requires
        a != b,
        call_ensures(stream_key, (ip, a), one),
        call_ensures(stream_key, (ip, b), other),
        call_ensures(rtsp_url, (ip, a), first),
        call_ensures(rtsp_url, (ip, b), second),
    ensures
        one@ != other@,
        first@ != second@,
        text::begins(first@, "rtsp://"@ + ip@),
        text::ends(first@, numerals::dec(a as nat)),
{
    numerals::decimals_are_told_apart(a as int, b as int);
    let x = numerals::dec(a as nat);
    let y = numerals::dec(b as nat);
    let k = (ip@ + "|"@).len() as int;
    assert(one@.skip(k) =~= x);
    assert(other@.skip(k) =~= y);
    let lead = "rtsp://"@ + ip@ + "/MediaInput/h264/stream_"@;
    assert(first@.skip(lead.len() as int) =~= x);
    assert(second@.skip(lead.len() as int) =~= y);
    let head = "rtsp://"@ + ip@;
    assert(first@.take(head.len() as int) =~= head);
}

/// A parameter of a query is read, the first one of its name.
pub proof fn parameters_are_read(
    base: Seq<char>,
    k: Seq<char>,
    v: Seq<char>,
    path: &str,
    key: &str,
    r: Option<String>,
)
    requires
        !base.contains('?'),
        !k.contains('=') && !k.contains('&') && !k.contains('?'),
        !v.contains('&') && !v.contains('?'),
        path@ == base.push('?') + (k.push('=') + v),
        call_ensures(parse_query_param, (path, key), r),
    ensures
        key@ == k ==> r is Some && (r->0)@ == v,
        key@ != k ==> r is None,
{
    let pair = k.push('=') + v;
    assert(!pair.contains('?')) by {
        if pair.contains('?') {
            let i = choose|i: int| 0 <= i < pair.len() && pair[i] == '?';
            if i < k.len() {
                assert(k[i] == '?');
            } else if i > k.len() {
                assert(v[i - k.len() - 1] == '?');
            }
        }
    }
    assert(!pair.contains('&')) by {
        if pair.contains('&') {
            let i = choose|i: int| 0 <= i < pair.len() && pair[i] == '&';
            if i < k.len() {
                assert(k[i] == '&');
            } else if i > k.len() {
                assert(v[i - k.len() - 1] == '&');
            }
        }
    }
    text::splitting_cuts_at_separators(base, '?', pair);
    text::splitting_cuts_at_separators(pair, '?', Seq::empty());
    text::splitting_cuts_at_separators(pair, '&', Seq::empty());
    assert(text::pieces(path@, '?') =~= seq![base, pair]);
    let eq = seq!['='];
    let n = k.len() as int;
    assert(pair.subrange(n, n + 1) =~= eq);
    assert(text::matches_at(pair, eq, n));
    text::found_is_first(pair, eq, 0);
    let i = text::found(pair, eq)->0;
    if i < n {
        assert(pair.subrange(i, i + 1)[0] == pair[i]);
        assert(k[i] == '=');
    }
    assert(pair.take(n) =~= k);
    assert(pair.skip(n + 1) =~= v);
    assert(text::pieces(pair, '&')[0] == pair);
    reveal_with_fuel(query_value, 3);
}

/// A path without a query has no parameters.
pub proof fn no_query_no_parameters(path: &str, key: &str, r: Option<String>)
    requires
        !path@.contains('?'),
        call_ensures(parse_query_param, (path, key), r),
    ensures
        r is None,
{
    text::splitting_cuts_at_separators(path@, '?', Seq::empty());
}

/// An image is sent behind its length, between an empty line and an end of line.
pub proof fn images_are_sent_whole(frame: &Vec<u8>, r: Vec<u8>)
    requires
        call_ensures(frame_part, (frame,), r),
    ensures
        r@.len() > frame@.len() + 2,
        r@.subrange(r@.len() - 2 - frame@.len(), r@.len() - 2) == frame@,
        r@[r@.len() - 2] == 13 && r@[r@.len() - 1] == 10,
        exists|head: Seq<char>| #[trigger]
            text::ends(head, numerals::dec(frame@.len()) + "\r\n\r\n"@) && r@.take(
                r@.len() - 2 - frame@.len(),
            ) == encode_utf8(head),
{
    let head = part_head(frame@.len());
    let tail = numerals::dec(frame@.len()) + "\r\n\r\n"@;
    let h = encode_utf8(head);
    assert(r@.subrange(r@.len() - 2 - frame@.len(), r@.len() - 2) =~= frame@);
    assert(r@.take(r@.len() - 2 - frame@.len()) =~= h);
    assert(head.skip(head.len() - tail.len()) =~= tail);
    assert(text::ends(head, tail));
    numerals::decimal_denotes(frame@.len());
    encode_utf8_decode_utf8(head);
    if h.len() == 0 {
        assert(h =~= Seq::<u8>::empty());
        assert(decode_utf8(h) == head);
        assert(head.len() > 0);
    }
}

/// A command of a camera stands in the request, with its hash sign encoded, and goes to its
/// address.
pub proof fn camera_commands_are_sent(ip: &str, rest: Seq<char>, command: &str, r: String)
    requires
        call_ensures(camera_ptz_request, (ip, command), r),
    ensures
        command@ == seq!['#'] + rest ==> text::begins(
            r@,
            "GET /cgi-bin/aw_ptz?cmd=%23"@ + rest + "&res=1 HTTP/1.1\r\nHost: "@ + ip@,
        ),
        command@ == rest && (rest.len() == 0 || rest[0] != '#') ==> text::begins(
            r@,
            "GET /cgi-bin/aw_ptz?cmd="@ + rest + "&res=1 HTTP/1.1\r\nHost: "@ + ip@,
        ),
{
    reveal_strlit("#");
    reveal_strlit("%23");
    reveal_strlit("GET /cgi-bin/aw_ptz?cmd=");
    reveal_strlit("GET /cgi-bin/aw_ptz?cmd=%23");
    assert("#"@ =~= seq!['#']);
    assert("GET /cgi-bin/aw_ptz?cmd="@ + "%23"@ =~= "GET /cgi-bin/aw_ptz?cmd=%23"@);
    if command@ == seq!['#'] + rest {
        assert(command@.take(1) =~= "#"@);
        assert(command@.skip(1) =~= rest);
        let start = "GET /cgi-bin/aw_ptz?cmd=%23"@ + rest + "&res=1 HTTP/1.1\r\nHost: "@ + ip@;
        assert(r@.take(start.len() as int) =~= start);
    }
    if command@ == rest && (rest.len() == 0 || rest[0] != '#') {
        if text::begins(rest, "#"@) {
            assert(rest.take(1)[0] == rest[0]);
        }
        let start = "GET /cgi-bin/aw_ptz?cmd="@ + rest + "&res=1 HTTP/1.1\r\nHost: "@ + ip@;
        assert(r@.take(start.len() as int) =~= start);
    }
}

/// An answer that is not well is an error; one that is well without a body is `OK`, and one with
/// a line in its body is that line.
pub proof fn camera_answers_must_be_well(
    response: &str,
    head: Seq<char>,
    line: Seq<char>,
    r: Result<String, String>,
)
    requires
        call_ensures(read_ptz_response, (response,), r),
    ensures
        r is Ok <==> text::has(response@, "200 OK"@),
        r is Ok && !text::has(response@, "\r\n\r\n"@) ==> (r->Ok_0)@ == "OK"@,
        r is Ok && response@ == head + "\r\n\r\n"@ + line && line.len() > 0
            && text::is_trimmed(line)
            && !line.contains('\n') && (forall|j: int|
            0 <= j < head.len() ==> !text::matches_at(response@, "\r\n\r\n"@, j))
                ==> (r->Ok_0)@ == line,
{
    let gap = "\r\n\r\n"@;
    reveal_strlit("\r\n\r\n");
    text::found_is_first(response@, gap, 0);
    if response@ == head + gap + line && line.len() > 0 && text::is_trimmed(line)
        && !line.contains('\n')
        && (forall|j: int| 0 <= j < head.len() ==> !text::matches_at(response@, gap, j)) {
        let n = head.len() as int;
        assert(response@.subrange(n, n + 4) =~= gap);
        assert(text::matches_at(response@, gap, n));
        assert(text::found(response@, gap) == Some(n));
        assert(response@.skip(n + 4) =~= line);
        text::found_is_first(line, gap, 0);
        if text::found(line, gap) is Some {
            let i = text::found(line, gap)->0;
            assert(line.subrange(i, i + 4)[1] == line[i + 1]);
            assert(line[i + 1] == '\n');
        }
        let e = Seq::<char>::empty();
        text::trimming_takes_off_white_space(e, line, e);
        assert(e + line + e =~= line);
        text::found_is_first(line, seq!['\n'], 0);
        if text::found(line, seq!['\n']) is Some {
            let i = text::found(line, seq!['\n'])->0;
            assert(line.subrange(i, i + 1)[0] == line[i]);
            assert(line[i] == '\n');
        }
    }
}

/// The decoder reads the address that it is given, over TCP, and writes images to its output, or
/// one image to the file.
pub proof fn decoders_read_the_address(
    url: &str,
    file: &str,
    stream: Vec<String>,
    shot: Vec<String>,
)
    requires
        call_ensures(ffmpeg_stream_args, (url,), stream),
        call_ensures(ffmpeg_snapshot_args, (url, file), shot),
    ensures
        exists|i: int|
            0 <= i < stream@.len() - 1 && (#[trigger] stream@[i])@ == "-i"@
                && stream@[i + 1]@ == url@,
        exists|i: int|
            0 <= i < shot@.len() - 1 && (#[trigger] shot@[i])@ == "-i"@ && shot@[i + 1]@ == url@,
        stream@.last()@ == "-"@,
        shot@.last()@ == file@,
        exists|i: int|
            0 <= i < shot@.len() - 1 && (#[trigger] shot@[i])@ == "-frames:v"@
                && shot@[i + 1]@ == "1"@,
{
    let a = text::texts(stream@);
    let b = text::texts(shot@);
    assert(a.len() == 15 && b.len() == 14);
    assert(a[4] == stream@[4]@ && a[5] == stream@[5]@ && a[14] == stream@[14]@);
    assert(b[5] == shot@[5]@ && b[6] == shot@[6]@ && b[9] == shot@[9]@ && b[10] == shot@[10]@
        && b[13]
        == shot@[13]@);
}

/// A directory is put in front of the search path once.
pub proof fn directories_are_added_once(
    path: &str,
    dir: &str,
    r: Option<String>,
    again: &str,
    second: Option<String>,
)
    requires
        !dir@.contains(';'),
        call_ensures(extended_path, (path, dir), r),
        r is Some,
        again@ == (r->0)@,
        call_ensures(extended_path, (again, dir), second),
    ensures
        second is None,
        text::begins((r->0)@, dir@),
        path@.len() > 0 ==> text::ends((r->0)@, path@),
{
    reveal_strlit(";");
    let e = (r->0)@;
    text::splitting_cuts_at_separators(dir@, ';', path@);
    if path@.len() > 0 {
        assert(e =~= dir@.push(';') + path@);
        assert(e.skip(e.len() - path@.len()) =~= path@);
    }
    assert(e.take(dir@.len() as int) =~= dir@);
    assert(text::pieces(e, ';')[0] == dir@);
    assert(text::alike(text::pieces(e, ';')[0], dir@));
}

/// A request for a stream names the camera, and the stream where it is not the first.
pub proof fn stream_requests_name_the_camera(request: &str, r: MjpegRequest)
    requires
        call_ensures(read_mjpeg_request, (request,), r),
    ensures
        r is Stream ==> 1 <= r->Stream_1 <= 4 && (r->Stream_0)@.len() > 0,
{
}

/// An image is sent as a data address, and the failure of a program with what it said.
pub proof fn failures_say_what_happened(
    encoded: &str,
    url: String,
    what: &str,
    said: &str,
    r: String,
)
    requires
        call_ensures(image_url, (encoded,), url),
        call_ensures(program_failure, (what, said), r),
    ensures
        text::ends(url@, encoded@) && text::begins(url@, "data:image/jpeg;base64,"@),
        text::is_blank(said@) ==> r@ == what@,
        !text::is_blank(said@) ==> r@ == what@ + ": "@ + text::trimmed(said@),
{
    assert(url@.skip(url@.len() - encoded@.len()) =~= encoded@);
    let lead = "data:image/jpeg;base64,"@;
    assert(url@.take(lead.len() as int) =~= lead);
}

/// A request goes by the path in its first line: it must be that of the streams and name a
/// camera; the stream is the first where none, or no number, is named.
pub proof fn stream_requests_go_by_their_path(
    request: &str,
    path: &str,
    ip: Option<String>,
    stream: Option<String>,
    n: u8,
    r: MjpegRequest,
)
    requires
        text::words(text::first_line_of(request@)).len() >= 2,
        path@ == text::words(text::first_line_of(request@))[1],
        call_ensures(parse_query_param, (path, "ip"), ip),
        call_ensures(parse_query_param, (path, "stream"), stream),
        call_ensures(read_mjpeg_request, (request,), r),
    ensures
        !text::begins(path@, "/camera/mjpeg"@) ==> r is NotFound,
        text::begins(path@, "/camera/mjpeg"@) && (ip is None || text::is_blank((ip->0)@))
            ==> r is MissingIp,
        text::begins(path@, "/camera/mjpeg"@) && ip is Some && !text::is_blank((ip->0)@)
            ==> r is Stream
            && (r->Stream_0)@ == text::trimmed((ip->0)@),
        r is Stream && stream is None ==> r->Stream_1 == 1,
        r is Stream && stream is Some && 1 <= n <= 4 && (stream->0)@ == numerals::dec(n as nat)
            ==> r->Stream_1 == n,
{
    numerals::decimal_reads_back(n as nat, 255);
}

/// Refused requests say so in their status.
pub proof fn refusals_have_their_status(
    error: &str,
    a: String,
    b: String,
    c: String,
    d: String,
    e: String,
)
    requires
        call_ensures(not_found_response, (), a),
        call_ensures(missing_ip_response, (), b),
        call_ensures(start_failed_response, (error,), c),
        call_ensures(no_frames_response, (), d),
        call_ensures(stream_headers, (), e),
    ensures
        text::begins(a@, "HTTP/1.1 404 "@),
        text::begins(b@, "HTTP/1.1 400 "@),
        text::begins(c@, "HTTP/1.1 503 "@) && text::ends(c@, error@),
        text::begins(d@, "HTTP/1.1 504 "@),
        text::begins(e@, "HTTP/1.1 200 "@),
{
    reveal_strlit("HTTP/1.1 404 ");
    reveal_strlit("HTTP/1.1 400 ");
    reveal_strlit("HTTP/1.1 503 ");
    reveal_strlit("HTTP/1.1 504 ");
    reveal_strlit("HTTP/1.1 200 ");
    reveal_strlit("HTTP/1.1 404 Not Found\r\nConnection: close\r\n\r\n");
    reveal_strlit("HTTP/1.1 400 Bad Request\r\nConnection: close\r\n\r\nMissing ip");
    reveal_strlit("503 Service Unavailable");
    reveal_strlit("504 Gateway Timeout");
    reveal_strlit("HTTP/1.1 ");
    reveal_strlit(
        "HTTP/1.1 200 OK\r\nContent-Type: multipart/x-mixed-replace; boundary=frame\r\nCache-Control: no-cache, no-store, must-revalidate\r\nPragma: no-cache\r\nConnection: close\r\n\r\n",
    );
    assert(a@.take(13) =~= "HTTP/1.1 404 "@);
    assert(b@.take(13) =~= "HTTP/1.1 400 "@);
    assert(c@.take(13) =~= "HTTP/1.1 503 "@);
    assert(d@.take(13) =~= "HTTP/1.1 504 "@);
    assert(e@.take(13) =~= "HTTP/1.1 200 "@);
    assert(c@.skip(c@.len() - error@.len()) =~= error@);
}

} // verus!

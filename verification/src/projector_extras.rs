//! Test pattern and source selection of the projectors.
//!
//! A show uses projectors of one brand; the brand picks the implementation once. Panasonic
//! projectors take commands over TCP behind a greeting, Epson projectors over HTTP with digest
//! authentication.

use vstd::prelude::*;
use vstd::string::*;
use vstd::utf8::*;

use crate::digest;
use crate::numerals;
use crate::strmap;
use crate::strmap::StrMap;
use crate::text;

verus! {

/// How a projector is reached.
#[derive(Debug, PartialEq)]
pub enum Transport {
    /// Commands over TCP behind a greeting.
    Panasonic,
    /// Commands over HTTP, with the Web Control password where one is set.
    Epson(Option<String>),
}

/// The mathematical value of a [`Transport`].
pub enum TransportV {
    Panasonic,
    Epson(Option<Seq<char>>),
}

impl View for Transport {
    type V = TransportV;

    open spec fn view(&self) -> TransportV {
        match self {
            Transport::Panasonic => TransportV::Panasonic,
            Transport::Epson(p) => TransportV::Epson(text::view_option(*p)),
        }
    }
}

/// What a projector brand is sent for each action, and how its answer reads.
pub trait ProjectorExtras {
    spec fn reached_by(&self) -> TransportV;

    spec fn pattern_command(&self, on: bool) -> Seq<char>;

    spec fn pattern_query(&self) -> Seq<char>;

    spec fn pattern_shown(&self, response: Seq<char>) -> bool;

    spec fn hdmi1_command(&self) -> Seq<char>;

    /// How the projector is reached.
    fn transport(&self) -> (r: Transport)
        ensures
            r@ == self.reached_by(),
    ;

    /// The command that switches the test pattern on or off.
    fn set_test_pattern(&self, on: bool) -> (cmd: String)
        ensures
            cmd@ == self.pattern_command(on),
    ;

    /// The command that asks whether the test pattern is on.
    fn get_test_pattern(&self) -> (cmd: String)
        ensures
            cmd@ == self.pattern_query(),
    ;

    /// Whether the answer to [`ProjectorExtras::get_test_pattern`] says that it is on.
    fn test_pattern_shown(&self, response: &str) -> (r: bool)
        ensures
            r == self.pattern_shown(response@),
    ;

    /// The command that selects the first HDMI input.
    fn switch_to_hdmi1(&self) -> (cmd: String)
        ensures
            cmd@ == self.hdmi1_command(),
    ;
}

pub struct PanasonicExtras;

impl ProjectorExtras for PanasonicExtras {
    open spec fn reached_by(&self) -> TransportV {
        TransportV::Panasonic
    }

    open spec fn pattern_command(&self, on: bool) -> Seq<char> {
        if on {
            "OTS:01"@
        } else {
            "OTS:00"@
        }
    }

    open spec fn pattern_query(&self) -> Seq<char> {
        "QTS"@
    }

    open spec fn pattern_shown(&self, response: Seq<char>) -> bool {
        text::has(response, "01"@)
    }

    open spec fn hdmi1_command(&self) -> Seq<char> {
        "IIS:HD1"@
    }

    fn transport(&self) -> (r: Transport) {
        Transport::Panasonic
    }

    fn set_test_pattern(&self, on: bool) -> (cmd: String) {
        if on {
            "OTS:01".to_owned()
        } else {
            "OTS:00".to_owned()
        }
    }

    fn get_test_pattern(&self) -> (cmd: String) {
        "QTS".to_owned()
    }

    fn test_pattern_shown(&self, response: &str) -> (r: bool) {
        text::contains(response, "01")
    }

    fn switch_to_hdmi1(&self) -> (cmd: String) {
        "IIS:HD1".to_owned()
    }
}

pub struct EpsonExtras {
    /// The Web Control password, where one is set.
    pub password: Option<String>,
}

impl ProjectorExtras for EpsonExtras {
    open spec fn reached_by(&self) -> TransportV {
        TransportV::Epson(text::view_option(self.password))
    }

    open spec fn pattern_command(&self, on: bool) -> Seq<char> {
        if on {
            "TESTPATTERN+01+06"@
        } else {
            "TESTPATTERN+00"@
        }
    }

    open spec fn pattern_query(&self) -> Seq<char> {
        "TESTPATTERN?"@
    }

    open spec fn pattern_shown(&self, response: Seq<char>) -> bool {
        text::has(text::unicode_uppercase(response), "=01"@)
    }

    open spec fn hdmi1_command(&self) -> Seq<char> {
        "SOURCE+30"@
    }

    fn transport(&self) -> (r: Transport) {
        Transport::Epson(self.password.clone())
    }

    fn set_test_pattern(&self, on: bool) -> (cmd: String) {
        if on {
            "TESTPATTERN+01+06".to_owned()
        } else {
            "TESTPATTERN+00".to_owned()
        }
    }

    fn get_test_pattern(&self) -> (cmd: String) {
        "TESTPATTERN?".to_owned()
    }

    fn test_pattern_shown(&self, response: &str) -> (r: bool)
        ensures
            text::is_ascii_text(response@) ==> r == text::has(text::raised(response@), "=01"@),
    {
        epson_pattern_in(text::to_uppercase(response).as_str())
    }

    fn switch_to_hdmi1(&self) -> (cmd: String) {
        "SOURCE+30".to_owned()
    }
}

/// Whether an Epson projector's answer, in capitals, says that the test pattern is on.
pub fn epson_pattern_in(response: &str) -> (r: bool)
    ensures
        r == text::has(response@, "=01"@),
{
    text::contains(response, "=01")
}

/// The implementation that a show uses.
pub enum BrandExtras {
    Panasonic(PanasonicExtras),
    Epson(EpsonExtras),
}

impl ProjectorExtras for BrandExtras {
    open spec fn reached_by(&self) -> TransportV {
        match self {
            BrandExtras::Panasonic(p) => p.reached_by(),
            BrandExtras::Epson(e) => e.reached_by(),
        }
    }

    open spec fn pattern_command(&self, on: bool) -> Seq<char> {
        match self {
            BrandExtras::Panasonic(p) => p.pattern_command(on),
            BrandExtras::Epson(e) => e.pattern_command(on),
        }
    }

    open spec fn pattern_query(&self) -> Seq<char> {
        match self {
            BrandExtras::Panasonic(p) => p.pattern_query(),
            BrandExtras::Epson(e) => e.pattern_query(),
        }
    }

    open spec fn pattern_shown(&self, response: Seq<char>) -> bool {
        match self {
            BrandExtras::Panasonic(p) => p.pattern_shown(response),
            BrandExtras::Epson(e) => e.pattern_shown(response),
        }
    }

    open spec fn hdmi1_command(&self) -> Seq<char> {
        match self {
            BrandExtras::Panasonic(p) => p.hdmi1_command(),
            BrandExtras::Epson(e) => e.hdmi1_command(),
        }
    }

    fn transport(&self) -> (r: Transport) {
        match self {
            BrandExtras::Panasonic(p) => p.transport(),
            BrandExtras::Epson(e) => e.transport(),
        }
    }

    fn set_test_pattern(&self, on: bool) -> (cmd: String) {
        match self {
            BrandExtras::Panasonic(p) => p.set_test_pattern(on),
            BrandExtras::Epson(e) => e.set_test_pattern(on),
        }
    }

    fn get_test_pattern(&self) -> (cmd: String) {
        match self {
            BrandExtras::Panasonic(p) => p.get_test_pattern(),
            BrandExtras::Epson(e) => e.get_test_pattern(),
        }
    }

    fn test_pattern_shown(&self, response: &str) -> (r: bool)
        ensures
            self is Epson && text::is_ascii_text(response@) ==> r == text::has(
                text::raised(response@),
                "=01"@,
            ),
    {
        match self {
            BrandExtras::Panasonic(p) => p.test_pattern_shown(response),
            BrandExtras::Epson(e) => e.test_pattern_shown(response),
        }
    }

    fn switch_to_hdmi1(&self) -> (cmd: String) {
        match self {
            BrandExtras::Panasonic(p) => p.switch_to_hdmi1(),
            BrandExtras::Epson(e) => e.switch_to_hdmi1(),
        }
    }
}

/// The implementation for a brand: Epson where the brand says so in any letter case, and
/// Panasonic for everything else.
pub fn projector_extras_for_brand(brand: &str, epson_password: Option<String>) -> (r: BrandExtras)
    ensures
        r == if text::alike(brand@, "epson"@) {
            BrandExtras::Epson(EpsonExtras { password: epson_password })
        } else {
            BrandExtras::Panasonic(PanasonicExtras)
        },
{
    if text::eq_ignore_ascii_case(brand, "epson") {
        BrandExtras::Epson(EpsonExtras { password: epson_password })
    } else {
        BrandExtras::Panasonic(PanasonicExtras)
    }
}

// ---------------------------------------------------------------------------
// Panasonic: TCP, greeting, command behind a hash
// ---------------------------------------------------------------------------

pub const PANASONIC_PORT: u16 = 1024;

/// What stands before every command: the digest of user, password and the greeting's random
/// number in protected mode, and nothing otherwise.
pub open spec fn panasonic_prefix_of(greeting: Seq<char>) -> Seq<char> {
    match text::after_prefix(text::trimmed(greeting), "NTCONTROL 1 "@) {
        Some(rest) => digest::md5_hex_of(
            encode_utf8("admin1:panasonic:"@ + text::trimmed(rest)),
        ),
        None => Seq::empty(),
    }
}

/// The text whose digest precedes the commands, in protected mode.
pub fn panasonic_material(greeting: &str) -> (r: Option<String>)
    ensures
        text::view_option(r) == match text::after_prefix(
            text::trimmed(greeting@),
            "NTCONTROL 1 "@,
        ) {
            Some(rest) => Some("admin1:panasonic:"@ + text::trimmed(rest)),
            None => None,
        },
{
    match text::strip_prefix(text::trim(greeting).as_str(), "NTCONTROL 1 ") {
        Some(rest) => Some(
            text::glue("admin1:panasonic:", text::trim(rest.as_str()).as_str()),
        ),
        None => None,
    }
}

/// The line with a command: the prefix, the command, a carriage return.
pub fn command_line(prefix: &str, cmd: &str) -> (r: String)
    ensures
        r@ == prefix@ + cmd@ + "\r"@,
{
    text::glue3(prefix, cmd, "\r")
}

/// What a Panasonic projector is sent after it greeted.
pub fn panasonic_payload(greeting: &str, cmd: &str) -> (r: String)
    ensures
        r@ == panasonic_prefix_of(greeting@) + cmd@ + "\r"@,
{
    proof {
        reveal_strlit("");
        assert(""@ =~= Seq::<char>::empty());
    }
    match panasonic_material(greeting) {
        Some(material) => command_line(digest::md5_hex(material.as_str()).as_str(), cmd),
        None => command_line("", cmd),
    }
}

pub open spec fn panasonic_outcome(ip: Seq<char>, cmd: Seq<char>, response: Seq<char>) -> Result<
    Seq<char>,
    Seq<char>,
> {
    let line = text::trimmed(response);
    if text::begins(line, "ERR"@) {
        Err("Panasonic "@ + ip + " lehnte Befehl '"@ + cmd + "' ab: "@ + line)
    } else {
        Ok(line)
    }
}

pub open spec fn view_text_result(r: Result<String, String>) -> Result<Seq<char>, Seq<char>> {
    match r {
        Ok(s) => Ok(s@),
        Err(e) => Err(e@),
    }
}

/// What the projector's answer to a command means.
pub fn panasonic_response(ip: &str, cmd: &str, response: &str) -> (r: Result<String, String>)
    ensures
        view_text_result(r) == panasonic_outcome(ip@, cmd@, response@),
{
    let line = text::trim(response);
    if text::starts_with(line.as_str(), "ERR") {
        let mut msg = "Panasonic ".to_owned();
        msg.append(ip);
        msg.append(" lehnte Befehl '");
        msg.append(cmd);
        msg.append("' ab: ");
        msg.append(line.as_str());
        return Err(msg);
    }
    Ok(line)
}

// ---------------------------------------------------------------------------
// Epson: HTTP with digest authentication
// ---------------------------------------------------------------------------

pub const EPSON_TIMEOUT_SECS: u64 = 6;

/// A digest parameter without its quotes.
pub open spec fn unquoted(v: Seq<char>) -> Seq<char> {
    if v.len() >= 2 && v[0] == '"' && v.last() == '"' {
        v.subrange(1, v.len() - 1)
    } else {
        v
    }
}

/// The parameter that one part of a challenge gives.
pub open spec fn digest_param(part: Seq<char>) -> Option<(Seq<char>, Seq<char>)> {
    let p = text::trimmed(part);
    match text::found(p, seq!['=']) {
        Some(i) => Some((text::trimmed(p.take(i)), unquoted(text::trimmed(p.skip(i + 1))))),
        None => None,
    }
}

/// The parameters that a list of parts gives; a later one replaces an earlier one.
pub open spec fn digest_params_of(parts: Seq<Seq<char>>) -> Map<Seq<char>, Seq<char>>
    decreases parts.len(),
{
    if parts.len() == 0 {
        Map::empty()
    } else {
        let before = digest_params_of(parts.drop_last());
        match digest_param(parts.last()) {
            Some((k, v)) => before.insert(k, v),
            None => before,
        }
    }
}

fn unquote(v: String) -> (r: String)
    ensures
        r@ == unquoted(v@),
{
    let chars = text::chars_of(v.as_str());
    let n = chars.len();
    if n >= 2 && chars[0] == '"' && chars[n - 1] == '"' {
        text::text_between(&chars, 1, n - 1)
    } else {
        v
    }
}

/// Splits a text at the first equals sign into what precedes and what follows it.
pub fn split_at_equals(s: &str) -> (r: Option<(String, String)>)
    ensures
        match r {
            Some((a, b)) => text::found(s@, seq!['=']) is Some && a@ == s@.take(
                text::found(s@, seq!['='])->0,
            ) && b@ == s@.skip(text::found(s@, seq!['='])->0 + 1),
            None => text::found(s@, seq!['=']) is None,
        },
{
    let v = text::chars_of(s);
    let mut eq: Vec<char> = Vec::new();
    eq.push('=');
    proof {
        assert(eq@ =~= seq!['=']);
    }
    match text::find_chars(&v, &eq) {
        Some(i) => {
            let n = v.len();
            proof {
                assert(v@.take(i as int) =~= v@.subrange(0, i as int));
                assert(v@.skip(i + 1) =~= v@.subrange(i + 1, n as int));
            }
            Some((text::text_between(&v, 0, i), text::text_between(&v, i + 1, n)))
        },
        None => None,
    }
}

/// Reads the parameters of a digest challenge.
pub fn parse_digest_params(header_value: &str) -> (r: StrMap<String>)
    ensures
        strmap::text_map(r) == digest_params_of(text::pieces(header_value@, ',')),
{
    let parts = text::split(header_value, ',');
    let ghost all = text::texts(parts@);
    let mut m = strmap::empty_text_map();
    let mut i: usize = 0;
    while i < parts.len()
        invariant
            i <= parts@.len(),
            all == text::texts(parts@),
            strmap::text_map(m) == digest_params_of(all.take(i as int)),
        decreases parts@.len() - i,
    {
        proof {
            assert(all.take(i + 1).drop_last() =~= all.take(i as int));
            assert(all.take(i + 1).last() == parts@[i as int]@);
        }
        let part = text::trim(parts[i].as_str());
        if let Some((k, v)) = split_at_equals(part.as_str()) {
            let key = text::trim(k.as_str());
            let value = unquote(text::trim(v.as_str()));
            strmap::put_text(&mut m, key, value);
        }
        i += 1;
    }
    proof {
        assert(all.take(i as int) =~= all);
    }
    m
}

/// Three texts with colons between them.
pub open spec fn colons3(a: Seq<char>, b: Seq<char>, c: Seq<char>) -> Seq<char> {
    a + ":"@ + b + ":"@ + c
}

/// Whether a challenge asks for quality of protection `auth`.
pub open spec fn wants_auth(challenge: Map<Seq<char>, Seq<char>>) -> bool {
    match strmap::text_under(challenge, "qop"@) {
        Some(qop) => text::has(qop, "auth"@),
        None => false,
    }
}

/// The response to a digest challenge.
pub open spec fn digest_response_of(
    password: Seq<char>,
    challenge: Map<Seq<char>, Seq<char>>,
    method: Seq<char>,
    uri: Seq<char>,
    nc: Seq<char>,
    cnonce: Seq<char>,
) -> Seq<char> {
    let realm = challenge["realm"@];
    let nonce = challenge["nonce"@];
    let ha1 = digest::md5_hex_of(encode_utf8(colons3("EPSONWEB"@, realm, password)));
    let ha2 = digest::md5_hex_of(encode_utf8(method + ":"@ + uri));
    if wants_auth(challenge) {
        digest::md5_hex_of(
            encode_utf8(
                colons3(colons3(ha1, nonce, nc), cnonce, "auth"@) + ":"@ + ha2,
            ),
        )
    } else {
        digest::md5_hex_of(encode_utf8(colons3(ha1, nonce, ha2)))
    }
}

/// The header that carries a response to a digest challenge.
pub open spec fn digest_header_of(
    challenge: Map<Seq<char>, Seq<char>>,
    uri: Seq<char>,
    nc: Seq<char>,
    cnonce: Seq<char>,
    response: Seq<char>,
) -> Seq<char> {
    let start = "Digest username=\"EPSONWEB\", realm=\""@ + challenge["realm"@] + "\", nonce=\""@
        + challenge["nonce"@] + "\", uri=\""@ + uri + "\", response=\""@ + response + "\""@;
    let with_qop = if wants_auth(challenge) {
        start + ", qop=auth, nc="@ + nc + ", cnonce=\""@ + cnonce + "\""@
    } else {
        start
    };
    match strmap::text_under(challenge, "opaque"@) {
        Some(opaque) => with_qop + ", opaque=\""@ + opaque + "\""@,
        None => with_qop,
    }
}

fn glue_colons3(a: &str, b: &str, c: &str) -> (r: String)
    ensures
        r@ == colons3(a@, b@, c@),
{
    let mut out = a.to_owned();
    out.append(":");
    out.append(b);
    out.append(":");
    out.append(c);
    out
}

fn auth_wanted(challenge: &StrMap<String>) -> (r: bool)
    ensures
        r == wants_auth(strmap::text_map(*challenge)),
{
    match strmap::get_text(challenge, "qop") {
        Some(qop) => text::contains(qop.as_str(), "auth"),
        None => false,
    }
}

/// The header that carries `response` as the answer to a challenge; nothing where the challenge
/// lacks its realm or its nonce.
pub fn digest_header(challenge: &StrMap<String>, uri: &str, nc: &str, cnonce: &str, response: &str) -> (r:
    Option<String>)
    ensures
        text::view_option(r) == {
            let c = strmap::text_map(*challenge);
            if c.dom().contains("realm"@) && c.dom().contains("nonce"@) {
                Some(digest_header_of(c, uri@, nc@, cnonce@, response@))
            } else {
                None
            }
        },
{
    let realm = match strmap::get_text(challenge, "realm") {
        Some(v) => v,
        None => {
            return None;
        },
    };
    let nonce = match strmap::get_text(challenge, "nonce") {
        Some(v) => v,
        None => {
            return None;
        },
    };
    let mut out = "Digest username=\"EPSONWEB\", realm=\"".to_owned();
    out.append(realm.as_str());
    out.append("\", nonce=\"");
    out.append(nonce.as_str());
    out.append("\", uri=\"");
    out.append(uri);
    out.append("\", response=\"");
    out.append(response);
    out.append("\"");
    if auth_wanted(challenge) {
        out.append(", qop=auth, nc=");
        out.append(nc);
        out.append(", cnonce=\"");
        out.append(cnonce);
        out.append("\"");
    }
    if let Some(opaque) = strmap::get_text(challenge, "opaque") {
        out.append(", opaque=\"");
        out.append(opaque.as_str());
        out.append("\"");
    }
    Some(out)
}

/// The answer to a digest challenge as the value of an `Authorization` header.
pub fn epson_digest_auth_header(
    password: &str,
    challenge: &StrMap<String>,
    method: &str,
    uri: &str,
    nc: &str,
    cnonce: &str,
) -> (r: Option<String>)
    ensures
        text::view_option(r) == {
            let c = strmap::text_map(*challenge);
            if c.dom().contains("realm"@) && c.dom().contains("nonce"@) {
                Some(
                    digest_header_of(
                        c,
                        uri@,
                        nc@,
                        cnonce@,
                        digest_response_of(password@, c, method@, uri@, nc@, cnonce@),
                    ),
                )
            } else {
                None
            }
        },
{
    let realm = match strmap::get_text(challenge, "realm") {
        Some(v) => v,
        None => {
            return None;
        },
    };
    let nonce = match strmap::get_text(challenge, "nonce") {
        Some(v) => v,
        None => {
            return None;
        },
    };
    let ha1 = digest::md5_hex(glue_colons3("EPSONWEB", realm.as_str(), password).as_str());
    let ha2 = digest::md5_hex(text::glue3(method, ":", uri).as_str());
    let response = if auth_wanted(challenge) {
        let front = glue_colons3(ha1.as_str(), nonce.as_str(), nc);
        let mut input = glue_colons3(front.as_str(), cnonce, "auth");
        input.append(":");
        input.append(ha2.as_str());
        digest::md5_hex(input.as_str())
    } else {
        digest::md5_hex(glue_colons3(ha1.as_str(), nonce.as_str(), ha2.as_str()).as_str())
    };
    digest_header(challenge, uri, nc, cnonce, response.as_str())
}

/// The path of a command on an Epson projector.
pub fn epson_uri(cmd: &str) -> (r: String)
    ensures
        r@ == "/api/v01/control/escvp21?cmd="@ + cmd@,
{
    text::glue("/api/v01/control/escvp21?cmd=", cmd)
}

/// The address of a command on an Epson projector.
pub fn epson_url(ip: &str, cmd: &str) -> (r: String)
    ensures
        r@ == "http://"@ + ip@ + ("/api/v01/control/escvp21?cmd="@ + cmd@),
{
    text::glue3("http://", ip, epson_uri(cmd).as_str())
}

pub open spec fn epson_disabled(ip: Seq<char>) -> Seq<char> {
    "Epson "@ + ip + ": Web API ist im Projektor-Menue [Network Settings] deaktiviert (HTTP 403)"@
}

pub open spec fn epson_http_error(ip: Seq<char>, status: u16, body: Seq<char>) -> Seq<char> {
    "Epson "@ + ip + " HTTP "@ + numerals::dec(status as nat) + ": "@ + body
}

pub open spec fn is_success(status: u16) -> bool {
    200 <= status <= 299
}

/// What is done after the first answer of an Epson projector.
#[derive(Debug, PartialEq)]
pub enum EpsonStep {
    /// The request is over.
    Done(Result<String, String>),
    /// The request is repeated with this `Authorization` header.
    Retry(String),
}

/// The mathematical value of an [`EpsonStep`].
pub enum EpsonStepV {
    Done(Result<Seq<char>, Seq<char>>),
    Retry(Seq<char>),
}

impl View for EpsonStep {
    type V = EpsonStepV;

    open spec fn view(&self) -> EpsonStepV {
        match self {
            EpsonStep::Done(r) => EpsonStepV::Done(view_text_result(*r)),
            EpsonStep::Retry(h) => EpsonStepV::Retry(h@),
        }
    }
}

/// The challenge in a `WWW-Authenticate` header.
pub open spec fn challenge_of(www_auth: Seq<char>) -> Map<Seq<char>, Seq<char>> {
    let value = match text::after_prefix(www_auth, "Digest "@) {
        Some(rest) => rest,
        None => www_auth,
    };
    digest_params_of(text::pieces(value, ','))
}

/// What follows the first answer to a command: status, `WWW-Authenticate` header and body.
/// `client_nonce` is the digest that the client nonce is taken from.
pub open spec fn epson_first_step(
    ip: Seq<char>,
    password: Option<Seq<char>>,
    cmd: Seq<char>,
    client_nonce: Seq<char>,
    status: u16,
    www_auth: Option<Seq<char>>,
    body: Seq<char>,
) -> EpsonStepV {
    if status == 403 {
        EpsonStepV::Done(Err(epson_disabled(ip)))
    } else if status == 401 {
        if password is None || password->0.len() == 0 {
            EpsonStepV::Done(
                Err(
                    "Epson "@ + ip
                        + ": API Authentication ist aktiv, aber kein Web-Control-Passwort hinterlegt"@,
                ),
            )
        } else if www_auth is None {
            EpsonStepV::Done(
                Err("Epson "@ + ip + ": Digest-Challenge fehlt in der 401-Antwort"@),
            )
        } else {
            let c = challenge_of(www_auth->0);
            let uri = "/api/v01/control/escvp21?cmd="@ + cmd;
            let cnonce = client_nonce.take(8);
            if c.dom().contains("realm"@) && c.dom().contains("nonce"@) {
                EpsonStepV::Retry(
                    digest_header_of(
                        c,
                        uri,
                        "00000001"@,
                        cnonce,
                        digest_response_of(password->0, c, "GET"@, uri, "00000001"@, cnonce),
                    ),
                )
            } else {
                EpsonStepV::Done(
                    Err(
                        "Epson "@ + ip
                            + ": Digest-Challenge unvollstaendig (realm/nonce fehlt)"@,
                    ),
                )
            }
        }
    } else if !is_success(status) {
        EpsonStepV::Done(Err(epson_http_error(ip, status, body)))
    } else {
        EpsonStepV::Done(Ok(text::trimmed(body)))
    }
}

fn epson_disabled_text(ip: &str) -> (r: String)
    ensures
        r@ == epson_disabled(ip@),
{
    text::glue3(
        "Epson ",
        ip,
        ": Web API ist im Projektor-Menue [Network Settings] deaktiviert (HTTP 403)",
    )
}

fn epson_http_error_text(ip: &str, status: u16, body: &str) -> (r: String)
    ensures
        r@ == epson_http_error(ip@, status, body@),
{
    let mut msg = text::glue3("Epson ", ip, " HTTP ");
    msg.append(numerals::dec_u64(status as u64).as_str());
    msg.append(": ");
    msg.append(body);
    msg
}

/// The text whose digest gives the client nonce of a request.
pub fn client_nonce_material(now_ms: u64, ip: &str) -> (r: String)
    ensures
        r@ == numerals::dec(now_ms as nat) + ":"@ + ip@,
{
    text::glue3(numerals::dec_u64(now_ms).as_str(), ":", ip)
}

/// The digest that the client nonce of a request is taken from.
pub fn client_nonce(now_ms: u64, ip: &str) -> (r: String)
    ensures
        r@ == digest::md5_hex_of(encode_utf8(numerals::dec(now_ms as nat) + ":"@ + ip@)),
        r@.len() == 32,
{
    digest::md5_hex(client_nonce_material(now_ms, ip).as_str())
}

/// Decides what follows the first answer to a command.
pub fn epson_after_first(
    ip: &str,
    password: &Option<String>,
    cmd: &str,
    client_nonce: &str,
    status: u16,
    www_auth: &Option<String>,
    body: &str,
) -> (r: EpsonStep)
    requires
        client_nonce@.len() >= 8,
    ensures
        r@ == epson_first_step(
            ip@,
            text::view_option(*password),
            cmd@,
            client_nonce@,
            status,
            text::view_option(*www_auth),
            body@,
        ),
{
    if status == 403 {
        return EpsonStep::Done(Err(epson_disabled_text(ip)));
    }
    if status == 401 {
        let secret = match password {
            Some(p) => p.clone(),
            None => String::new(),
        };
        if secret.as_str().is_empty() {
            return EpsonStep::Done(
                Err(
                    text::glue3(
                        "Epson ",
                        ip,
                        ": API Authentication ist aktiv, aber kein Web-Control-Passwort hinterlegt",
                    ),
                ),
            );
        }
        let header = match www_auth {
            Some(h) => h.clone(),
            None => {
                return EpsonStep::Done(
                    Err(text::glue3("Epson ", ip, ": Digest-Challenge fehlt in der 401-Antwort")),
                );
            },
        };
        let value = match text::strip_prefix(header.as_str(), "Digest ") {
            Some(rest) => rest,
            None => header,
        };
        let challenge = parse_digest_params(value.as_str());
        let chars = text::chars_of(client_nonce);
        let cnonce = text::text_between(&chars, 0, 8);
        proof {
            assert(client_nonce@.take(8) =~= client_nonce@.subrange(0, 8));
        }
        let uri = epson_uri(cmd);
        return match epson_digest_auth_header(
            secret.as_str(),
            &challenge,
            "GET",
            uri.as_str(),
            "00000001",
            cnonce.as_str(),
        ) {
            Some(h) => EpsonStep::Retry(h),
            None => EpsonStep::Done(
                Err(
                    text::glue3(
                        "Epson ",
                        ip,
                        ": Digest-Challenge unvollstaendig (realm/nonce fehlt)",
                    ),
                ),
            ),
        };
    }
    if !(200 <= status && status <= 299) {
        return EpsonStep::Done(Err(epson_http_error_text(ip, status, body)));
    }
    EpsonStep::Done(Ok(text::trim(body)))
}

pub open spec fn epson_second_outcome(ip: Seq<char>, status: u16, body: Seq<char>) -> Result<
    Seq<char>,
    Seq<char>,
> {
    if status == 401 {
        Err("Epson "@ + ip + ": falsches Web-Control-Passwort"@)
    } else if status == 403 {
        Err(epson_disabled(ip))
    } else if !is_success(status) {
        Err(epson_http_error(ip, status, body))
    } else {
        Ok(text::trimmed(body))
    }
}

/// What the answer to the repeated request means.
pub fn epson_after_retry(ip: &str, status: u16, body: &str) -> (r: Result<String, String>)
    ensures
        view_text_result(r) == epson_second_outcome(ip@, status, body@),
{
    if status == 401 {
        return Err(text::glue3("Epson ", ip, ": falsches Web-Control-Passwort"));
    }
    if status == 403 {
        return Err(epson_disabled_text(ip));
    }
    if !(200 <= status && status <= 299) {
        return Err(epson_http_error_text(ip, status, body));
    }
    Ok(text::trim(body))
}

// ---------------------------------------------------------------------------
// What the projectors are told
// ---------------------------------------------------------------------------

/// Epson is Epson in any letter case, with the password, and every other brand is Panasonic.
pub proof fn brands_are_told_apart(
    brand: &str,
    password: Option<String>,
    r: BrandExtras,
)
    requires
        call_ensures(projector_extras_for_brand, (brand, password), r),
    ensures
        text::alike(brand@, seq!['e', 'p', 's', 'o', 'n']) <==> r is Epson,
        r is Epson ==> r->Epson_0.password == password,
        brand@ == seq!['E', 'P', 'S', 'O', 'N'] ==> r is Epson,
{
    reveal_strlit("epson");
    assert("epson"@ =~= seq!['e', 'p', 's', 'o', 'n']);
    if brand@ == seq!['E', 'P', 'S', 'O', 'N'] {
        assert(text::lowered(brand@) =~= text::lowered("epson"@));
    }
}

/// Switching the test pattern on and off are different commands of every brand; what asks for
/// it is neither; and an answer that names what was set reads back.
pub proof fn test_patterns_read_back(
    b: &BrandExtras,
    on: String,
    off: String,
    answer: &str,
    shown: bool,
)
    requires
        call_ensures(BrandExtras::set_test_pattern, (b, true), on),
        call_ensures(BrandExtras::set_test_pattern, (b, false), off),
        call_ensures(BrandExtras::test_pattern_shown, (b, answer), shown),
    ensures
        on@ != off@,
        b is Panasonic && text::begins(on@, "OTS:"@ + answer@) && answer@.len() == 2 ==> shown,
        b is Panasonic && text::begins(off@, "OTS:"@ + answer@) && answer@.len() == 2 ==> !shown,
        b is Epson && answer@ == "TESTPATTERN=01 06\r:"@ ==> shown,
        b is Epson && answer@ == "TESTPATTERN=00\r:"@ ==> !shown,
{
    reveal_strlit("OTS:01");
    reveal_strlit("OTS:00");
    reveal_strlit("OTS:");
    reveal_strlit("01");
    reveal_strlit("=01");
    reveal_strlit("TESTPATTERN+01+06");
    reveal_strlit("TESTPATTERN+00");
    reveal_strlit("TESTPATTERN=01 06\r:");
    reveal_strlit("TESTPATTERN=00\r:");
    assert("OTS:01"@[5] == '1' && "OTS:00"@[5] == '0');
    assert("TESTPATTERN+01+06"@.len() != "TESTPATTERN+00"@.len());
    if b is Panasonic {
        if text::begins(on@, "OTS:"@ + answer@) && answer@.len() == 2 {
            let s = "OTS:"@ + answer@;
            assert(s.len() == 6);
            assert(on@.take(6) =~= on@);
            assert(s[4] == answer@[0] && s[5] == answer@[1]);
            assert(answer@ =~= "01"@);
            text::parts_are_found(Seq::empty(), answer@, Seq::empty());
            assert(Seq::<char>::empty() + answer@ + Seq::<char>::empty() =~= answer@);
        }
        if text::begins(off@, "OTS:"@ + answer@) && answer@.len() == 2 {
            let s = "OTS:"@ + answer@;
            assert(off@.take(6) =~= off@);
            assert(s[5] == answer@[1]);
            if text::has(answer@, "01"@) {
                text::found_parts_are_there(answer@, "01"@, 0);
                let k = choose|k: int|
                    0 <= k && k + 2 <= answer@.len()
                        && #[trigger] answer@.subrange(k, k + 2) == "01"@;
                assert(k == 0);
                assert(answer@.subrange(0, 2)[1] == answer@[1]);
                assert("01"@[1] == '1');
            }
        }
    } else {
        if answer@ == "TESTPATTERN=01 06\r:"@ {
            assert(text::is_ascii_text(answer@));
            let up = text::raised(answer@);
            let a = up.take(11);
            let c = up.skip(14);
            assert(a + "=01"@ + c =~= up);
            text::parts_are_found(a, "=01"@, c);
        }
        if answer@ == "TESTPATTERN=00\r:"@ {
            assert(text::is_ascii_text(answer@));
            let up = text::raised(answer@);
            if text::has(up, "=01"@) {
                text::found_parts_are_there(up, "=01"@, 0);
                let k = choose|k: int|
                    0 <= k && k + 3 <= up.len() && #[trigger] up.subrange(k, k + 3) == "=01"@;
                assert(up.subrange(k, k + 3)[0] == up[k]);
                assert(up.subrange(k, k + 3)[2] == up[k + 2]);
                assert("=01"@[0] == '=' && "=01"@[2] == '1');
                assert(k == 11);
                assert(up[13] == '0');
            }
        }
    }
}

/// A projector that asks for no password gets the bare command; one that does gets the digest of
/// user, password and its number before it; either way the command ends the line.
pub proof fn panasonic_commands_are_sent(number: Seq<char>, greeting: &str, cmd: &str, r: String)
    requires
        number.len() > 0,
        text::is_trimmed(number),
        call_ensures(panasonic_payload, (greeting, cmd), r),
    ensures
        greeting@ == "NTCONTROL 0"@ ==> r@ == cmd@ + "\r"@,
        greeting@ == "NTCONTROL 1 "@ + number ==> r@ == digest::md5_hex_of(
            encode_utf8("admin1:panasonic:"@ + number),
        ) + cmd@ + "\r"@,
        text::ends(r@, cmd@ + "\r"@),
{
    reveal_strlit("NTCONTROL 0");
    reveal_strlit("NTCONTROL 1 ");
    let e = Seq::<char>::empty();
    if greeting@ == "NTCONTROL 0"@ {
        text::trimming_takes_off_white_space(e, greeting@, e);
        assert(e + greeting@ + e =~= greeting@);
        assert(!text::begins(greeting@, "NTCONTROL 1 "@)) by {
            assert(greeting@.len() == 11 && "NTCONTROL 1 "@.len() == 12);
        }
        assert(e + cmd@ + "\r"@ =~= cmd@ + "\r"@);
    }
    if greeting@ == "NTCONTROL 1 "@ + number {
        assert(greeting@[0] == 'N' && greeting@.last() == number.last());
        text::trimming_takes_off_white_space(e, greeting@, e);
        assert(e + greeting@ + e =~= greeting@);
        assert(greeting@.take(12) =~= "NTCONTROL 1 "@);
        assert(greeting@.skip(12) =~= number);
        text::trimming_takes_off_white_space(e, number, e);
        assert(e + number + e =~= number);
    }
    let tail = cmd@ + "\r"@;
    assert(r@.skip(r@.len() - tail.len()) =~= tail);
}

/// An answer that begins with an error is one; every other is handed on trimmed.
pub proof fn panasonic_errors_are_errors(
    ip: &str,
    cmd: &str,
    response: &str,
    r: Result<String, String>,
)
    requires
        call_ensures(panasonic_response, (ip, cmd, response), r),
    ensures
        r is Err <==> text::begins(text::trimmed(response@), "ERR"@),
        r matches Ok(line) ==> line@ == text::trimmed(response@),
{
}

/// A parameter of a challenge is read, with its quotes taken off.
pub proof fn challenges_are_read(k: Seq<char>, v: Seq<char>, header: &str, r: StrMap<String>)
    requires
        k.len() > 0 && text::is_trimmed(k) && !k.contains('=') && !k.contains(','),
        v.len() > 0 && !v.contains(','),
        header@ == k + seq!['=', '"'] + v + seq!['"'],
        call_ensures(parse_digest_params, (header,), r),
    ensures
        strmap::text_under(strmap::text_map(r), k) == Some(v),
{
    let h = header@;
    let e = Seq::<char>::empty();
    assert(!h.contains(',')) by {
        if h.contains(',') {
            let i = choose|i: int| 0 <= i < h.len() && h[i] == ',';
            let n = k.len() as int;
            if i < n {
                assert(k[i] == ',');
            } else if n + 2 <= i < n + 2 + v.len() {
                assert(v[i - n - 2] == ',');
            }
        }
    }
    text::splitting_cuts_at_separators(h, ',', e);
    assert(h[0] == k[0] && h.last() == '"');
    text::trimming_takes_off_white_space(e, h, e);
    assert(e + h + e =~= h);
    let eq = seq!['='];
    let n = k.len() as int;
    assert(h.subrange(n, n + 1) =~= eq);
    assert(text::matches_at(h, eq, n));
    text::found_is_first(h, eq, 0);
    let i = text::found(h, eq)->0;
    if i < n {
        assert(h.subrange(i, i + 1)[0] == h[i]);
        assert(k[i] == '=');
    }
    assert(h.take(n) =~= k);
    let q = seq!['"'] + v + seq!['"'];
    assert(h.skip(n + 1) =~= q);
    text::trimming_takes_off_white_space(e, k, e);
    assert(e + k + e =~= k);
    text::trimming_takes_off_white_space(e, q, e);
    assert(e + q + e =~= q);
    assert(q.subrange(1, q.len() - 1) =~= v);
    let parts = text::pieces(h, ',');
    assert(parts =~= seq![h]);
    assert(parts.drop_last() =~= Seq::<Seq<char>>::empty());
    reveal_with_fuel(digest_params_of, 2);
    assert(digest_params_of(parts).dom().contains(k));
}

/// The request of an Epson projector is repeated only after a refusal with a challenge, where
/// there is a password; a success is handed on trimmed; everything else is an error.
pub proof fn epson_requests_are_repeated_for_a_password(
    ip: &str,
    password: &Option<String>,
    cmd: &str,
    nonce: &str,
    status: u16,
    www_auth: &Option<String>,
    body: &str,
    r: EpsonStep,
)
    requires
        nonce@.len() >= 8,
        call_ensures(epson_after_first, (ip, password, cmd, nonce, status, www_auth, body), r),
    ensures
        r is Retry ==> status == 401 && *password is Some && (password->0)@.len() > 0
            && *www_auth is Some,
        200 <= status < 300 ==> r is Done && r->Done_0 is Ok
            && (r->Done_0->Ok_0)@ == text::trimmed(body@),
        status == 401 && *password is None ==> r is Done && r->Done_0 is Err,
        status != 401 && !(200 <= status < 300) ==> r is Done && r->Done_0 is Err,
{
}

/// The repeated request succeeds with a success only; a second refusal means a wrong password.
pub proof fn epson_retries_end(ip: &str, status: u16, body: &str, r: Result<String, String>)
    requires
        call_ensures(epson_after_retry, (ip, status, body), r),
    ensures
        r is Ok <==> 200 <= status < 300,
        r matches Ok(s) ==> s@ == text::trimmed(body@),
        status == 401 ==> text::ends((r->Err_0)@, ": falsches Web-Control-Passwort"@),
{
    if status == 401 {
        let tail = ": falsches Web-Control-Passwort"@;
        let e = (r->Err_0)@;
        assert(e.skip(e.len() - tail.len()) =~= tail);
    }
}

/// The answer to a challenge is the digest of user, realm and password, of the request, and of
/// what the challenge asks for, by RFC 2617; it goes with the realm and the nonce of the
/// challenge.
pub proof fn challenges_are_answered(
    password: &str,
    challenge: &StrMap<String>,
    method: &str,
    uri: &str,
    nc: &str,
    cnonce: &str,
    realm: Seq<char>,
    nonce: Seq<char>,
    r: Option<String>,
)
    requires
        strmap::text_map(*challenge).dom().contains("realm"@),
        strmap::text_map(*challenge)["realm"@] == realm,
        strmap::text_map(*challenge).dom().contains("nonce"@),
        strmap::text_map(*challenge)["nonce"@] == nonce,
        call_ensures(
            epson_digest_auth_header,
            (password, challenge, method, uri, nc, cnonce),
            r,
        ),
    ensures
        r is Some,
        text::begins(
            (r->0)@,
            "Digest username=\"EPSONWEB\", realm=\""@ + realm + "\", nonce=\""@ + nonce
                + "\", uri=\""@ + uri@ + "\", response=\""@,
        ),
        !strmap::text_map(*challenge).dom().contains("qop"@) && !strmap::text_map(
            *challenge,
        ).dom().contains("opaque"@) ==> (r->0)@ == "Digest username=\"EPSONWEB\", realm=\""@ + realm
            + "\", nonce=\""@ + nonce + "\", uri=\""@ + uri@ + "\", response=\""@
            + digest::md5_hex_of(
            encode_utf8(
                digest::md5_hex_of(encode_utf8("EPSONWEB"@ + ":"@ + realm + ":"@ + password@)) + ":"@
                    + nonce + ":"@ + digest::md5_hex_of(encode_utf8(method@ + ":"@ + uri@)),
            ),
        ) + "\""@,
{
    let c = strmap::text_map(*challenge);
    let lead = "Digest username=\"EPSONWEB\", realm=\""@ + realm + "\", nonce=\""@ + nonce
        + "\", uri=\""@ + uri@ + "\", response=\""@;
    assert((r->0)@.take(lead.len() as int) =~= lead);
}

/// A command goes to the address of the projector, and its nonces differ from one millisecond to
/// another.
pub proof fn epson_commands_go_to_the_projector(
    ip: &str,
    cmd: &str,
    a: u64,
    b: u64,
    uri: String,
    url: String,
    one: String,
    other: String,
)
    requires
        a != b,
        call_ensures(epson_uri, (cmd,), uri),
        call_ensures(epson_url, (ip, cmd), url),
        call_ensures(client_nonce_material, (a, ip), one),
        call_ensures(client_nonce_material, (b, ip), other),
    ensures
        url@ == "http://"@ + ip@ + uri@,
        text::ends(uri@, "?cmd="@ + cmd@),
        one@ != other@,
{
    reveal_strlit("?cmd=");
    reveal_strlit("/api/v01/control/escvp21?cmd=");
    let tail = "?cmd="@ + cmd@;
    assert(uri@.skip(uri@.len() - tail.len()) =~= tail);
    numerals::decimals_are_told_apart(a as int, b as int);
    let rest = ":"@ + ip@;
    assert(one@.take(one@.len() - rest.len()) =~= numerals::dec(a as nat));
    assert(other@.take(other@.len() - rest.len()) =~= numerals::dec(b as nat));
}

} // verus!

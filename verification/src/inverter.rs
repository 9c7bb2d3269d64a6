//! The inverter's WebConnect interface: the requests the controller sends and
//! what it makes of the replies.

use vstd::prelude::*;
use crate::text::{decimal_digits, push_decimal, push_str, string_from_chars, chars_of, is_digit_text, number_of, law_decimal_digits_read_back};
use crate::json::{JsonValue, member, element, as_u64, get_member, get_element, get_u64, json_of_text, parse_json};
use crate::config::Config;

verus! {

/// The object id of the "active power limitation" parameter on SMA inverters.
pub const POWER_LIMIT_PARAM: &'static str = "6802_00866900";

/// How long to wait after a write before reading the value back.
pub const VERIFY_DELAY_SECS: u64 = 5;

/// Why an exchange with the inverter failed.
#[derive(Clone, Copy, Debug, PartialEq, Eq, Structural)]
pub enum InverterError {
    /// The request could not be sent, or its reply not read.
    Unreachable,
    /// The HTTP status was not a success (2xx).
    HttpStatus(u16),
    /// The reply body is not the JSON that was expected.
    MalformedReply,
    /// The reply carries an `err` member.
    Rejected,
    /// The reply has no `result`.
    MissingResult,
    /// Login succeeded but the session id is empty.
    EmptySid,
    /// The `result` of a read is not a JSON object.
    ResultNotObject,
    /// No device in the read's `result` reports the power-limit parameter.
    ParamNotFound,
    /// The parameter's value is null or not shaped `{"1": [{"val": n}]}`.
    UnexpectedValueShape,
}

/// An HTTP status in the success class (200 to 299).
pub open spec fn is_success(status: u16) -> bool {
    200 <= status <= 299
}

/// Whether an HTTP status is a success (2xx).
pub fn status_is_success(status: u16) -> (r: bool)
    ensures
        r == is_success(status),
{
    200 <= status && status <= 299
}

/// The `result` member of a login reply.
pub struct LoginResult {
    pub sid: String,
}

/// A login reply: `{"result": {"sid": ...}}` or `{"err": ...}`.
pub struct LoginReply {
    pub result: Option<LoginResult>,
    pub err: Option<JsonValue>,
}

/// A reply to a parameter write: `{"result": {}}` or `{"err": ...}`.
pub struct ParamReply {
    pub result: Option<JsonValue>,
    pub err: Option<JsonValue>,
}

/// The session id that a login yields, given the HTTP status and the reply
/// (`None` where the body did not read as a login reply).
pub open spec fn login_outcome(status: u16, reply: Option<LoginReply>) -> Result<Seq<char>, InverterError> {
    if !is_success(status) {
        Err(InverterError::HttpStatus(status))
    } else {
        match reply {
            None => Err(InverterError::MalformedReply),
            Some(r) => if r.err is Some {
                Err(InverterError::Rejected)
            } else {
                match r.result {
                    None => Err(InverterError::MissingResult),
                    Some(res) => if res.sid@.len() == 0 {
                        Err(InverterError::EmptySid)
                    } else {
                        Ok(res.sid@)
                    },
                }
            },
        }
    }
}

/// The session id of a login, or why the login failed.
pub fn login_sid(status: u16, reply: Option<LoginReply>) -> (r: Result<String, InverterError>)
    ensures
        match login_outcome(status, reply) {
            Ok(sid) => r matches Ok(s) && s@ == sid,
            Err(e) => r == Err::<String, InverterError>(e),
        },
{
    if !status_is_success(status) {
        return Err(InverterError::HttpStatus(status));
    }
    match reply {
        None => Err(InverterError::MalformedReply),
        Some(r) => {
            if r.err.is_some() {
                return Err(InverterError::Rejected);
            }
            match r.result {
                None => Err(InverterError::MissingResult),
                Some(res) => {
                    if res.sid.as_str().is_empty() {
                        Err(InverterError::EmptySid)
                    } else {
                        Ok(res.sid)
                    }
                },
            }
        },
    }
}

/// Whether a parameter write was accepted, given the HTTP status and the reply.
pub open spec fn param_outcome(status: u16, reply: Option<ParamReply>) -> Result<(), InverterError> {
    if !is_success(status) {
        Err(InverterError::HttpStatus(status))
    } else {
        match reply {
            None => Err(InverterError::MalformedReply),
            Some(r) => if r.err is Some {
                Err(InverterError::Rejected)
            } else {
                Ok(())
            },
        }
    }
}

/// Whether a parameter write was accepted, or why not.
pub fn param_write_result(status: u16, reply: &Option<ParamReply>) -> (r: Result<(), InverterError>)
    ensures
        r == param_outcome(status, *reply),
{
    if !status_is_success(status) {
        return Err(InverterError::HttpStatus(status));
    }
    match reply {
        None => Err(InverterError::MalformedReply),
        Some(r) => if r.err.is_some() {
            Err(InverterError::Rejected)
        } else {
            Ok(())
        },
    }
}

/// The value that a device's parameter entry `{"1": [{"val": n}]}` reports.
pub open spec fn param_value(p: JsonValue) -> Option<u64> {
    match member(p, "1"@) {
        None => None,
        Some(a) => match element(a, 0) {
            None => None,
            Some(e) => match member(e, "val"@) {
                None => None,
                Some(x) => as_u64(x),
            },
        },
    }
}

/// What a device's data says of the power limit: `None` where it lacks the
/// parameter, else the value the parameter reports (if any).
pub open spec fn device_reading(device: JsonValue) -> Option<Option<u64>> {
    match member(device, POWER_LIMIT_PARAM@) {
        None => None,
        Some(p) => Some(param_value(p)),
    }
}

/// The reading of the first device at or after `i` that has the parameter.
pub open spec fn first_reading_from(devices: Seq<(String, JsonValue)>, i: int) -> Option<Option<u64>>
    decreases devices.len() - i,
{
    if i < 0 || i >= devices.len() {
        None
    } else {
        match device_reading(devices[i].1) {
            Some(r) => Some(r),
            None => first_reading_from(devices, i + 1),
        }
    }
}

/// The power limit in watts that a `getValues` reply reports: from the first
/// device in `result` that has the parameter, its value cut to 32 bits.
pub open spec fn power_limit_of(reply: JsonValue) -> Result<u32, InverterError> {
    if member(reply, "err"@) is Some {
        Err(InverterError::Rejected)
    } else {
        match member(reply, "result"@) {
            None => Err(InverterError::MissingResult),
            Some(res) => match res {
                JsonValue::Object(devices) => match first_reading_from(devices@, 0) {
                    None => Err(InverterError::ParamNotFound),
                    Some(None) => Err(InverterError::UnexpectedValueShape),
                    Some(Some(v)) => Ok(v as u32),
                },
                _ => Err(InverterError::ResultNotObject),
            },
        }
    }
}

/// The power limit a `getValues` exchange reports, given the HTTP status and
/// the reply (`None` where the body is not JSON).
pub open spec fn read_outcome(status: u16, reply: Option<JsonValue>) -> Result<u32, InverterError> {
    if !is_success(status) {
        Err(InverterError::HttpStatus(status))
    } else {
        match reply {
            None => Err(InverterError::MalformedReply),
            Some(j) => power_limit_of(j),
        }
    }
}

fn param_entry_value(p: &JsonValue) -> (r: Option<u64>)
    ensures
        r == param_value(*p),
{
    match get_member(p, "1") {
        None => None,
        Some(a) => match get_element(a, 0) {
            None => None,
            Some(e) => match get_member(e, "val") {
                None => None,
                Some(x) => get_u64(x),
            },
        },
    }
}

/// The power limit that a `getValues` reply reports, or why there is none.
pub fn power_limit_from_reply(reply: &JsonValue) -> (r: Result<u32, InverterError>)
    ensures
        r == power_limit_of(*reply),
{
    if get_member(reply, "err").is_some() {
        return Err(InverterError::Rejected);
    }
    match get_member(reply, "result") {
        None => Err(InverterError::MissingResult),
        Some(res) => match res {
            JsonValue::Object(devices) => {
                let mut i: usize = 0;
                while i < devices.len()
                    invariant
                        0 <= i <= devices@.len(),
                        member(*reply, "err"@) is None,
                        member(*reply, "result"@) == Some(JsonValue::Object(*devices)),
                        first_reading_from(devices@, i as int) == first_reading_from(
                            devices@,
                            0,
                        ),
                    decreases devices@.len() - i,
                {
                    match get_member(&devices[i].1, POWER_LIMIT_PARAM) {
                        Some(p) => {
                            return match param_entry_value(p) {
                                Some(v) => Ok(#[verifier::truncate] (v as u32)),
                                None => Err(InverterError::UnexpectedValueShape),
                            };
                        },
                        None => {},
                    }
                    i += 1;
                }
                Err(InverterError::ParamNotFound)
            },
            _ => Err(InverterError::ResultNotObject),
        },
    }
}

/// The power limit of a `getValues` exchange, or why it cannot be read.
pub fn power_limit_read(status: u16, reply: &Option<JsonValue>) -> (r: Result<u32, InverterError>)
    ensures
        r == read_outcome(status, *reply),
{
    if !status_is_success(status) {
        return Err(InverterError::HttpStatus(status));
    }
    match reply {
        None => Err(InverterError::MalformedReply),
        Some(j) => power_limit_from_reply(j),
    }
}

/// The power limit of a `getValues` exchange, given the HTTP status and the
/// reply text, or why it cannot be read.
pub fn power_limit_from_text(status: u16, text: &str) -> (r: Result<u32, InverterError>)
    ensures
        r == read_outcome(status, json_of_text(text@)),
{
    if !status_is_success(status) {
        return Err(InverterError::HttpStatus(status));
    }
    let reply = parse_json(text);
    power_limit_read(status, &reply)
}

} // verus!

verus! {

impl Config {
    /// `<base>/dyn/login.json`.
    pub fn login_url(&self) -> (r: String)
        ensures
            r@ == self.base_url() + "/dyn/login.json"@,
    {
        let base = self.inverter_base_url();
        let mut out = chars_of(base.as_str());
        push_str(&mut out, "/dyn/login.json");
        string_from_chars(out.as_slice())
    }

    /// `<base>/dyn/<page>?sid=<sid>`, the URL of a call within a session.
    pub open spec fn session_url(self, page: Seq<char>, sid: Seq<char>) -> Seq<char> {
        self.base_url() + "/dyn/"@ + page + "?sid="@ + sid
    }

    fn session_url_for(&self, page: &str, sid: &str) -> (r: String)
        ensures
            r@ == self.session_url(page@, sid@),
    {
        let base = self.inverter_base_url();
        let mut out = chars_of(base.as_str());
        push_str(&mut out, "/dyn/");
        push_str(&mut out, page);
        push_str(&mut out, "?sid=");
        push_str(&mut out, sid);
        assert(out@ =~= self.session_url(page@, sid@));
        string_from_chars(out.as_slice())
    }

    /// The URL that writes parameters within the session `sid`.
    pub fn set_param_url(&self, sid: &str) -> (r: String)
        ensures
            r@ == self.session_url("setParamValues.json"@, sid@),
    {
        self.session_url_for("setParamValues.json", sid)
    }

    /// The URL that reads values within the session `sid`.
    pub fn get_values_url(&self, sid: &str) -> (r: String)
        ensures
            r@ == self.session_url("getValues.json"@, sid@),
    {
        self.session_url_for("getValues.json", sid)
    }

    /// The URL that ends the session `sid`.
    pub fn logout_url(&self, sid: &str) -> (r: String)
        ensures
            r@ == self.session_url("logout.json"@, sid@),
    {
        self.session_url_for("logout.json", sid)
    }
}

/// The hexadecimal digit (lower case) for `d < 16`.
pub open spec fn hex_digit(d: nat) -> char {
    if d < 10 {
        (0x30 + d) as char
    } else {
        (0x61 + d - 10) as char
    }
}

/// How a JSON string writes the character `c`: `"` and `\` and the control
/// characters below U+0020 escaped (short forms where JSON has them), every
/// other character as it is.
pub open spec fn json_escaped_char(c: char) -> Seq<char> {
    let v = c as u32;
    if c == '"' {
        seq!['\\', '"']
    } else if c == '\\' {
        seq!['\\', '\\']
    } else if v == 0x08 {
        seq!['\\', 'b']
    } else if v == 0x09 {
        seq!['\\', 't']
    } else if v == 0x0a {
        seq!['\\', 'n']
    } else if v == 0x0c {
        seq!['\\', 'f']
    } else if v == 0x0d {
        seq!['\\', 'r']
    } else if v < 0x20 {
        seq!['\\', 'u', '0', '0', hex_digit((v / 16) as nat), hex_digit((v % 16) as nat)]
    } else {
        seq![c]
    }
}

/// The text of `s` inside a JSON string literal.
pub open spec fn json_escape(s: Seq<char>) -> Seq<char>
    decreases s.len(),
{
    if s.len() == 0 {
        Seq::empty()
    } else {
        json_escape(s.drop_last()) + json_escaped_char(s.last())
    }
}

fn push_json_escaped(out: &mut Vec<char>, s: &str)
    ensures
        final(out)@ == old(out)@ + json_escape(s@),
{
    let v = chars_of(s);
    let mut i: usize = 0;
    while i < v.len()
        invariant
            0 <= i <= v@.len(),
            v@ == s@,
            out@ == old(out)@ + json_escape(s@.take(i as int)),
        decreases v.len() - i,
    {
        let c = v[i];
        let code = c as u32;
        let ghost before = out@;
        if c == '"' {
            out.push('\\');
            out.push('"');
        } else if c == '\\' {
            out.push('\\');
            out.push('\\');
        } else if code == 0x08 {
            out.push('\\');
            out.push('b');
        } else if code == 0x09 {
            out.push('\\');
            out.push('t');
        } else if code == 0x0a {
            out.push('\\');
            out.push('n');
        } else if code == 0x0c {
            out.push('\\');
            out.push('f');
        } else if code == 0x0d {
            out.push('\\');
            out.push('r');
        } else if code < 0x20 {
            out.push('\\');
            out.push('u');
            out.push('0');
            out.push('0');
            let hi = (code / 16) as u8;
            let lo = (code % 16) as u8;
            out.push((0x30u8 + hi) as char);
            if lo < 10 {
                out.push((0x30u8 + lo) as char);
            } else {
                out.push((0x61u8 + lo - 10) as char);
            }
        } else {
            out.push(c);
        }
        proof {
            assert(s@.take(i + 1).drop_last() =~= s@.take(i as int));
            assert(out@ =~= before + json_escaped_char(c));
        }
        i += 1;
    }
    assert(s@.take(v.len() as int) =~= s@);
}

/// The JSON body of a login: `{"right":"<right>","pass":"<password>"}`.
pub open spec fn login_body_text(right: Seq<char>, pass: Seq<char>) -> Seq<char> {
    "{\"right\":\""@ + json_escape(right) + "\",\"pass\":\""@ + json_escape(pass) + "\"}"@
}

/// The JSON body that logs in with the configured role and password.
pub fn login_body(right: &str, pass: &str) -> (r: String)
    ensures
        r@ == login_body_text(right@, pass@),
{
    let mut out: Vec<char> = Vec::new();
    push_str(&mut out, "{\"right\":\"");
    push_json_escaped(&mut out, right);
    push_str(&mut out, "\",\"pass\":\"");
    push_json_escaped(&mut out, pass);
    push_str(&mut out, "\"}");
    assert(out@ =~= login_body_text(right@, pass@));
    string_from_chars(out.as_slice())
}

/// The JSON body that sets the power limit to `watts`:
/// `{"destDev":[],"values":[{"6802_00866900":{"1":[<watts>]}}]}`.
pub open spec fn set_param_body_text(watts: u32) -> Seq<char> {
    "{\"destDev\":[],\"values\":[{\""@ + POWER_LIMIT_PARAM@ + "\":{\"1\":["@ + decimal_digits(
        watts as nat,
    ) + "]}}]}"@
}

/// The JSON body of a power-limit write.
pub fn set_param_body(watts: u32) -> (r: String)
    ensures
        r@ == set_param_body_text(watts),
{
    let mut out: Vec<char> = Vec::new();
    push_str(&mut out, "{\"destDev\":[],\"values\":[{\"");
    push_str(&mut out, POWER_LIMIT_PARAM);
    push_str(&mut out, "\":{\"1\":[");
    push_decimal(&mut out, watts as u64);
    push_str(&mut out, "]}}]}");
    assert(out@ =~= set_param_body_text(watts));
    string_from_chars(out.as_slice())
}

/// The JSON body of a power-limit read:
/// `{"destDev":[],"keys":["6802_00866900"]}`.
pub open spec fn get_values_body_text() -> Seq<char> {
    "{\"destDev\":[],\"keys\":[\""@ + POWER_LIMIT_PARAM@ + "\"]}"@
}

/// The JSON body of a power-limit read.
pub fn get_values_body() -> (r: String)
    ensures
        r@ == get_values_body_text(),
{
    let mut out: Vec<char> = Vec::new();
    push_str(&mut out, "{\"destDev\":[],\"keys\":[\"");
    push_str(&mut out, POWER_LIMIT_PARAM);
    push_str(&mut out, "\"]}");
    assert(out@ =~= get_values_body_text());
    string_from_chars(out.as_slice())
}

} // verus!

verus! {

/// The power-limit write carries the requested watts unchanged: between the
/// fixed framing of the request and its closing brackets stand decimal digits
/// that read back as `watts`, for every `watts`.
pub proof fn law_set_param_body_carries_watts(watts: u32)
    ensures
        exists|m: Seq<char>|
            {
                &&& set_param_body_text(watts) == "{\"destDev\":[],\"values\":[{\""@ + POWER_LIMIT_PARAM@
                    + "\":{\"1\":["@ + m + "]}}]}"@
                &&& m.len() >= 1
                &&& is_digit_text(m)
                &&& #[trigger] number_of(m) == watts
            },
{
    law_decimal_digits_read_back(watts as nat);
    let m = decimal_digits(watts as nat);
    assert(number_of(m) == watts);
}

} // verus!

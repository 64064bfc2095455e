//! The line protocol of remote outlets over TCP and the UDP datagram of
//! thermometers.

use vstd::prelude::*;

use crate::text::{find_char, slice_chars, str_eq, strip_prefix, trim, trim_text};
use crate::types::Temperature;

verus! {

/// `std::fmt::Debug` text of a string: quoted, with escapes. Depends on the
/// text alone.
pub uninterp spec fn debug_text(s: Seq<char>) -> Seq<char>;

/// Writes `s` as `{:?}` does (`<str as Debug>::fmt`).
#[verifier::external_body]
fn debug_quoted(s: &str) -> (r: String)
    ensures
        r@ == debug_text(s@),
{
    format!("{:?}", s)
}

/// Why a reply of a remote outlet was refused.
#[derive(Debug, Clone)]
pub enum WireError {
    /// The status line does not start with `STATUS,`.
    BadPrefix,
    /// The status line has no watts field.
    MissingWatts,
    /// The watts field is not a number; the parser's message.
    BadWatts(String),
    /// The on/off field is none of the accepted words.
    BadFlag(String),
    /// The outlet did not answer `OK`; its line.
    NotOk(String),
}

/// The message of a refusal.
pub open spec fn wire_error_message(e: WireError) -> Seq<char> {
    match e {
        WireError::BadPrefix => "bad STATUS prefix"@,
        WireError::MissingWatts => "STATUS missing watts"@,
        WireError::BadWatts(m) => m@,
        WireError::BadFlag(f) => "bad on/off flag: "@ + f@,
        WireError::NotOk(line) => "expected OK, got "@ + debug_text(line@),
    }
}

impl WireError {
    /// The human-readable message.
    pub fn message(&self) -> (r: String)
        ensures
            r@ == wire_error_message(*self),
    {
        match self {
            WireError::BadPrefix => "bad STATUS prefix".to_string(),
            WireError::MissingWatts => "STATUS missing watts".to_string(),
            WireError::BadWatts(m) => m.clone(),
            WireError::BadFlag(f) => {
                let mut s = "bad on/off flag: ".to_string();
                s.append(f.as_str());
                s
            },
            WireError::NotOk(line) => {
                let mut s = "expected OK, got ".to_string();
                let q = debug_quoted(line.as_str());
                s.append(q.as_str());
                s
            },
        }
    }
}

/// How a status line splits.
pub enum StatusSplit {
    /// No `STATUS,` prefix after trimming.
    NoPrefix,
    /// No comma after the prefix.
    NoWatts,
    /// The on/off field and the watts field.
    Fields(Seq<char>, Seq<char>),
}

/// The index of the first `c` in `s`, if any.
pub open spec fn first_index_of(s: Seq<char>, c: char) -> Option<int> {
    if s.contains(c) {
        Some(choose|i: int| 0 <= i < s.len() && s[i] == c && forall|j: int| 0 <= j < i ==> s[j] != c)
    } else {
        None
    }
}

/// The split of a status line: trimmed, `STATUS,` removed, then cut at the
/// first comma into the on/off field and the watts field.
pub open spec fn status_split(line: Seq<char>) -> StatusSplit {
    let t = trim_text(line);
    let p = "STATUS,"@;
    if p.len() <= t.len() && t.take(p.len() as int) == p {
        let rest = t.skip(p.len() as int);
        match first_index_of(rest, ',') {
            Some(i) => StatusSplit::Fields(rest.take(i), rest.skip(i + 1)),
            None => StatusSplit::NoWatts,
        }
    } else {
        StatusSplit::NoPrefix
    }
}

/// The on/off field and the (unparsed) watts field of a status line.
#[derive(Debug, Clone)]
pub struct StatusFields {
    pub flag: String,
    pub watts: String,
}

/// The value of an on/off field, if it is one of the accepted words.
pub open spec fn flag_value(f: Seq<char>) -> Option<bool> {
    if f == "1"@ || f == "on"@ || f == "ON"@ || f == "true"@ || f == "TRUE"@ {
        Some(true)
    } else if f == "0"@ || f == "off"@ || f == "OFF"@ || f == "false"@ || f == "FALSE"@ {
        Some(false)
    } else {
        None
    }
}

/// `STATUS,1,<watts>` or `STATUS,0,<watts>`, with a newline.
pub open spec fn status_line_text(is_on: bool, watts: Seq<char>) -> Seq<char> {
    "STATUS,"@ + (if is_on {
        "1"@
    } else {
        "0"@
    }) + ","@ + watts + "\n"@
}

/// The status line an outlet sends: `STATUS,<1|0>,<watts>` and a newline;
/// `watts` is the text of the watts value.
pub fn format_status_line(is_on: bool, watts: &str) -> (r: String)
    ensures
        r@ == status_line_text(is_on, watts@),
{
    let mut s = "STATUS,".to_string();
    if is_on {
        s.append("1");
    } else {
        s.append("0");
    }
    s.append(",");
    s.append(watts);
    s.append("\n");
    s
}

/// Splits a status line into its on/off field and its watts field.
pub fn parse_status_line(line: &str) -> (r: Result<StatusFields, WireError>)
    ensures
        match r {
            Ok(f) => status_split(line@) == StatusSplit::Fields(f.flag@, f.watts@),
            Err(WireError::BadPrefix) => status_split(line@) == StatusSplit::NoPrefix,
            Err(WireError::MissingWatts) => status_split(line@) == StatusSplit::NoWatts,
            Err(_) => false,
        },
{
    let t = trim(line);
    match strip_prefix(t, "STATUS,") {
        None => Err(WireError::BadPrefix),
        Some(rest) => {
            proof {
                assert(t@.take("STATUS,"@.len() as int) =~= "STATUS,"@);
                assert(t@.skip("STATUS,"@.len() as int) =~= rest@);
            }
            match find_char(rest, ',') {
                None => Err(WireError::MissingWatts),
                Some(i) => {
                    let n = rest.unicode_len();
                    let flag = slice_chars(rest, 0, i).to_string();
                    let watts = slice_chars(rest, i + 1, n).to_string();
                    proof {
                        assert(rest@.contains(','));
                        let c = choose|c: int| 0 <= c < rest@.len() && rest@[c] == ',' && forall|j: int| 0 <= j < c ==> rest@[j] != ',';
                        if c < i {
                            assert(rest@[c] != ',');
                        } else if c > i {
                            assert(rest@[i as int] != ',');
                        }
                        assert(rest@.take(i as int) =~= flag@);
                        assert(rest@.skip(i + 1) =~= watts@);
                    }
                    Ok(StatusFields { flag, watts })
                },
            }
        },
    }
}

/// Reads an on/off field.
pub fn decode_flag(flag: &str) -> (r: Option<bool>)
    ensures
        r == flag_value(flag@),
{
    if str_eq(flag, "1") || str_eq(flag, "on") || str_eq(flag, "ON") || str_eq(flag, "true")
        || str_eq(flag, "TRUE") {
        Some(true)
    } else if str_eq(flag, "0") || str_eq(flag, "off") || str_eq(flag, "OFF") || str_eq(flag, "false")
        || str_eq(flag, "FALSE") {
        Some(false)
    } else {
        None
    }
}

/// Completes the reading of a status line from its fields and the outcome
/// of reading the watts field as a number (its bit pattern, or the message
/// of the number parser): a bad number is reported first, then a bad flag.
pub fn finish_status(fields: &StatusFields, watts: Result<u32, String>) -> (r: Result<(bool, u32), WireError>)
    ensures
        match watts {
            Err(m) => r matches Err(WireError::BadWatts(x)) && x@ == m@,
            Ok(w) => match flag_value(fields.flag@) {
                Some(on) => r == Ok::<(bool, u32), WireError>((on, w)),
                None => r matches Err(WireError::BadFlag(f)) && f@ == fields.flag@,
            },
        },
{
    match watts {
        Err(m) => Err(WireError::BadWatts(m)),
        Ok(w) => match decode_flag(fields.flag.as_str()) {
            Some(on) => Ok((on, w)),
            None => Err(WireError::BadFlag(fields.flag.clone())),
        },
    }
}

/// Accepts an `OK` reply (surrounding white space ignored).
pub fn check_ok_reply(line: &str) -> (r: Result<(), WireError>)
    ensures
        match r {
            Ok(_) => trim_text(line@) == "OK"@,
            Err(e) => {
                &&& trim_text(line@) != "OK"@
                &&& e matches WireError::NotOk(l) && l@ == line@
            },
        },
{
    if str_eq(trim(line), "OK") {
        Ok(())
    } else {
        Err(WireError::NotOk(line.to_string()))
    }
}

/// `line` followed by a newline, unless it already ends with one.
pub open spec fn framed_text(line: Seq<u8>) -> Seq<u8> {
    if line.len() > 0 && line.last() == 10u8 {
        line
    } else {
        line.push(10u8)
    }
}

/// The bytes a command or reply line is sent as.
pub fn frame_line(line: &[u8]) -> (r: Vec<u8>)
    ensures
        r@ == framed_text(line@),
{
    let mut out: Vec<u8> = Vec::new();
    let n = line.len();
    let mut i: usize = 0;
    while i < n
        invariant
            n == line@.len(),
            i <= n,
            out@ == line@.take(i as int),
        decreases n - i,
    {
        out.push(line[i]);
        i = i + 1;
        assert(out@ =~= line@.take(i as int));
    }
    assert(out@ =~= line@);
    if n == 0 || line[n - 1] != 10u8 {
        out.push(10u8);
    }
    out
}

/// The little-endian bytes of a 32-bit pattern.
pub open spec fn le_bytes(bits: u32) -> Seq<u8> {
    seq![
        (bits % 0x100) as u8,
        ((bits / 0x100) % 0x100) as u8,
        ((bits / 0x1_0000) % 0x100) as u8,
        (bits / 0x100_0000) as u8,
    ]
}

/// The 32-bit pattern of four little-endian bytes.
pub open spec fn le_value(b: Seq<u8>) -> u32 {
    (b[0] + 0x100 * b[1] + 0x1_0000 * b[2] + 0x100_0000 * b[3]) as u32
}

/// UDP payload of a reading: the 4 little-endian bytes of the bit pattern
/// of the temperature in degrees Celsius.
pub fn encode_temperature_celsius(celsius: u32) -> (r: [u8; 4])
    ensures
        r@ == le_bytes(celsius),
{
    let r = [
        (celsius % 0x100) as u8,
        ((celsius / 0x100) % 0x100) as u8,
        ((celsius / 0x1_0000) % 0x100) as u8,
        (celsius / 0x100_0000) as u8,
    ];
    assert(r@ =~= le_bytes(celsius));
    r
}

/// The reading in a UDP payload: its first 4 bytes, little-endian; a
/// payload shorter than 4 bytes holds none.
pub fn decode_temperature_celsius(buf: &[u8]) -> (r: Option<Temperature>)
    ensures
        match r {
            Some(t) => buf@.len() >= 4 && t@ == le_value(buf@),
            None => buf@.len() < 4,
        },
{
    if buf.len() < 4 {
        return None;
    }
    let b0 = buf[0] as u32;
    let b1 = buf[1] as u32;
    let b2 = buf[2] as u32;
    let b3 = buf[3] as u32;
    let v = b0 + 0x100 * b1 + 0x1_0000 * b2 + 0x100_0000 * b3;
    Some(Temperature::celsius(v))
}

/// A command line sent to a remote outlet.
#[derive(Debug, Clone, Copy, PartialEq, Eq, Structural)]
pub enum Command {
    /// Ask for `STATUS,<flag>,<watts>`.
    GetStatus,
    /// Switch the outlet on; it answers `OK`.
    SetOn,
    /// Switch the outlet off; it answers `OK`.
    SetOff,
}

/// The text of a command line (without the newline).
pub open spec fn command_text(c: Command) -> Seq<char> {
    match c {
        Command::GetStatus => "GET_STATUS"@,
        Command::SetOn => "SET_ON"@,
        Command::SetOff => "SET_OFF"@,
    }
}

impl Command {
    /// The text of the command line (without the newline).
    pub fn text(&self) -> (r: &'static str)
        ensures
            r@ == command_text(*self),
    {
        match self {
            Command::GetStatus => "GET_STATUS",
            Command::SetOn => "SET_ON",
            Command::SetOff => "SET_OFF",
        }
    }
}

} // verus!

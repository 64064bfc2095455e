//! The decisions of the two simulators: the outlet that answers the line
//! protocol over TCP, and the thermometer that sends readings over UDP.
//! Sockets, timers and the formatting of floating-point values stay with the
//! programs that run them.

use vstd::prelude::*;

use crate::text::{find_char, slice_chars, str_eq, trim, trim_text};
use crate::wire::{format_status_line, status_line_text};

verus! {

/// The text `String::from_utf8_lossy` makes of `bytes`: the bytes decoded as
/// UTF-8, each invalid sequence replaced by U+FFFD. Depends on the bytes alone.
pub uninterp spec fn utf8_lossy_text(bytes: Seq<u8>) -> Seq<char>;

/// Decodes `bytes` as `String::from_utf8_lossy` does.
#[verifier::external_body]
fn decode_lossy(bytes: &[u8]) -> (r: String)
    ensures
        r@ == utf8_lossy_text(bytes@),
{
    String::from_utf8_lossy(bytes).into_owned()
}

/// The outlet simulated: its switch and its nominal power (the bit pattern
/// of a value in watts).
#[derive(Debug, Clone, Copy)]
pub struct OutletState {
    pub is_on: bool,
    pub nominal_watts: u32,
}

/// The power an outlet draws: its nominal power when on, zero when off.
pub open spec fn watts_now_spec(s: OutletState) -> u32 {
    if s.is_on {
        s.nominal_watts
    } else {
        0u32
    }
}

impl OutletState {
    /// The power drawn now: the nominal power when on, zero when off.
    pub fn watts_now(&self) -> (r: u32)
        ensures
            r == watts_now_spec(*self),
    {
        if self.is_on {
            self.nominal_watts
        } else {
            0
        }
    }
}

/// The answer to one command line.
#[derive(Debug, Clone)]
pub enum Reply {
    /// `STATUS,<1|0>,<watts>`: the switch and the power drawn (its text is
    /// made by whoever formats the value).
    Status { is_on: bool, watts: u32 },
    /// Any other line: `OK` or `ERR unknown command: <line>`.
    Line(String),
}

/// What a reply says.
pub enum ReplyView {
    Status(bool, u32),
    Line(Seq<char>),
}

impl View for Reply {
    type V = ReplyView;

    open spec fn view(&self) -> ReplyView {
        match self {
            Reply::Status { is_on, watts } => ReplyView::Status(*is_on, *watts),
            Reply::Line(s) => ReplyView::Line(s@),
        }
    }
}

/// The switch after the (trimmed) command `cmd`.
pub open spec fn switch_after(on: bool, cmd: Seq<char>) -> bool {
    if cmd == "SET_ON"@ {
        true
    } else if cmd == "SET_OFF"@ {
        false
    } else {
        on
    }
}

/// The answer to the (trimmed) command `cmd` from outlet `s`; an empty line
/// gets none.
pub open spec fn reply_to(s: OutletState, cmd: Seq<char>) -> Option<ReplyView> {
    if cmd == "GET_STATUS"@ {
        Some(ReplyView::Status(s.is_on, watts_now_spec(s)))
    } else if cmd == "SET_ON"@ || cmd == "SET_OFF"@ {
        Some(ReplyView::Line("OK"@))
    } else if cmd.len() == 0 {
        None
    } else {
        Some(ReplyView::Line("ERR unknown command: "@ + cmd))
    }
}

/// Handles one command line (surrounding white space ignored): `GET_STATUS`
/// reports, `SET_ON` and `SET_OFF` switch and answer `OK`, an empty line is
/// ignored and anything else is answered with an error line.
pub fn handle_command(state: &mut OutletState, line: &str) -> (r: Option<Reply>)
    ensures
        final(state).nominal_watts == old(state).nominal_watts,
        final(state).is_on == switch_after(old(state).is_on, trim_text(line@)),
        match r {
            Some(x) => reply_to(*old(state), trim_text(line@)) == Some(x@),
            None => reply_to(*old(state), trim_text(line@)) is None,
        },
{
    proof {
        reveal_strlit("GET_STATUS");
        reveal_strlit("SET_ON");
        reveal_strlit("SET_OFF");
        assert("GET_STATUS"@.len() != "SET_ON"@.len());
        assert("GET_STATUS"@.len() != "SET_OFF"@.len());
        assert("SET_ON"@.len() != "SET_OFF"@.len());
    }
    let cmd = trim(line);
    if str_eq(cmd, "GET_STATUS") {
        Some(Reply::Status { is_on: state.is_on, watts: state.watts_now() })
    } else if str_eq(cmd, "SET_ON") {
        state.is_on = true;
        Some(Reply::Line("OK".to_string()))
    } else if str_eq(cmd, "SET_OFF") {
        state.is_on = false;
        Some(Reply::Line("OK".to_string()))
    } else if cmd.unicode_len() == 0 {
        None
    } else {
        let mut m = "ERR unknown command: ".to_string();
        m.append(cmd);
        Some(Reply::Line(m))
    }
}

/// The line a reply is sent as (without its newline); `watts` is the text
/// of the power drawn, for a status reply.
pub open spec fn reply_line_text(reply: ReplyView, watts: Seq<char>) -> Seq<char> {
    match reply {
        ReplyView::Status(on, _) => trim_text(status_line_text(on, watts)),
        ReplyView::Line(s) => s,
    }
}

/// The line a reply is sent as (without its newline); `watts` is the text
/// of the power drawn, for a status reply.
pub fn reply_line(reply: &Reply, watts: &str) -> (r: String)
    ensures
        r@ == reply_line_text(reply@, watts@),
{
    match reply {
        Reply::Status { is_on, watts: _ } => {
            let line = format_status_line(*is_on, watts);
            trim(line.as_str()).to_string()
        },
        Reply::Line(s) => s.clone(),
    }
}

/// The index of the first newline byte of `b`, if any.
pub open spec fn newline_index(b: Seq<u8>) -> Option<int>
    decreases b.len(),
{
    if b.len() == 0 {
        None
    } else if b[0] == 10u8 {
        Some(0)
    } else {
        match newline_index(b.drop_first()) {
            Some(i) => Some(i + 1),
            None => None,
        }
    }
}

/// The first newline of `b`, when there is one, lies inside `b` with no
/// newline before it.
pub proof fn lemma_newline_index(b: Seq<u8>)
    ensures
        match newline_index(b) {
            Some(i) => 0 <= i < b.len() && b[i] == 10u8 && forall|j: int| 0 <= j < i ==> b[j] != 10u8,
            None => forall|j: int| 0 <= j < b.len() ==> b[j] != 10u8,
        },
    decreases b.len(),
{
    if b.len() > 0 && b[0] != 10u8 {
        let t = b.drop_first();
        lemma_newline_index(t);
        assert forall|j: int| 1 <= j < b.len() implies b[j] == t[j - 1] by {}
    }
}

/// Takes the first complete line out of `buf`: the bytes before the first
/// newline come back, and `buf` keeps what follows that newline. Without a
/// newline, nothing is taken.
pub fn take_line(buf: &mut Vec<u8>) -> (r: Option<Vec<u8>>)
    ensures
        match newline_index(old(buf)@) {
            Some(i) => r matches Some(line) && line@ == old(buf)@.take(i) && final(buf)@ == old(
                buf,
            )@.skip(i + 1),
            None => r is None && final(buf)@ == old(buf)@,
        },
{
    let n = buf.len();
    let mut i: usize = 0;
    while i < n
        invariant
            n == buf@.len(),
            buf@ == old(buf)@,
            i <= n,
            forall|j: int| 0 <= j < i ==> buf@[j] != 10u8,
        decreases n - i,
    {
        if buf[i] == 10u8 {
            let ghost all = buf@;
            proof {
                lemma_newline_index(all);
                match newline_index(all) {
                    Some(c) => {
                        if c < i {
                            assert(all[c] != 10u8);
                        } else if c > i {
                            assert(all[i as int] != 10u8);
                        }
                    },
                    None => {
                        assert(all[i as int] == 10u8);
                    },
                }
            }
            let mut line: Vec<u8> = Vec::new();
            let mut k: usize = 0;
            while k < i
                invariant
                    buf@ == all,
                    k <= i < all.len(),
                    line@ == all.take(k as int),
                decreases i - k,
            {
                line.push(buf[k]);
                k = k + 1;
                assert(line@ =~= all.take(k as int));
            }
            let mut rest: Vec<u8> = Vec::new();
            let mut k: usize = i + 1;
            while k < n
                invariant
                    buf@ == all,
                    n == all.len(),
                    i < k <= n,
                    rest@ == all.subrange(i + 1, k as int),
                decreases n - k,
            {
                rest.push(buf[k]);
                k = k + 1;
                assert(rest@ =~= all.subrange(i + 1, k as int));
            }
            assert(rest@ =~= all.skip(i + 1));
            *buf = rest;
            return Some(line);
        }
        i = i + 1;
    }
    proof {
        lemma_newline_index(buf@);
        if let Some(c) = newline_index(buf@) {
            assert(buf@[c] != 10u8);
        }
    }
    None
}

/// What a sequence of replies says.
pub open spec fn reply_views(s: Seq<Reply>) -> Seq<ReplyView> {
    s.map_values(|x: Reply| x@)
}

/// Unfolds `drained` once, at the first newline.
proof fn lemma_drained_step(on: bool, nominal: u32, b: Seq<u8>, i: int)
    requires
        newline_index(b) == Some(i),
    ensures
        0 <= i < b.len(),
        drained(on, nominal, b) == ({
            let cmd = trim_text(utf8_lossy_text(b.take(i)));
            let first: Seq<ReplyView> = match reply_to(OutletState { is_on: on, nominal_watts: nominal }, cmd) {
                Some(x) => seq![x],
                None => seq![],
            };
            let d = drained(switch_after(on, cmd), nominal, b.skip(i + 1));
            (d.0, first + d.1, d.2)
        }),
{
    lemma_newline_index(b);
}

/// What handling every complete line of `b` does, from the switch `on`: the
/// switch after the last line, the replies in order, and the bytes left
/// after the last newline.
pub open spec fn drained(on: bool, nominal: u32, b: Seq<u8>) -> (bool, Seq<ReplyView>, Seq<u8>)
    decreases b.len(),
{
    match newline_index(b) {
        Some(i) => if 0 <= i < b.len() {
            let cmd = trim_text(utf8_lossy_text(b.take(i)));
            let s = OutletState { is_on: on, nominal_watts: nominal };
            let first: Seq<ReplyView> = match reply_to(s, cmd) {
                Some(x) => seq![x],
                None => seq![],
            };
            let (on2, replies, rest) = drained(switch_after(on, cmd), nominal, b.skip(i + 1));
            (on2, first + replies, rest)
        } else {
            (on, seq![], b)
        },
        None => (on, seq![], b),
    }
}

/// Handles every complete line in `buf`, in order, and leaves in `buf` the
/// bytes after the last newline; gives the replies in order.
pub fn drain_lines(buf: &mut Vec<u8>, state: &mut OutletState) -> (r: Vec<Reply>)
    ensures
        final(state).nominal_watts == old(state).nominal_watts,
        final(state).is_on == drained(old(state).is_on, old(state).nominal_watts, old(buf)@).0,
        reply_views(r@) == drained(old(state).is_on, old(state).nominal_watts, old(buf)@).1,
        final(buf)@ == drained(old(state).is_on, old(state).nominal_watts, old(buf)@).2,
{
    let ghost on0 = state.is_on;
    let ghost b0 = buf@;
    let nominal = state.nominal_watts;
    let mut out: Vec<Reply> = Vec::new();
    assert(reply_views(out@) =~= Seq::<ReplyView>::empty());
    loop
        invariant
            state.nominal_watts == nominal,
            nominal == old(state).nominal_watts,
            on0 == old(state).is_on,
            b0 == old(buf)@,
            drained(on0, nominal, b0).0 == drained(state.is_on, nominal, buf@).0,
            drained(on0, nominal, b0).1 == reply_views(out@) + drained(state.is_on, nominal, buf@).1,
            drained(on0, nominal, b0).2 == drained(state.is_on, nominal, buf@).2,
        decreases buf@.len(),
    {
        let ghost on1 = state.is_on;
        let ghost b1 = buf@;
        let ghost before = reply_views(out@);
        proof {
            lemma_newline_index(b1);
        }
        match take_line(buf) {
            None => {
                assert(reply_views(out@) + drained(on1, nominal, b1).1 =~= reply_views(out@));
                return out;
            },
            Some(line) => {
                let ghost i = newline_index(b1)->0;
                proof {
                    lemma_drained_step(on1, nominal, b1, i);
                }
                let text = decode_lossy(line.as_slice());
                let reply = handle_command(state, text.as_str());
                match reply {
                    Some(x) => {
                        out.push(x);
                    },
                    None => {},
                }
                proof {
                    let cmd = trim_text(utf8_lossy_text(b1.take(i)));
                    let first: Seq<ReplyView> = match reply_to(
                        OutletState { is_on: on1, nominal_watts: nominal },
                        cmd,
                    ) {
                        Some(x) => seq![x],
                        None => seq![],
                    };
                    assert(reply_views(out@) =~= before + first);
                    let d = drained(state.is_on, nominal, buf@);
                    assert(before + (first + d.1) =~= (before + first) + d.1);
                }
            },
        }
    }
}

/// The index of the first `c` in `s`, if any.
pub open spec fn char_index(s: Seq<char>, c: char) -> Option<int>
    decreases s.len(),
{
    if s.len() == 0 {
        None
    } else if s[0] == c {
        Some(0)
    } else {
        match char_index(s.drop_first(), c) {
            Some(i) => Some(i + 1),
            None => None,
        }
    }
}

/// The first `c` of `s`, when there is one, lies inside `s` with no `c`
/// before it.
pub proof fn lemma_char_index(s: Seq<char>, c: char)
    ensures
        match char_index(s, c) {
            Some(i) => 0 <= i < s.len() && s[i] == c && forall|j: int| 0 <= j < i ==> s[j] != c,
            None => forall|j: int| 0 <= j < s.len() ==> s[j] != c,
        },
    decreases s.len(),
{
    if s.len() > 0 && s[0] != c {
        let t = s.drop_first();
        lemma_char_index(t, c);
        assert forall|j: int| 1 <= j < s.len() implies s[j] == t[j - 1] by {}
    }
}

/// A line that is kept: one that is not empty.
pub open spec fn kept(t: Seq<char>) -> Seq<Seq<char>> {
    if t.len() == 0 {
        seq![]
    } else {
        seq![t]
    }
}

/// The lines of `s` (cut at each newline), each trimmed, the empty ones left out.
pub open spec fn config_lines_text(s: Seq<char>) -> Seq<Seq<char>>
    decreases s.len(),
{
    match char_index(s, '\n') {
        Some(i) => if 0 <= i < s.len() {
            kept(trim_text(s.take(i))) + config_lines_text(s.skip(i + 1))
        } else {
            seq![]
        },
        None => kept(trim_text(s)),
    }
}

/// The texts of a sequence of strings.
pub open spec fn texts(s: Seq<String>) -> Seq<Seq<char>> {
    s.map_values(|x: String| x@)
}

/// The lines of a configuration text, each trimmed, the empty ones left out.
pub fn config_lines(text: &str) -> (r: Vec<String>)
    ensures
        texts(r@) == config_lines_text(text@),
{
    let mut out: Vec<String> = Vec::new();
    let mut rest: &str = text;
    assert(texts(out@) =~= Seq::<Seq<char>>::empty());
    loop
        invariant
            config_lines_text(text@) == texts(out@) + config_lines_text(rest@),
        decreases rest@.len(),
    {
        let ghost before = texts(out@);
        proof {
            lemma_char_index(rest@, '\n');
        }
        match find_char(rest, '\n') {
            None => {
                let line = trim(rest);
                proof {
                    if let Some(c) = char_index(rest@, '\n') {
                        assert(rest@[c] != '\n');
                    }
                }
                if line.unicode_len() > 0 {
                    out.push(line.to_string());
                }
                assert(texts(out@) =~= before + kept(line@));
                return out;
            },
            Some(i) => {
                proof {
                    match char_index(rest@, '\n') {
                        Some(c) => {
                            if c < i {
                                assert(rest@[c] != '\n');
                            } else if c > i {
                                assert(rest@[i as int] != '\n');
                            }
                        },
                        None => {
                            assert(rest@[i as int] == '\n');
                        },
                    }
                }
                let n = rest.unicode_len();
                let line = trim(slice_chars(rest, 0, i));
                let next = slice_chars(rest, i + 1, n);
                assert(rest@.subrange(0, i as int) =~= rest@.take(i as int));
                assert(rest@.subrange(i + 1, n as int) =~= rest@.skip(i + 1));
                if line.unicode_len() > 0 {
                    out.push(line.to_string());
                }
                proof {
                    assert(texts(out@) =~= before + kept(line@));
                    assert(before + (kept(line@) + config_lines_text(next@)) =~= (before + kept(line@))
                        + config_lines_text(next@));
                }
                rest = next;
            },
        }
    }
}

/// `s` holds one or more ASCII digits and nothing else.
pub open spec fn all_digits(s: Seq<char>) -> bool {
    s.len() > 0 && forall|i: int| 0 <= i < s.len() ==> '0' <= #[trigger] s[i] <= '9'
}

/// The value of a text of decimal digits.
pub open spec fn digits_value(s: Seq<char>) -> nat
    decreases s.len(),
{
    if s.len() == 0 {
        0
    } else {
        digits_value(s.drop_last()) * 10 + ((s.last() as nat) - ('0' as nat)) as nat
    }
}

/// The value `u64::from_str` reads from `s`: an optional `+` and then
/// decimal digits only, of a value that fits in 64 bits.
pub open spec fn u64_text_value(s: Seq<char>) -> Option<u64> {
    let d = if s.len() > 0 && s[0] == '+' {
        s.drop_first()
    } else {
        s
    };
    if all_digits(d) && digits_value(d) <= u64::MAX {
        Some(digits_value(d) as u64)
    } else {
        None
    }
}

/// The message of the `ParseIntError` that `u64::from_str` gives for `s`
/// (its `Display` text). Depends on the text alone.
pub uninterp spec fn int_error_text(s: Seq<char>) -> Seq<char>;

/// Reads a `u64` as `str::parse::<u64>` does; a refusal comes with the
/// parser's message.
#[verifier::external_body]
fn parse_u64(s: &str) -> (r: Result<u64, String>)
    ensures
        match r {
            Ok(v) => u64_text_value(s@) == Some(v),
            Err(m) => u64_text_value(s@) is None && m@ == int_error_text(s@),
        },
{
    match s.parse::<u64>() {
        Ok(v) => Ok(v),
        Err(e) => Err(e.to_string()),
    }
}

/// Why a thermometer configuration was refused.
#[derive(Debug, Clone)]
pub enum ConfigError {
    /// No line at all.
    MissingDestination,
    /// The destination is not a socket address; the parser's message.
    BadDestination(String),
    /// No second line.
    MissingPeriod,
    /// The period is not a number of milliseconds; the parser's message.
    BadPeriod(String),
    /// The fixed temperature is not a number; the parser's message.
    BadTemperature(String),
}

/// The message of a refusal.
pub open spec fn config_error_text(e: ConfigError) -> Seq<char> {
    match e {
        ConfigError::MissingDestination => "missing destination line"@,
        ConfigError::BadDestination(m) => "invalid destination: "@ + m@,
        ConfigError::MissingPeriod => "missing period line"@,
        ConfigError::BadPeriod(m) => "invalid period ms: "@ + m@,
        ConfigError::BadTemperature(m) => "invalid temperature: "@ + m@,
    }
}

impl ConfigError {
    /// The human-readable message.
    pub fn message(&self) -> (r: String)
        ensures
            r@ == config_error_text(*self),
    {
        match self {
            ConfigError::MissingDestination => "missing destination line".to_string(),
            ConfigError::BadDestination(m) => {
                let mut s = "invalid destination: ".to_string();
                s.append(m.as_str());
                s
            },
            ConfigError::MissingPeriod => "missing period line".to_string(),
            ConfigError::BadPeriod(m) => {
                let mut s = "invalid period ms: ".to_string();
                s.append(m.as_str());
                s
            },
            ConfigError::BadTemperature(m) => {
                let mut s = "invalid temperature: ".to_string();
                s.append(m.as_str());
                s
            },
        }
    }
}

/// The period between readings, in milliseconds, from its configuration line.
pub fn period_ms(line: &str) -> (r: Result<u64, ConfigError>)
    ensures
        match r {
            Ok(v) => u64_text_value(line@) == Some(v),
            Err(e) => {
                &&& u64_text_value(line@) is None
                &&& e matches ConfigError::BadPeriod(m) && m@ == int_error_text(line@)
            },
        },
{
    match parse_u64(line) {
        Ok(v) => Ok(v),
        Err(m) => Err(ConfigError::BadPeriod(m)),
    }
}

/// The seed of the reading sent at `tick` when no temperature is fixed: a
/// number below 10000 (the reading is 18 degrees plus 8 times its
/// ten-thousandth).
pub fn reading_seed(tick: u64) -> (r: u64)
    ensures
        r == ((((tick as int) * 6364136223846793005int) % 0x1_0000_0000_0000_0000int) as u64
            ^ 0x9E37_79B9u64) % 10_000,
        r < 10_000,
{
    (tick.wrapping_mul(6364136223846793005) ^ 0x9E37_79B9) % 10_000
}

/// What one command-line argument of the outlet simulator asks for.
#[derive(Debug, Clone)]
pub enum ArgStep {
    /// `--on`: start switched on.
    On,
    /// `--off`: start switched off.
    Off,
    /// `--watts <W>`: the nominal power, as text (the next argument).
    Watts(String),
    /// Refused, with the message.
    Fail(String),
}

/// The meaning of argument `arg`, given the argument after it (`next`).
pub open spec fn arg_meaning(arg: Seq<char>, next: Option<Seq<char>>, step: ArgStep) -> bool {
    if arg == "--watts"@ {
        match next {
            Some(v) => step matches ArgStep::Watts(w) && w@ == v,
            None => step matches ArgStep::Fail(m) && m@ == "--watts needs a value"@,
        }
    } else if arg == "--on"@ {
        step is On
    } else if arg == "--off"@ {
        step is Off
    } else {
        step matches ArgStep::Fail(m) && m@ == "unknown arg: "@ + arg
    }
}

/// Reads argument `arg` of the outlet simulator; `next` is the argument
/// after it, which `--watts` takes as its value.
pub fn arg_step(arg: &str, next: Option<&str>) -> (r: ArgStep)
    ensures
        arg_meaning(arg@, match next {
            Some(v) => Some(v@),
            None => None,
        }, r),
{
    if str_eq(arg, "--watts") {
        match next {
            Some(v) => ArgStep::Watts(v.to_string()),
            None => ArgStep::Fail("--watts needs a value".to_string()),
        }
    } else if str_eq(arg, "--on") {
        ArgStep::On
    } else if str_eq(arg, "--off") {
        ArgStep::Off
    } else {
        let mut m = "unknown arg: ".to_string();
        m.append(arg);
        ArgStep::Fail(m)
    }
}

/// The outcome of reading the simulator's options: the switch set last,
/// the texts given to `--watts` in order, and the first refusal (reading
/// stops there).
#[derive(Debug, Clone)]
pub struct ArgScan {
    pub is_on: bool,
    pub watts: Vec<String>,
    pub fail: Option<String>,
}

/// Reads `args` from position `i`, with the switch `on` and the watts texts
/// `watts` gathered so far: the switch, all watts texts, and the refusal.
pub open spec fn scan_from(
    args: Seq<Seq<char>>,
    i: int,
    on: bool,
    watts: Seq<Seq<char>>,
) -> (bool, Seq<Seq<char>>, Option<Seq<char>>)
    decreases args.len() - i,
{
    if i < 0 || i >= args.len() {
        (on, watts, None)
    } else if args[i] == "--watts"@ {
        if i + 1 < args.len() {
            scan_from(args, i + 2, on, watts.push(args[i + 1]))
        } else {
            (on, watts, Some("--watts needs a value"@))
        }
    } else if args[i] == "--on"@ {
        scan_from(args, i + 1, true, watts)
    } else if args[i] == "--off"@ {
        scan_from(args, i + 1, false, watts)
    } else {
        (on, watts, Some("unknown arg: "@ + args[i]))
    }
}

/// Reads the simulator's options (the arguments after the bind address),
/// from left to right: `--on` and `--off` set the switch (off at first),
/// `--watts` takes the next argument as a watts text, anything else stops
/// the reading with its refusal. A watts text is read as a number by the
/// caller, each in order, before a refusal is reported.
pub fn scan_args(args: &[String]) -> (r: ArgScan)
    ensures
        ({
            let s = scan_from(texts(args@), 0, false, seq![]);
            &&& r.is_on == s.0
            &&& texts(r.watts@) == s.1
            &&& match s.2 {
                Some(m) => r.fail matches Some(f) && f@ == m,
                None => r.fail is None,
            }
        }),
{
    let ghost all = texts(args@);
    let n = args.len();
    let mut i: usize = 0;
    let mut is_on = false;
    let mut watts: Vec<String> = Vec::new();
    assert(texts(watts@) =~= Seq::<Seq<char>>::empty());
    while i < n
        invariant
            n == args@.len(),
            all == texts(args@),
            i <= n,
            scan_from(all, 0, false, seq![]) == scan_from(all, i as int, is_on, texts(watts@)),
        decreases n - i,
    {
        let next: Option<&str> = if i + 1 < n {
            Some(args[i + 1].as_str())
        } else {
            None
        };
        let step = arg_step(args[i].as_str(), next);
        proof {
            reveal_strlit("--watts");
            reveal_strlit("--on");
            reveal_strlit("--off");
            assert("--watts"@.len() != "--on"@.len() && "--watts"@.len() != "--off"@.len());
            assert("--on"@.len() != "--off"@.len());
            assert(all[i as int] == args@[i as int]@);
            if i + 1 < n {
                assert(all[i + 1] == args@[i + 1]@);
            }
        }
        match step {
            ArgStep::On => {
                is_on = true;
                i = i + 1;
            },
            ArgStep::Off => {
                is_on = false;
                i = i + 1;
            },
            ArgStep::Watts(w) => {
                let ghost before = texts(watts@);
                watts.push(w);
                assert(texts(watts@) =~= before.push(all[i + 1]));
                i = i + 2;
            },
            ArgStep::Fail(m) => {
                return ArgScan { is_on, watts, fail: Some(m) };
            },
        }
    }
    ArgScan { is_on, watts, fail: None }
}

/// The lines of a thermometer configuration that matter: the destination,
/// and the period and fixed temperature when given.
#[derive(Debug, Clone)]
pub struct ConfigParts {
    pub dest: String,
    pub period: Option<String>,
    pub fixed: Option<String>,
}

/// The `i`-th kept line of `lines`, if there is one.
pub open spec fn line_at(lines: Seq<Seq<char>>, i: int) -> Option<Seq<char>> {
    if 0 <= i < lines.len() {
        Some(lines[i])
    } else {
        None
    }
}

/// The parts of a configuration text: its kept lines (see `config_lines`)
/// in order. A text without any is refused.
pub fn config_parts(text: &str) -> (r: Result<ConfigParts, ConfigError>)
    ensures
        ({
            let lines = config_lines_text(text@);
            match r {
                Ok(p) => {
                    &&& lines.len() > 0
                    &&& p.dest@ == lines[0]
                    &&& match p.period {
                        Some(x) => line_at(lines, 1) == Some(x@),
                        None => line_at(lines, 1) is None,
                    }
                    &&& match p.fixed {
                        Some(x) => line_at(lines, 2) == Some(x@),
                        None => line_at(lines, 2) is None,
                    }
                },
                Err(e) => lines.len() == 0 && e is MissingDestination,
            }
        }),
{
    let mut lines = config_lines(text);
    let ghost all = texts(lines@);
    if lines.len() == 0 {
        return Err(ConfigError::MissingDestination);
    }
    let fixed = if lines.len() > 2 {
        let x = lines.remove(2);
        Some(x)
    } else {
        None
    };
    let period = if lines.len() > 1 {
        let x = lines.remove(1);
        Some(x)
    } else {
        None
    };
    let dest = lines.remove(0);
    assert(dest@ == all[0]);
    Ok(ConfigParts { dest, period, fixed })
}

/// The period between readings, in milliseconds: a missing period line is
/// refused, and so is a line that is not a number.
pub fn config_period(parts: &ConfigParts) -> (r: Result<u64, ConfigError>)
    ensures
        match parts.period {
            None => r matches Err(e) && e is MissingPeriod,
            Some(line) => match r {
                Ok(v) => u64_text_value(line@) == Some(v),
                Err(e) => {
                    &&& u64_text_value(line@) is None
                    &&& e matches ConfigError::BadPeriod(m) && m@ == int_error_text(line@)
                },
            },
        },
{
    match &parts.period {
        None => Err(ConfigError::MissingPeriod),
        Some(line) => period_ms(line.as_str()),
    }
}

} // verus!

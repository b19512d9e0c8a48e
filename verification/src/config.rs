//! The process-wide configuration and how command-line values fill it.

use crate::credentials::{byte_len, hashable};
use crate::ids::{draw_secret, is_hyphenated_uuid};
use crate::text::{copy_text, text_of};
use vstd::prelude::*;
use vstd::string::{StrSliceExecFns, StringExecFns};

verus! {

/// The colour of a log line's marker.
#[derive(Debug, Clone, Copy, PartialEq, Eq, Structural)]
pub enum Color {
    Green,
    Yellow,
    Blue,
    Purple,
}

impl Color {
    /// The number of the colour in a terminal's escape sequence.
    pub open spec fn code_spec(self) -> Seq<char> {
        match self {
            Color::Green => "32"@,
            Color::Yellow => "33"@,
            Color::Blue => "34"@,
            Color::Purple => "35"@,
        }
    }

    /// Computes [`Color::code_spec`].
    pub fn code(self) -> (c: &'static str)
        ensures
            c@ == self.code_spec(),
    {
        match self {
            Color::Green => "32",
            Color::Yellow => "33",
            Color::Blue => "34",
            Color::Purple => "35",
        }
    }
}

/// The port the router listens on unless told otherwise.
pub const DEFAULT_PORT: u16 = 8741;

/// The seconds a connection may stay silent before it is sent a ping.
pub const IDLE_SECONDS: u64 = 30;

/// The settings of a running router.
#[derive(Debug, Clone, PartialEq, Eq)]
pub struct Config {
    pub port: u16,
    pub quiet: bool,
    pub verbose: bool,
    pub secret_key: String,
    pub secure: bool,
    pub auto_remove: bool,
    pub reject_no_id: bool,
    pub key_file: Option<String>,
    pub cert_file: Option<String>,
}

/// The settings as a value.
pub struct ConfigView {
    pub port: u16,
    pub quiet: bool,
    pub verbose: bool,
    pub secret_key: Seq<char>,
    pub secure: bool,
    pub auto_remove: bool,
    pub reject_no_id: bool,
    pub key_file: Option<Seq<char>>,
    pub cert_file: Option<Seq<char>>,
}

impl View for Config {
    type V = ConfigView;

    open spec fn view(&self) -> ConfigView {
        ConfigView {
            port: self.port,
            quiet: self.quiet,
            verbose: self.verbose,
            secret_key: self.secret_key@,
            secure: self.secure,
            auto_remove: self.auto_remove,
            reject_no_id: self.reject_no_id,
            key_file: text_of(self.key_file),
            cert_file: text_of(self.cert_file),
        }
    }
}

/// What the command line held, option by option.
#[derive(Debug, Clone, Default, PartialEq, Eq)]
pub struct Matches {
    /// `--quiet` was given.
    pub quiet: bool,
    /// The value of `--port`.
    pub port: Option<String>,
    /// The value of `--secret_key`.
    pub secret_key: Option<String>,
    /// `--secure` was given.
    pub secure: bool,
    /// The value of `--key_file`.
    pub key_file: Option<String>,
    /// The value of `--cert_file`.
    pub cert_file: Option<String>,
    /// `--verbose` was given.
    pub verbose: bool,
    /// `--auto_remove` was given.
    pub remove: bool,
    /// `--reject` was given.
    pub reject: bool,
}

/// The command line as a value.
pub struct MatchesView {
    pub quiet: bool,
    pub port: Option<Seq<char>>,
    pub secret_key: Option<Seq<char>>,
    pub secure: bool,
    pub key_file: Option<Seq<char>>,
    pub cert_file: Option<Seq<char>>,
    pub verbose: bool,
    pub remove: bool,
    pub reject: bool,
}

impl View for Matches {
    type V = MatchesView;

    open spec fn view(&self) -> MatchesView {
        MatchesView {
            quiet: self.quiet,
            port: text_of(self.port),
            secret_key: text_of(self.secret_key),
            secure: self.secure,
            key_file: text_of(self.key_file),
            cert_file: text_of(self.cert_file),
            verbose: self.verbose,
            remove: self.remove,
            reject: self.reject,
        }
    }
}

/// Whether `c` is a decimal digit.
pub open spec fn is_digit(c: char) -> bool {
    '0' <= c && c <= '9'
}

/// Whether `s` holds decimal digits only.
pub open spec fn all_digits(s: Seq<char>) -> bool {
    forall|i: int| 0 <= i < s.len() ==> is_digit(#[trigger] s[i])
}

/// The number that the decimal digits `s` write.
pub open spec fn decimal(s: Seq<char>) -> nat
    decreases s.len(),
{
    if s.len() == 0 {
        0
    } else {
        (decimal(s.drop_last()) * 10 + (s.last() as nat - '0' as nat)) as nat
    }
}

/// The digits of a port: what follows an optional leading plus sign.
pub open spec fn port_digits(s: Seq<char>) -> Seq<char> {
    if s.len() > 0 && s[0] == '+' {
        s.drop_first()
    } else {
        s
    }
}

/// The port that `s` writes: an optional plus sign, then at least one
/// decimal digit, with a value of at most 65535.
pub open spec fn port_of(s: Seq<char>) -> Option<u16> {
    let d = port_digits(s);
    if d.len() > 0 && all_digits(d) && decimal(d) <= u16::MAX {
        Some(decimal(d) as u16)
    } else {
        None
    }
}

/// A number written in digits does not shrink when more digits follow.
pub proof fn lemma_decimal_grows(s: Seq<char>, i: int)
    requires
        all_digits(s),
        0 <= i <= s.len(),
    ensures
        decimal(s.take(i)) <= decimal(s),
    decreases s.len() - i,
{
    if i == s.len() {
        assert(s.take(i) =~= s);
    } else {
        lemma_decimal_grows(s, i + 1);
        assert(s.take(i + 1).drop_last() =~= s.take(i));
        assert(is_digit(s[i]));
        assert(s.take(i + 1).last() == s[i]);
    }
}

/// Reads a port number.
pub fn parse_port(s: &str) -> (port: Option<u16>)
    ensures
        port == port_of(s@),
{
    let n = s.unicode_len();
    if n == 0 {
        return None;
    }
    let start: usize = if s.get_char(0) == '+' {
        1
    } else {
        0
    };
    if start == n {
        return None;
    }
    let ghost d = port_digits(s@);
    let mut value: u32 = 0;
    let mut i: usize = start;
    assert(d.take(0) =~= Seq::<char>::empty());
    while i < n
        invariant
            start <= i <= n,
            n == s@.len(),
            d == port_digits(s@),
            d.len() == n - start,
            forall|k: int| 0 <= k < d.len() ==> d[k] == s@[k + start],
            all_digits(d.take(i - start)),
            value == decimal(d.take(i - start)),
            value <= u16::MAX,
        decreases n - i,
    {
        let c = s.get_char(i);
        assert(c == d[i - start]);
        if c < '0' || c > '9' {
            assert(!is_digit(d[i - start]));
            return None;
        }
        let digit: u32 = c as u32 - '0' as u32;
        proof {
            assert(d.take(i + 1 - start).drop_last() =~= d.take(i - start));
            assert(d.take(i + 1 - start).last() == c);
            assert forall|k: int| 0 <= k < d.take(i + 1 - start).len() implies is_digit(
                #[trigger] d.take(i + 1 - start)[k],
            ) by {
                if k < i - start {
                    assert(d.take(i - start)[k] == d[k]);
                }
            }
        }
        let next: u32 = value * 10 + digit;
        if next > 65535 {
            proof {
                if all_digits(d) {
                    lemma_decimal_grows(d, i + 1 - start);
                }
            }
            return None;
        }
        value = next;
        i += 1;
    }
    assert(d.take(n - start) =~= d);
    Some(value as u16)
}

impl ConfigView {
    /// The settings after the command line `m` was read into them, and
    /// whether the command line was accepted. The options are read in a
    /// fixed order, and reading stops at the first one that is refused: a
    /// port that [`port_of`] does not read, or `--secure` without both a key
    /// file and a certificate file.
    pub open spec fn parsed(self, m: MatchesView) -> (ConfigView, bool) {
        let c1 = ConfigView { quiet: self.quiet || m.quiet, ..self };
        if m.port is Some && port_of(m.port->0) is None {
            (c1, false)
        } else {
            let c2 = ConfigView {
                port: if m.port is Some {
                    port_of(m.port->0)->0
                } else {
                    c1.port
                },
                secret_key: if m.secret_key is Some {
                    m.secret_key->0
                } else {
                    c1.secret_key
                },
                ..c1
            };
            if !m.secure {
                (c2.flagged(m), true)
            } else {
                let c3 = ConfigView { key_file: m.key_file, cert_file: m.cert_file, ..c2 };
                if m.cert_file is None || m.key_file is None {
                    (c3, false)
                } else {
                    (ConfigView { secure: true, ..c3 }.flagged(m), true)
                }
            }
        }
    }

    /// The settings with the switches of `m` that cannot be refused turned on.
    pub open spec fn flagged(self, m: MatchesView) -> ConfigView {
        ConfigView {
            verbose: self.verbose || m.verbose,
            auto_remove: self.auto_remove || m.remove,
            reject_no_id: self.reject_no_id || m.reject,
            ..self
        }
    }
}

/// An ordinary log line: the time stamp in bold, an arrow in the colour
/// `color`, then the message.
pub open spec fn log_line(stamp: Seq<char>, color: Color, msg: Seq<char>) -> Seq<char> {
    "\x1b[1m"@ + stamp + " \x1b["@ + color.code_spec() + "m=>\x1b[0m "@ + msg
}

/// An error line: the time stamp in bold, a red cross, then the message.
pub open spec fn err_line(stamp: Seq<char>, msg: Seq<char>) -> Seq<char> {
    "\x1b[1m"@ + stamp + " \x1b[31m\u{2717}\x1b[0m  "@ + msg
}

impl Config {
    /// The settings of a router started without options, under a freshly
    /// drawn secret, which is long enough to salt the hash of any
    /// credential.
    pub fn default() -> (c: Config)
        ensures
            c@ == (ConfigView {
                port: DEFAULT_PORT,
                quiet: false,
                verbose: false,
                secret_key: c@.secret_key,
                secure: false,
                auto_remove: false,
                reject_no_id: false,
                key_file: None,
                cert_file: None,
            }),
            is_hyphenated_uuid(c@.secret_key),
            forall|key: Seq<char>| byte_len(key) <= u32::MAX ==> #[trigger] hashable(
                key,
                c@.secret_key,
            ),
    {
        Config {
            port: DEFAULT_PORT,
            quiet: false,
            verbose: false,
            secret_key: draw_secret(),
            secure: false,
            auto_remove: false,
            reject_no_id: false,
            key_file: None,
            cert_file: None,
        }
    }

    /// Reads the command line into the settings and says whether it was accepted.
    pub fn parse_args(&mut self, matches: &Matches) -> (ok: bool)
        ensures
            (final(self)@, ok) == old(self)@.parsed(matches@),
    {
        if matches.quiet {
            self.quiet = true;
        }
        match &matches.port {
            Some(port) => {
                match parse_port(port.as_str()) {
                    Some(n) => {
                        self.port = n;
                    },
                    None => {
                        return false;
                    },
                }
            },
            None => {},
        }
        match &matches.secret_key {
            Some(key) => {
                self.secret_key = key.clone();
            },
            None => {},
        }
        if matches.secure {
            self.key_file = copy_text(&matches.key_file);
            self.cert_file = copy_text(&matches.cert_file);
            if self.cert_file.is_none() || self.key_file.is_none() {
                return false;
            }
            self.secure = true;
        }
        if matches.verbose {
            self.verbose = true;
        }
        if matches.remove {
            self.auto_remove = true;
        }
        if matches.reject {
            self.reject_no_id = true;
        }
        true
    }

    /// The error line for the message `err`, stamped `stamp`.
    pub fn err(err: &str, stamp: &str) -> (line: String)
        ensures
            line@ == err_line(stamp@, err@),
    {
        let mut line = String::from_str("\x1b[1m");
        line.append(stamp);
        line.append(" \x1b[31m\u{2717}\x1b[0m  ");
        line.append(err);
        line
    }

    /// The log line for the message `log`, stamped `stamp` and marked in `color`.
    pub fn log(log: &str, color: Color, stamp: &str) -> (line: String)
        ensures
            line@ == log_line(stamp@, color, log@),
    {
        let mut line = String::from_str("\x1b[1m");
        line.append(stamp);
        line.append(" \x1b[");
        line.append(color.code());
        line.append("m=>\x1b[0m ");
        line.append(log);
        line
    }

    /// Whether ordinary lines are logged, and whether detailed ones are.
    pub fn out_and_vbs(&self) -> (r: (bool, bool))
        ensures
            r == (!self@.quiet, self@.verbose),
    {
        (!self.quiet, self.verbose)
    }
}

} // verus!

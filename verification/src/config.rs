//! Application settings: defaults, port parsing and the listen address.

use vstd::prelude::*;

verus! {

/// An ASCII decimal digit.
pub open spec fn is_ascii_digit(c: char) -> bool {
    48 <= (c as int) <= 57
}

/// The value of an ASCII decimal digit.
pub open spec fn digit_value(c: char) -> int {
    (c as int) - 48
}

/// The ASCII digit character of a value below ten.
pub open spec fn digit_char(d: int) -> char {
    (d + 48) as char
}

pub open spec fn all_digits(s: Seq<char>) -> bool {
    forall|i: int| 0 <= i < s.len() ==> is_ascii_digit(#[trigger] s[i])
}

/// The number that a string of decimal digits writes, most significant first.
pub open spec fn digits_value(s: Seq<char>) -> int
    decreases s.len(),
{
    if s.len() == 0 {
        0
    } else {
        10 * digits_value(s.drop_last()) + digit_value(s.last())
    }
}

/// The text after an optional leading `+`.
pub open spec fn unsigned_digits(s: Seq<char>) -> Seq<char> {
    if s.len() > 0 && s[0] == '+' {
        s.drop_first()
    } else {
        s
    }
}

/// What std's `u16::from_str` gives for a text: an optional `+`, then one or
/// more decimal digits whose value fits in 16 bits; anything else is refused.
pub open spec fn parse_u16_spec(s: Seq<char>) -> Option<u16> {
    let d = unsigned_digits(s);
    if d.len() > 0 && all_digits(d) && digits_value(d) <= 65535 {
        Some(digits_value(d) as u16)
    } else {
        None
    }
}

/// The decimal text of a number, without leading zeros.
pub open spec fn decimal_text(n: nat) -> Seq<char>
    decreases n,
{
    if n < 10 {
        seq![digit_char(n as int)]
    } else {
        decimal_text(n / 10) + seq![digit_char((n % 10) as int)]
    }
}

proof fn lemma_digits_value_nonneg(s: Seq<char>)
    requires
        all_digits(s),
    ensures
        digits_value(s) >= 0,
    decreases s.len(),
{
    if s.len() > 0 {
        assert(all_digits(s.drop_last()));
        lemma_digits_value_nonneg(s.drop_last());
        assert(is_ascii_digit(s[s.len() - 1]));
    }
}

/// A prefix of a digit string never writes a larger number than the whole.
proof fn lemma_digits_value_prefix(s: Seq<char>, k: int)
    requires
        all_digits(s),
        0 <= k <= s.len(),
    ensures
        digits_value(s.subrange(0, k)) <= digits_value(s),
    decreases s.len(),
{
    if k < s.len() {
        let t = s.drop_last();
        assert(all_digits(t));
        lemma_digits_value_prefix(t, k);
        assert(t.subrange(0, k) =~= s.subrange(0, k));
        lemma_digits_value_nonneg(t);
        assert(is_ascii_digit(s[s.len() - 1]));
    } else {
        assert(s.subrange(0, k) =~= s);
    }
}

/// Parses a text as a port number, as `u16::from_str` does.
pub fn parse_port(text: &str) -> (port: Option<u16>)
    ensures
        port == parse_u16_spec(text@),
        forall|n: u16| #[trigger] decimal_text(n as nat) == text@ ==> port == Some(n),
{
    proof {
        assert forall|n: u16| #[trigger] decimal_text(n as nat) == text@ implies parse_u16_spec(text@)
            == Some(n) by {
            lemma_port_text_roundtrip(n);
        }
    }
    let n = text.unicode_len();
    let mut start: usize = 0;
    if n > 0 && text.get_char(0) == '+' {
        start = 1;
    }
    let ghost d = unsigned_digits(text@);
    assert(d =~= text@.subrange(start as int, n as int));
    if start == n {
        return None;
    }
    let mut i: usize = start;
    let mut value: u32 = 0;
    while i < n
        invariant
            start <= i <= n,
            n == text@.len(),
            start < n,
            d == text@.subrange(start as int, n as int),
            d == unsigned_digits(text@),
            forall|n: u16| #[trigger] decimal_text(n as nat) == text@ ==> parse_u16_spec(text@) == Some(
                n,
            ),
            all_digits(d.subrange(0, i - start)),
            value as int == digits_value(d.subrange(0, i - start)),
            value <= 65535,
        decreases n - i,
    {
        let c = text.get_char(i);
        assert(c == d[i - start]);
        if !('0' <= c && c <= '9') {
            assert(!is_ascii_digit(d[i - start]));
            return None;
        }
        let digit: u32 = (c as u32) - ('0' as u32);
        let next: u32 = value * 10 + digit;
        proof {
            let p = d.subrange(0, i - start + 1);
            assert(p.drop_last() =~= d.subrange(0, i - start));
            assert(p.last() == c);
        }
        if next > 65535 {
            proof {
                if all_digits(d) {
                    lemma_digits_value_prefix(d, i - start + 1);
                }
            }
            return None;
        }
        value = next;
        i = i + 1;
    }
    assert(d.subrange(0, i - start) =~= d);
    Some(value as u16)
}

/// The one-character text of a decimal digit.
fn digit_text(d: u16) -> (t: &'static str)
    requires
        d < 10,
    ensures
        t@ == seq![digit_char(d as int)],
{
    proof {
        reveal_strlit("0");
        reveal_strlit("1");
        reveal_strlit("2");
        reveal_strlit("3");
        reveal_strlit("4");
        reveal_strlit("5");
        reveal_strlit("6");
        reveal_strlit("7");
        reveal_strlit("8");
        reveal_strlit("9");
    }
    match d {
        0 => "0",
        1 => "1",
        2 => "2",
        3 => "3",
        4 => "4",
        5 => "5",
        6 => "6",
        7 => "7",
        8 => "8",
        _ => "9",
    }
}

/// Writes a number in decimal, as `u16`'s `Display` does.
pub fn decimal_u16(n: u16) -> (t: String)
    ensures
        t@ == decimal_text(n as nat),
    decreases n,
{
    if n < 10 {
        digit_text(n).to_string()
    } else {
        let mut t = decimal_u16(n / 10);
        t.append(digit_text(n % 10));
        t
    }
}

/// Parsing the decimal text of a port gives the port back.
pub proof fn lemma_port_text_roundtrip(port: u16)
    ensures
        parse_u16_spec(decimal_text(port as nat)) == Some(port),
{
    lemma_decimal_text_digits(port as nat);
    let t = decimal_text(port as nat);
    assert(is_ascii_digit(t[0]));
    assert(unsigned_digits(t) == t);
}

proof fn lemma_decimal_text_digits(n: nat)
    ensures
        decimal_text(n).len() > 0,
        all_digits(decimal_text(n)),
        digits_value(decimal_text(n)) == n,
    decreases n,
{
    let t = decimal_text(n);
    if n < 10 {
        assert(t.drop_last() =~= Seq::<char>::empty());
        assert(digits_value(t.drop_last()) == 0);
        assert(digit_value(digit_char(n as int)) == n);
        assert(digits_value(t) == 10 * digits_value(t.drop_last()) + digit_value(t.last()));
    } else {
        assert(digit_value(digit_char((n % 10) as int)) == n % 10);
        lemma_decimal_text_digits(n / 10);
        let h = decimal_text(n / 10);
        assert(t.drop_last() =~= h);
        assert(digits_value(t) == 10 * digits_value(t.drop_last()) + digit_value(t.last()));
        assert forall|i: int| 0 <= i < t.len() implies is_ascii_digit(#[trigger] t[i]) by {
            if i < h.len() {
                assert(t[i] == h[i]);
            }
        }
    }
}

/// Why the settings could not be made.
#[derive(Debug, PartialEq, Eq, Structural)]
pub enum ConfigError {
    /// `PORT` is not a valid port number.
    InvalidPort,
    /// `DEEPSEEK_API_KEY` is not set.
    MissingApiKey,
}

impl ConfigError {
    /// The text reported for each error.
    pub open spec fn spec_message(&self) -> Seq<char> {
        match self {
            ConfigError::InvalidPort => "环境变量 PORT 不是合法端口号"@,
            ConfigError::MissingApiKey => "缺少环境变量 DEEPSEEK_API_KEY，无法初始化 Agent 服务"@,
        }
    }

    pub fn message(&self) -> (m: &'static str)
        ensures
            m@ == self.spec_message(),
    {
        match self {
            ConfigError::InvalidPort => "环境变量 PORT 不是合法端口号",
            ConfigError::MissingApiKey => "缺少环境变量 DEEPSEEK_API_KEY，无法初始化 Agent 服务",
        }
    }
}

/// Application settings, taken from the environment.
#[derive(Debug, Clone)]
pub struct Settings {
    /// Running environment: development, production, ...
    pub env: String,
    /// Log level: trace, debug, info, warn or error.
    pub log_level: String,
    /// Host the HTTP service listens on.
    pub host: String,
    /// Port the HTTP service listens on.
    pub port: u16,
    /// DeepSeek API key, needed to reach the model.
    pub deepseek_api_key: Option<String>,
}

/// A variable's value, or the default where it is unset.
pub open spec fn value_or(v: Option<String>, default: Seq<char>) -> Seq<char> {
    match v {
        Some(s) => s@,
        None => default,
    }
}

/// The port that an optional `PORT` value gives: its parse, or 8000 where unset.
pub open spec fn port_setting(v: Option<String>) -> Option<u16> {
    match v {
        Some(s) => parse_u16_spec(s@),
        None => Some(8000u16),
    }
}

fn string_or(v: Option<String>, default: &str) -> (s: String)
    ensures
        s@ == value_or(v, default@),
{
    match v {
        Some(s) => s,
        None => default.to_string(),
    }
}

impl Settings {
    /// Builds the settings from the values of `ENV`, `LOG_LEVEL`, `HOST`, `PORT`
    /// and `DEEPSEEK_API_KEY` (`None` where a variable is unset); unset values
    /// take their defaults: development, info, 127.0.0.1 and 8000.
    pub fn from_vars(
        env: Option<String>,
        log_level: Option<String>,
        host: Option<String>,
        port: Option<String>,
        deepseek_api_key: Option<String>,
    ) -> (res: Result<Settings, ConfigError>)
        ensures
            res is Ok <==> port_setting(port) is Some,
            res is Err ==> res == Err::<Settings, ConfigError>(ConfigError::InvalidPort),
            port matches Some(p) ==> (res is Ok <==> parse_u16_spec(p@) is Some),
            port matches Some(p) ==> (res matches Ok(s) ==> Some(s.port) == parse_u16_spec(p@)),
            port is None ==> (res matches Ok(s) && s.port == 8000),
            port is Some ==> forall|n: u16| #[trigger] decimal_text(n as nat) == port->0@ ==> (
            res matches Ok(s) && s.port == n),
            res matches Ok(s) ==> {
                &&& s.env@ == value_or(env, "development"@)
                &&& s.log_level@ == value_or(log_level, "info"@)
                &&& s.host@ == value_or(host, "127.0.0.1"@)
                &&& Some(s.port) == port_setting(port)
                &&& s.deepseek_api_key == deepseek_api_key
            },
    {
        let parsed: Option<u16> = match &port {
            Some(text) => parse_port(text.as_str()),
            None => Some(8000),
        };
        let port = match parsed {
            Some(p) => p,
            None => {
                return Err(ConfigError::InvalidPort);
            },
        };
        Ok(Settings {
            env: string_or(env, "development"),
            log_level: string_or(log_level, "info"),
            host: string_or(host, "127.0.0.1"),
            port,
            deepseek_api_key,
        })
    }

    /// The `HOST:PORT` text of the listen address.
    pub fn listen_address(&self) -> (addr: String)
        ensures
            addr@ == self.host@ + ":"@ + decimal_text(self.port as nat),
    {
        let mut addr = self.host.clone();
        addr.append(":");
        let port = decimal_u16(self.port);
        addr.append(port.as_str());
        addr
    }

    /// The DeepSeek API key, which the agent service cannot start without.
    pub fn require_api_key(&self) -> (key: Result<String, ConfigError>)
        ensures
            match self.deepseek_api_key {
                Some(k) => key == Ok::<String, ConfigError>(k),
                None => key == Err::<String, ConfigError>(ConfigError::MissingApiKey),
            },
    {
        match &self.deepseek_api_key {
            Some(k) => Ok(k.clone()),
            None => Err(ConfigError::MissingApiKey),
        }
    }
}

} // verus!

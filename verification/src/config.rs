use crate::error::{AppError, AppErrorView};
use crate::text::{chars_of, option_view};
use vstd::prelude::*;

verus! {

/// The address on which the service listens where none is configured.
pub const DEFAULT_HOST: &'static str = "127.0.0.1";

/// The port on which the service listens where none is configured.
pub const DEFAULT_PORT: &'static str = "3000";

/// What the service is started with.
pub struct Config {
    /// The address on which the service listens, as it was configured.
    pub host: String,
    /// The port on which the service listens.
    pub port: u16,
    /// The key that opens the summarization endpoint.
    pub openrouter_api_key: String,
}

/// A `Config` with its texts as sequences of characters.
pub struct ConfigView {
    pub host: Seq<char>,
    pub port: u16,
    pub openrouter_api_key: Seq<char>,
}

impl View for Config {
    type V = ConfigView;

    open spec fn view(&self) -> ConfigView {
        ConfigView {
            host: self.host@,
            port: self.port,
            openrouter_api_key: self.openrouter_api_key@,
        }
    }
}

/// Why a text is not a port.
#[derive(Clone, Copy, Debug, PartialEq, Eq, Structural)]
pub enum PortError {
    /// The text is empty.
    Empty,
    /// The text holds something other than digits after its optional `+`,
    /// or no digit at all.
    InvalidDigit,
    /// The number is larger than 65535.
    TooLarge,
}

/// Tells whether `c` is a decimal digit.
pub open spec fn is_digit(c: char) -> bool {
    '0' <= c <= '9'
}

/// The number that the digit `c` stands for.
pub open spec fn digit_value(c: char) -> nat {
    (c as u32 - '0' as u32) as nat
}

/// The number that the digits `s` write, read from the left; an error from
/// the first place on at which a character is no digit or the number so far
/// is larger than 65535.
pub open spec fn scanned(s: Seq<char>) -> Result<nat, PortError>
    decreases s.len(),
{
    if s.len() == 0 {
        Ok(0)
    } else {
        match scanned(s.drop_last()) {
            Err(error) => Err(error),
            Ok(value) => if !is_digit(s.last()) {
                Err(PortError::InvalidDigit)
            } else if value * 10 + digit_value(s.last()) > u16::MAX {
                Err(PortError::TooLarge)
            } else {
                Ok(value * 10 + digit_value(s.last()))
            },
        }
    }
}

/// The port that the text `s` writes: an optional `+`, then decimal digits
/// that write a number of at most 65535.
pub open spec fn parsed_port(s: Seq<char>) -> Result<nat, PortError> {
    if s.len() == 0 {
        Err(PortError::Empty)
    } else {
        let digits = if s[0] == '+' {
            s.skip(1)
        } else {
            s
        };
        if digits.len() == 0 {
            Err(PortError::InvalidDigit)
        } else {
            scanned(digits)
        }
    }
}

/// Why a text is not a port, in words.
pub open spec fn port_error_text(error: PortError) -> Seq<char> {
    match error {
        PortError::Empty => "cannot parse integer from empty string"@,
        PortError::InvalidDigit => "invalid digit found in string"@,
        PortError::TooLarge => "number too large to fit in target type"@,
    }
}

/// Once the reading of a text has failed, it has failed for every longer
/// text that begins with it.
pub proof fn lemma_scan_error_stays(s: Seq<char>, n: int)
    requires
        0 <= n <= s.len(),
        scanned(s.take(n)) is Err,
    ensures
        scanned(s) == scanned(s.take(n)),
    decreases s.len() - n,
{
    if n < s.len() {
        assert(s.take(n + 1).drop_last() == s.take(n));
        lemma_scan_error_stays(s, n + 1);
    } else {
        assert(s.take(n) == s);
    }
}

/// Reads a port from `text`.
pub fn parse_port(text: &str) -> (port: Result<u16, PortError>)
    ensures
        match port {
            Ok(value) => parsed_port(text@) == Ok::<nat, PortError>(value as nat),
            Err(error) => parsed_port(text@) == Err::<nat, PortError>(error),
        },
{
    let chars = chars_of(text);
    if chars.len() == 0 {
        return Err(PortError::Empty);
    }
    let start: usize = if chars[0] == '+' {
        1
    } else {
        0
    };
    if start == chars.len() {
        return Err(PortError::InvalidDigit);
    }
    let ghost digits = chars@.skip(start as int);
    let mut value: u32 = 0;
    let mut i: usize = start;
    assert(digits.take(0) == Seq::<char>::empty());
    assert(chars@.skip(0) == chars@);
    assert(parsed_port(text@) == scanned(digits));
    while i < chars.len()
        invariant
            start <= i <= chars.len(),
            digits == chars@.skip(start as int),
            parsed_port(text@) == scanned(digits),
            scanned(digits.take(i - start)) == Ok::<nat, PortError>(value as nat),
            value <= u16::MAX,
        decreases chars.len() - i,
    {
        let c = chars[i];
        assert(digits.take(i - start + 1).drop_last() == digits.take(i - start));
        assert(digits.take(i - start + 1).last() == c);
        if !('0' <= c && c <= '9') {
            proof {
                lemma_scan_error_stays(digits, i - start + 1);
            }
            return Err(PortError::InvalidDigit);
        }
        let next: u32 = value * 10 + (c as u32 - '0' as u32);
        if next > 65535 {
            proof {
                lemma_scan_error_stays(digits, i - start + 1);
            }
            return Err(PortError::TooLarge);
        }
        value = next;
        i = i + 1;
    }
    assert(digits.take(chars.len() - start) == digits);
    Ok(value as u16)
}

/// A host setting as `Config::load` takes it: the address as it was
/// written, where it reads as an address; else why it does not.
pub open spec fn host_view(host: Option<Result<String, String>>) -> Option<
    Result<Seq<char>, Seq<char>>,
> {
    match host {
        Some(Ok(text)) => Some(Ok(text@)),
        Some(Err(reason)) => Some(Err(reason@)),
        None => None,
    }
}

/// A key setting as `Config::load` takes it.
pub open spec fn key_view(api_key: Result<String, String>) -> Result<Seq<char>, Seq<char>> {
    match api_key {
        Ok(key) => Ok(key@),
        Err(reason) => Err(reason@),
    }
}

/// What `Config::load` makes of the three settings. They are looked at in
/// this order, and the first that is bad decides: a missing key is an error
/// with the reason given for it; a port that cannot be read is an error
/// that says why; a host that is no address is an error with the reason
/// given for it. A host or port that is not set is replaced by its default.
pub open spec fn loaded(
    api_key: Result<Seq<char>, Seq<char>>,
    host: Option<Result<Seq<char>, Seq<char>>>,
    port: Option<Seq<char>>,
) -> Result<ConfigView, AppErrorView> {
    match api_key {
        Err(reason) => Err(AppErrorView::ConfigError(reason)),
        Ok(key) => {
            let port_text = match port {
                Some(text) => text,
                None => DEFAULT_PORT@,
            };
            match parsed_port(port_text) {
                Err(error) => Err(
                    AppErrorView::ConfigError("Invalid port: "@ + port_error_text(error)),
                ),
                Ok(number) => match host {
                    Some(Err(reason)) => Err(
                        AppErrorView::ConfigError("Invalid host address: "@ + reason),
                    ),
                    Some(Ok(text)) => Ok(
                        ConfigView { host: text, port: number as u16, openrouter_api_key: key },
                    ),
                    None => Ok(
                        ConfigView {
                            host: DEFAULT_HOST@,
                            port: number as u16,
                            openrouter_api_key: key,
                        },
                    ),
                },
            }
        },
    }
}

impl Config {
    /// Makes the configuration from the settings as they were found.
    ///
    /// `api_key` is the endpoint's key, or the reason for which there is
    /// none. `host` is the listening address where it is set: as it was
    /// written where it reads as an address, else the reason for which it
    /// does not. `port` is the listening port as it was written, where it is
    /// set.
    pub fn load(
        api_key: Result<String, String>,
        host: Option<Result<String, String>>,
        port: Option<String>,
    ) -> (config: Result<Config, AppError>)
        ensures
            match config {
                Ok(c) => loaded(key_view(api_key), host_view(host), option_view(port)) == Ok::<
                    ConfigView,
                    AppErrorView,
                >(c@),
                Err(error) => loaded(key_view(api_key), host_view(host), option_view(port))
                    == Err::<ConfigView, AppErrorView>(error@),
            },
    {
        let openrouter_api_key = match api_key {
            Ok(key) => key,
            Err(reason) => {
                return Err(AppError::ConfigError(reason));
            },
        };
        let port_text = match port {
            Some(text) => text,
            None => DEFAULT_PORT.to_owned(),
        };
        let port = match parse_port(port_text.as_str()) {
            Ok(number) => number,
            Err(error) => {
                let reason = match error {
                    PortError::Empty => "cannot parse integer from empty string",
                    PortError::InvalidDigit => "invalid digit found in string",
                    PortError::TooLarge => "number too large to fit in target type",
                };
                let mut message = String::new();
                message.append("Invalid port: ");
                message.append(reason);
                return Err(AppError::ConfigError(message));
            },
        };
        let host = match host {
            Some(Ok(text)) => text,
            Some(Err(reason)) => {
                let mut message = String::new();
                message.append("Invalid host address: ");
                message.append(reason.as_str());
                return Err(AppError::ConfigError(message));
            },
            None => DEFAULT_HOST.to_owned(),
        };
        Ok(Config { host, port, openrouter_api_key })
    }
}

/// The configuration fails exactly when the key is missing, the port does
/// not read as a port, or the host does not read as an address; and every
/// failure is a configuration error.
pub proof fn law_configuration_fails_on_bad_settings(
    api_key: Result<Seq<char>, Seq<char>>,
    host: Option<Result<Seq<char>, Seq<char>>>,
    port: Option<Seq<char>>,
)
    ensures
        loaded(api_key, host, port) is Err <==> (api_key is Err || parsed_port(
            match port {
                Some(text) => text,
                None => DEFAULT_PORT@,
            },
        ) is Err || host matches Some(Err(_))),
        loaded(api_key, host, port) is Err ==> loaded(api_key, host, port)->Err_0 is ConfigError,
{
}

} // verus!

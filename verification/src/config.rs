//! The configuration of the server.

use crate::text::same_text;
use vstd::prelude::*;

verus! {

/// How much the server logs.
#[derive(Debug, Clone, Copy, PartialEq, Eq, Structural)]
pub enum LogLevel {
    Off,
    Error,
    Warn,
    Info,
    Debug,
    Trace,
}

/// Bytes in a mebibyte, the unit of `max_log_size`.
pub const MEBIBYTE: u64 = 1048576;

/// Whether a text is the name of a log level.
pub open spec fn is_level_name(name: Seq<char>) -> bool {
    ||| name == "Off"@
    ||| name == "Error"@
    ||| name == "Warn"@
    ||| name == "Info"@
    ||| name == "Debug"@
    ||| name == "Trace"@
}

/// The log level that a text names; any other text stands for `Info`.
pub open spec fn level_of(name: Seq<char>) -> LogLevel {
    if name == "Off"@ {
        LogLevel::Off
    } else if name == "Error"@ {
        LogLevel::Error
    } else if name == "Warn"@ {
        LogLevel::Warn
    } else if name == "Debug"@ {
        LogLevel::Debug
    } else if name == "Trace"@ {
        LogLevel::Trace
    } else {
        LogLevel::Info
    }
}

/// Each name of a log level stands for its own level.
pub proof fn lemma_level_names()
    ensures
        level_of("Off"@) == LogLevel::Off,
        level_of("Error"@) == LogLevel::Error,
        level_of("Warn"@) == LogLevel::Warn,
        level_of("Info"@) == LogLevel::Info,
        level_of("Debug"@) == LogLevel::Debug,
        level_of("Trace"@) == LogLevel::Trace,
{
    reveal_strlit("Off");
    reveal_strlit("Error");
    reveal_strlit("Warn");
    reveal_strlit("Info");
    reveal_strlit("Debug");
    reveal_strlit("Trace");
    assert("Off"@.len() == 3 && "Warn"@.len() == 4 && "Info"@.len() == 4);
    assert("Error"@.len() == 5 && "Debug"@.len() == 5 && "Trace"@.len() == 5);
    assert("Warn"@[0] == 'W' && "Info"@[0] == 'I');
    assert("Error"@[0] == 'E' && "Debug"@[0] == 'D' && "Trace"@[0] == 'T');
}

/// The mathematical value of a configuration.
pub struct ConfigView {
    pub address: Seq<char>,
    pub port: u16,
    pub log_level: Seq<char>,
    pub log_to_file: bool,
    pub max_log_size: u16,
    pub ask_when_writing: bool,
}

impl ConfigView {
    /// The configuration that the server runs with where it is given none.
    pub open spec fn standard() -> ConfigView {
        ConfigView {
            address: "127.0.0.1"@,
            port: 21646,
            log_level: "Info"@,
            log_to_file: true,
            max_log_size: 5,
            ask_when_writing: false,
        }
    }
}

/// The configuration of the server.
#[derive(Debug)]
pub struct Config {
    address: String,
    port: u16,
    log_level: String,
    log_to_file: bool,
    max_log_size: u16,
    ask_when_writing: bool,
}

impl View for Config {
    type V = ConfigView;

    closed spec fn view(&self) -> ConfigView {
        ConfigView {
            address: self.address@,
            port: self.port,
            log_level: self.log_level@,
            log_to_file: self.log_to_file,
            max_log_size: self.max_log_size,
            ask_when_writing: self.ask_when_writing,
        }
    }
}

impl Default for Config {
    /// The configuration that the server runs with where it is given none.
    fn default() -> (config: Self)
        ensures
            config@ == ConfigView::standard(),
    {
        Config {
            address: "127.0.0.1".to_owned(),
            port: 21646,
            log_level: "Info".to_owned(),
            log_to_file: true,
            max_log_size: 5,
            ask_when_writing: false,
        }
    }
}

/// Whether a text is the name of a log level.
pub fn names_level(name: &str) -> (known: bool)
    ensures
        known == is_level_name(name@),
{
    same_text(name, "Off") || same_text(name, "Error") || same_text(name, "Warn") || same_text(
        name,
        "Info",
    ) || same_text(name, "Debug") || same_text(name, "Trace")
}

impl Config {
    #[verifier::type_invariant]
    spec fn well_formed(&self) -> bool {
        is_level_name(self.log_level@)
    }

    /// Takes the fields of a configuration as they were read. It is refused
    /// where the address is no IP address, which the caller has found out;
    /// a log level that is none stands for `Info`.
    pub fn get(
        address: String,
        address_is_ip: bool,
        port: u16,
        log_level: String,
        log_to_file: bool,
        max_log_size: u16,
        ask_when_writing: bool,
    ) -> (res: Result<Config, ()>)
        ensures
            res is Ok <==> address_is_ip,
            res matches Ok(config) ==> config@ == (ConfigView {
                address: address@,
                port,
                log_level: if is_level_name(log_level@) {
                    log_level@
                } else {
                    "Info"@
                },
                log_to_file,
                max_log_size,
                ask_when_writing,
            }),
    {
        if !address_is_ip {
            return Err(());
        }
        let log_level = if names_level(log_level.as_str()) {
            log_level
        } else {
            "Info".to_owned()
        };
        Ok(Config { address, port, log_level, log_to_file, max_log_size, ask_when_writing })
    }

    /// The address that the server listens on.
    pub fn address(&self) -> (address: &String)
        ensures
            address@ == self@.address,
    {
        &self.address
    }

    /// The port that the server listens on.
    pub fn port(&self) -> (port: u16)
        ensures
            port == self@.port,
    {
        self.port
    }

    /// Whether the log goes to a file as well as to the terminal.
    pub fn log_to_file(&self) -> (log_to_file: bool)
        ensures
            log_to_file == self@.log_to_file,
    {
        self.log_to_file
    }

    /// The size in mebibytes beyond which the log file is started anew.
    pub fn max_log_size(&self) -> (max_log_size: u16)
        ensures
            max_log_size == self@.max_log_size,
    {
        self.max_log_size
    }

    /// Whether a log file of `file_len` bytes is beyond the size allowed.
    pub fn log_is_too_large(&self, file_len: u64) -> (too_large: bool)
        ensures
            too_large == (file_len > self@.max_log_size * MEBIBYTE),
    {
        let limit: u64 = self.max_log_size as u64 * MEBIBYTE;
        file_len > limit
    }

    /// How much the server logs.
    pub fn log_level(&self) -> (level: LogLevel)
        ensures
            level == level_of(self@.log_level),
            is_level_name(self@.log_level),
    {
        proof {
            use_type_invariant(self);
        }
        let name = self.log_level.as_str();
        if same_text(name, "Off") {
            LogLevel::Off
        } else if same_text(name, "Error") {
            LogLevel::Error
        } else if same_text(name, "Warn") {
            LogLevel::Warn
        } else if same_text(name, "Debug") {
            LogLevel::Debug
        } else if same_text(name, "Trace") {
            LogLevel::Trace
        } else {
            LogLevel::Info
        }
    }

    /// Whether the user is asked before tags are written.
    pub fn ask_when_writing(&self) -> (ask: bool)
        ensures
            ask == self@.ask_when_writing,
    {
        self.ask_when_writing
    }
}

} // verus!

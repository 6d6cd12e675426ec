//! Application configuration: defaults and environment overrides.
//! Reading the TOML file and the environment is done by the caller.
use vstd::prelude::*;
use crate::moonraker::multi::PrinterConfig as MultiPrinterConfig;
use crate::text::{chars_of, parse_u16, parse_unsigned};

verus! {

#[derive(Debug)]
pub struct PrinterConfig {
    pub ip: String,
    pub port: u16,
}

impl Default for PrinterConfig {
    fn default() -> (p: Self)
        ensures
            p.ip@ == "192.168.1.100"@,
            p.port == 7125,
    {
        PrinterConfig { ip: "192.168.1.100".to_string(), port: 7125 }
    }
}

#[derive(Debug)]
pub struct LoggingConfig {
    /// Log level: debug, info, warn, error.
    pub level: String,
}

impl Default for LoggingConfig {
    fn default() -> (l: Self)
        ensures
            l.level@ == "info"@,
    {
        LoggingConfig { level: "info".to_string() }
    }
}

/// Application configuration.
#[derive(Debug)]
pub struct Config {
    pub printer: PrinterConfig,
    pub logging: LoggingConfig,
    /// Multiple printer configurations for multi-printer support.
    pub printers: Vec<MultiPrinterConfig>,
}

impl Default for Config {
    fn default() -> (c: Self)
        ensures
            c.printer.ip@ == "192.168.1.100"@,
            c.printer.port == 7125,
            c.logging.level@ == "info"@,
            c.printers@.len() == 0,
    {
        Config { printer: PrinterConfig::default(), logging: LoggingConfig::default(), printers: Vec::new() }
    }
}

impl Config {
    /// The configuration when there is no configuration file: the printer
    /// at `127.0.0.1:7125` (the documented default of `MOONRAKER_HOST`),
    /// log level `info`, no printer list. A file that exists fills what it
    /// leaves out from `Config::default()` instead.
    pub fn unconfigured() -> (c: Self)
        ensures
            c.printer.ip@ == "127.0.0.1"@,
            c.printer.port == 7125,
            c.logging.level@ == "info"@,
            c.printers@.len() == 0,
    {
        Config {
            printer: PrinterConfig { ip: "127.0.0.1".to_string(), port: 7125 },
            logging: LoggingConfig::default(),
            printers: Vec::new(),
        }
    }

    /// Applies the environment overrides: `host` (MOONRAKER_HOST) replaces
    /// the printer address, `port` (MOONRAKER_PORT) replaces the port when it
    /// parses as a `u16` and is ignored otherwise, and `level`
    /// (VECTOR_SCREEN_LOG_LEVEL) replaces the log level.
    pub fn apply_overrides(&mut self, host: Option<String>, port: Option<String>, level: Option<String>)
        ensures
            final(self).printer.ip@ == match host {
                Some(h) => h@,
                None => old(self).printer.ip@,
            },
            final(self).printer.port == match port {
                Some(p) => match parse_unsigned(p@, 65535) {
                    Some(v) => v as u16,
                    None => old(self).printer.port,
                },
                None => old(self).printer.port,
            },
            final(self).logging.level@ == match level {
                Some(l) => l@,
                None => old(self).logging.level@,
            },
            final(self).printers@ == old(self).printers@,
    {
        if let Some(h) = host {
            self.printer.ip = h;
        }
        if let Some(p) = port {
            let cs = chars_of(p.as_str());
            assert(cs@.subrange(0, cs@.len() as int) =~= p@);
            if let Some(v) = parse_u16(cs.as_slice(), 0, cs.len()) {
                self.printer.port = v;
            }
        }
        if let Some(l) = level {
            self.logging.level = l;
        }
    }
}

} // verus!

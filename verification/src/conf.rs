//! The daemon's configuration: the `[main]` switches and the extra regex
//! catalog entries a configuration file may add. Reading and decoding the
//! TOML file happens outside; these are the decoded values and their
//! validation.

use vstd::prelude::*;

use crate::catalog::RegexConf;
use crate::error::PeripetyError;
use crate::event::StorageSubSystem;
use crate::regexes::{regex_new, regex_pattern};
use crate::strutil::concat2;

verus! {

/// The `[main]` table; every switch is optional.
pub struct ConfMain {
    pub save_to_journald: Option<bool>,
    pub notify_stdout: Option<bool>,
    pub dump_blk_info_at_start: Option<bool>,
}

impl ConfMain {
    /// The switches with their defaults filled in: save to journald on,
    /// stdout notification off, topology dump at start on.
    pub fn effective(&self) -> (r: (bool, bool, bool))
        ensures
            r.0 == (match self.save_to_journald {
                Some(v) => v,
                None => true,
            }),
            r.1 == (match self.notify_stdout {
                Some(v) => v,
                None => false,
            }),
            r.2 == (match self.dump_blk_info_at_start {
                Some(v) => v,
                None => true,
            }),
    {
        let save = match self.save_to_journald {
            Some(v) => v,
            None => true,
        };
        let notify = match self.notify_stdout {
            Some(v) => v,
            None => false,
        };
        let dump = match self.dump_blk_info_at_start {
            Some(v) => v,
            None => true,
        };
        (save, notify, dump)
    }
}

/// One user-supplied catalog entry, as decoded from the file.
pub struct ConfRegex {
    pub regex: String,
    pub event_type: String,
    pub starts_with: Option<String>,
    pub sub_system: String,
}

/// The collector's table: the extra entries.
pub struct ConfCollector {
    pub regexs: Option<Vec<ConfRegex>>,
}

/// The whole configuration file.
pub struct Conf {
    pub main: ConfMain,
    pub collector: ConfCollector,
}

/// An older file layout: the entries stand beside the `[main]` table.
pub struct PeripetyConf {
    pub main: ConfMain,
    pub regexs: Vec<ConfRegex>,
}

impl ConfRegex {
    /// Validate and compile one user entry. `ConfError` when the regex
    /// does not compile or the subsystem name is unknown; such an entry
    /// is skipped, the built-ins stay in force.
    pub fn to_regex_conf(&self) -> (r: Result<RegexConf, PeripetyError>)
        ensures
            r is Ok <==> (crate::regexes::pattern_compiles(self.regex@)
                && StorageSubSystem::spec_from_str(self.sub_system@) is Some),
            match r {
                Ok(c) => {
                    &&& regex_pattern(c.regex) == self.regex@
                    &&& StorageSubSystem::spec_from_str(self.sub_system@) == Some(
                        c.sub_system,
                    )
                    &&& c.event_type@ == self.event_type@
                    &&& (match (c.starts_with, self.starts_with) {
                        (Some(a), Some(b)) => a@ == b@,
                        (None, None) => true,
                        _ => false,
                    })
                },
                Err(e) => e is ConfError,
            },
    {
        let regex = match regex_new(self.regex.as_str()) {
            Ok(re) => re,
            Err(msg) => {
                return Err(
                    PeripetyError::ConfError(concat2("Invalid regex: ", msg.as_str())),
                );
            },
        };
        let sub_system = match StorageSubSystem::from_str(self.sub_system.as_str()) {
            Ok(s) => s,
            Err(e) => {
                return Err(
                    PeripetyError::ConfError(
                        concat2("Invalid sub_system: ", e.msg().as_str()),
                    ),
                );
            },
        };
        let starts_with = match &self.starts_with {
            Some(p) => Some(p.clone()),
            None => None,
        };
        Ok(
            RegexConf {
                starts_with,
                regex,
                sub_system,
                event_type: self.event_type.clone(),
            },
        )
    }
}

/// The older entry shape validates the same way.
pub struct ConfCollectorRegex {
    pub regex: String,
    pub event_type: String,
    pub starts_with: Option<String>,
    pub sub_system: String,
}

impl ConfCollectorRegex {
    /// Validate and compile one entry of the older layout.
    pub fn to_regex_conf(&self) -> (r: Result<RegexConf, PeripetyError>)
        ensures
            r is Ok <==> (crate::regexes::pattern_compiles(self.regex@)
                && StorageSubSystem::spec_from_str(self.sub_system@) is Some),
            match r {
                Ok(c) => {
                    &&& regex_pattern(c.regex) == self.regex@
                    &&& StorageSubSystem::spec_from_str(self.sub_system@) == Some(
                        c.sub_system,
                    )
                    &&& c.event_type@ == self.event_type@
                    &&& (match (c.starts_with, self.starts_with) {
                        (Some(a), Some(b)) => a@ == b@,
                        (None, None) => true,
                        _ => false,
                    })
                },
                Err(e) => e is ConfError,
            },
    {
        let entry = ConfRegex {
            regex: self.regex.clone(),
            event_type: self.event_type.clone(),
            starts_with: match &self.starts_with {
                Some(p) => Some(p.clone()),
                None => None,
            },
            sub_system: self.sub_system.clone(),
        };
        entry.to_regex_conf()
    }
}

} // verus!

//! The monitor's configuration.

use vstd::prelude::*;
use vstd::string::StringExecFns;

verus! {

/// How much the monitor logs.
#[derive(Debug, Clone, Copy, PartialEq, Eq, Structural)]
pub enum LevelFilter {
    Off,
    Error,
    Warn,
    Info,
    Debug,
    Trace,
}

/// An OCI container runtime monitor's settings.
#[derive(Debug)]
pub struct Config {
    /// The logging level of the monitor.
    log_level: LevelFilter,
    /// PID file for the monitor.
    conmon_pidfile: Option<String>,
    /// Path of the OCI runtime to use to operate on the containers.
    runtime: String,
    /// Address the monitor listens on.
    listen_addr: String,
}

/// Mathematical value of a [`Config`].
pub ghost struct ConfigView {
    pub log_level: LevelFilter,
    pub conmon_pidfile: Option<Seq<char>>,
    pub runtime: Seq<char>,
    pub listen_addr: Seq<char>,
}

/// What `validate` says of a runtime path that names nothing.
pub open spec fn missing_runtime(runtime: Seq<char>) -> Seq<char> {
    "runtime path '"@ + runtime + "' does not exist"@
}

impl View for Config {
    type V = ConfigView;

    closed spec fn view(&self) -> ConfigView {
        ConfigView {
            log_level: self.log_level,
            conmon_pidfile: match self.conmon_pidfile {
                Some(path) => Some(path@),
                None => None,
            },
            runtime: self.runtime@,
            listen_addr: self.listen_addr@,
        }
    }
}

impl Config {
    /// A configuration with the given settings.
    pub fn new(
        log_level: LevelFilter,
        conmon_pidfile: Option<String>,
        runtime: String,
        listen_addr: String,
    ) -> (config: Self)
        ensures
            config@.log_level == log_level,
            config@.conmon_pidfile == match conmon_pidfile {
                Some(path) => Some(path@),
                None => None,
            },
            config@.runtime == runtime@,
            config@.listen_addr == listen_addr@,
    {
        Self { log_level, conmon_pidfile, runtime, listen_addr }
    }

    /// The logging level of the monitor.
    pub fn log_level(&self) -> (level: LevelFilter)
        ensures
            level == self@.log_level,
    {
        self.log_level
    }

    /// PID file for the monitor.
    pub fn conmon_pidfile(&self) -> (path: &Option<String>)
        ensures
            match *path {
                Some(p) => self@.conmon_pidfile == Some(p@),
                None => self@.conmon_pidfile is None,
            },
    {
        &self.conmon_pidfile
    }

    /// Path of the OCI runtime to use to operate on the containers.
    pub fn runtime(&self) -> (path: &String)
        ensures
            path@ == self@.runtime,
    {
        &self.runtime
    }

    /// Address the monitor listens on.
    pub fn listen_addr(&self) -> (addr: &String)
        ensures
            addr@ == self@.listen_addr,
    {
        &self.listen_addr
    }

    /// Validate the configuration integrity: the runtime path has to name
    /// something. `runtime_exists` says whether it does.
    pub fn validate(&mut self, runtime_exists: bool) -> (valid: Result<(), String>)
        ensures
            final(self)@ == old(self)@,
            match valid {
                Ok(()) => runtime_exists,
                Err(message) => !runtime_exists && message@ == missing_runtime(old(self)@.runtime),
            },
    {
        if !runtime_exists {
            let mut message = String::from_str("runtime path '");
            message.append(self.runtime.as_str());
            message.append("' does not exist");
            return Err(message);
        }
        Ok(())
    }
}

} // verus!

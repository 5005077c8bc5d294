//! The configuration of a run: what the configuration file says, overlaid
//! with what the command line says.

use crate::labels::CliKeyValues;
use vstd::prelude::*;
use vstd::string::StringExecFns;

verus! {

/// Where the configuration file is looked for, unless the command line says
/// otherwise.
pub open spec fn default_config_text() -> Seq<char> {
    "/etc/lading/lading.yaml"@
}

/// Where the configuration file is looked for, unless the command line says
/// otherwise.
pub fn default_config_path() -> (r: String)
    ensures
        r@ == default_config_text(),
{
    String::from_str("/etc/lading/lading.yaml")
}

/// What becomes of an output stream of the target.
#[derive(Debug)]
pub enum Behavior {
    /// It is dropped.
    Quiet,
    /// It is written to the file at this path.
    Log(String),
}

/// What becomes of the target's output, unless the command line says
/// otherwise: it is dropped.
pub fn default_target_behavior() -> (r: Behavior)
    ensures
        r == Behavior::Quiet,
{
    Behavior::Quiet
}

/// What becomes of the two output streams of the target.
#[derive(Debug)]
pub struct Output {
    /// What becomes of standard error.
    pub stderr: Behavior,
    /// What becomes of standard output.
    pub stdout: Behavior,
}

/// A target that runs already.
#[derive(Debug, Clone, Copy, PartialEq, Eq, Structural)]
pub struct PidConfig {
    /// Its process id.
    pub pid: u32,
}

/// A target that the rig starts.
pub struct BinaryConfig {
    /// The path of the executable.
    pub command: String,
    /// Its arguments.
    pub arguments: Vec<String>,
    /// Whether it inherits the environment of the rig.
    pub inherit_environment: bool,
    /// The variables that are added to its environment.
    pub environment_variables: CliKeyValues,
    /// What becomes of its output.
    pub output: Output,
}

/// The target of a run.
pub enum Target {
    /// A process that runs already.
    Pid(PidConfig),
    /// An executable that the rig starts.
    Binary(BinaryConfig),
}

/// Where telemetry goes.
pub enum Telemetry {
    /// It is served to whoever scrapes this address.
    Prometheus {
        /// The address to serve on.
        prometheus_addr: String,
        /// The labels that every metric gets.
        global_labels: CliKeyValues,
    },
    /// It is written to a file of captures.
    Log {
        /// The path of the file.
        path: String,
        /// The labels that every metric gets.
        global_labels: CliKeyValues,
    },
}

impl Telemetry {
    /// The labels that every metric gets.
    pub open spec fn labels(self) -> Map<Seq<char>, Seq<char>> {
        match self {
            Telemetry::Prometheus { prometheus_addr, global_labels } => global_labels@,
            Telemetry::Log { path, global_labels } => global_labels@,
        }
    }
}

/// What the command line says.
pub struct Options {
    /// Labels for every metric.
    pub global_labels: Option<CliKeyValues>,
    /// The process id of a target that runs already.
    pub target_pid: Option<u32>,
    /// Whether there is no target.
    pub no_target: bool,
    /// The path of a target to start.
    pub target_path: Option<String>,
    /// Whether that target inherits the environment of the rig.
    pub target_inherit_environment: bool,
    /// Variables to add to that target's environment.
    pub target_environment_variables: Option<CliKeyValues>,
    /// The arguments of that target.
    pub target_arguments: Vec<String>,
    /// What becomes of that target's standard output.
    pub target_stdout_path: Behavior,
    /// What becomes of that target's standard error.
    pub target_stderr_path: Behavior,
    /// The path of a file to write captures to. Prevails over
    /// `prometheus_addr` if both are given.
    pub capture_path: Option<String>,
    /// The address to serve telemetry on.
    pub prometheus_addr: Option<String>,
}

/// What the configuration file says, as far as the command line bears on
/// it.
pub struct Config {
    /// The target, which only the command line gives.
    pub target: Option<Target>,
    /// Where telemetry goes.
    pub telemetry: Telemetry,
}

/// Why the command line and the configuration do not make a run.
#[derive(Debug, Clone, Copy, PartialEq, Eq, Structural)]
pub enum Error {
    /// Not exactly one of a target path, a target pid and no target was
    /// given.
    TargetSelection,
    /// Neither a path to a configuration nor its content was given.
    ConfigSelection,
}

/// What the command line says of a process tree to generate.
#[derive(Debug)]
pub struct ProcessTreeGen {
    /// The path of the configuration file.
    pub config_path: Option<String>,
    /// The configuration itself.
    pub config_content: Option<String>,
}

/// The commands beside the run itself.
#[derive(Debug)]
pub enum ExtraCommands {
    /// Generate a tree of processes.
    ProcessTreeGen(ProcessTreeGen),
}

/// Where a configuration comes from.
#[derive(Debug)]
pub enum ConfigSource {
    /// From the file at this path.
    Path(String),
    /// From this text.
    Content(String),
}

/// Where the configuration of the process tree comes from: from the path,
/// if one is given, else from the content. Fails exactly when neither is
/// given.
pub fn run_process_tree(opts: ProcessTreeGen) -> (r: Result<ConfigSource, Error>)
    ensures
        r == match (opts.config_path, opts.config_content) {
            (Some(path), _) => Ok::<ConfigSource, Error>(ConfigSource::Path(path)),
            (None, Some(content)) => Ok::<ConfigSource, Error>(ConfigSource::Content(content)),
            (None, None) => Err::<ConfigSource, Error>(Error::ConfigSelection),
        },
{
    match opts.config_path {
        Some(path) => Ok(ConfigSource::Path(path)),
        None => match opts.config_content {
            Some(content) => Ok(ConfigSource::Content(content)),
            None => Err(Error::ConfigSelection),
        },
    }
}

/// What an extra command works on: for the process tree, the source of its
/// configuration.
pub fn run_extra_cmds(cmds: ExtraCommands) -> (r: Result<ConfigSource, Error>)
    ensures
        r == match cmds {
            ExtraCommands::ProcessTreeGen(opts) => match (opts.config_path, opts.config_content) {
                (Some(path), _) => Ok::<ConfigSource, Error>(ConfigSource::Path(path)),
                (None, Some(content)) => Ok::<ConfigSource, Error>(ConfigSource::Content(content)),
                (None, None) => Err::<ConfigSource, Error>(Error::ConfigSelection),
            },
        },
{
    match cmds {
        ExtraCommands::ProcessTreeGen(opts) => run_process_tree(opts),
    }
}

impl Options {
    /// How many of the three ways to say what the target is were used.
    pub open spec fn targets_given(self) -> int {
        (if self.no_target {
            1int
        } else {
            0int
        }) + (if self.target_pid is Some {
            1int
        } else {
            0int
        }) + (if self.target_path is Some {
            1int
        } else {
            0int
        })
    }

    /// The labels of the command line; none if none were given.
    pub open spec fn labels(self) -> Map<Seq<char>, Seq<char>> {
        match self.global_labels {
            Some(labels) => labels@,
            None => Map::empty(),
        }
    }

    /// The variables for the target's environment; none if none were given.
    pub open spec fn environment(self) -> Map<Seq<char>, Seq<char>> {
        match self.target_environment_variables {
            Some(variables) => variables@,
            None => Map::empty(),
        }
    }
}

/// The target is what the command line says it is.
pub open spec fn target_follows(target: Option<Target>, ops: Options) -> bool {
    match target {
        None => ops.no_target,
        Some(Target::Pid(config)) => ops.target_pid == Some(config.pid),
        Some(Target::Binary(config)) => {
            &&& ops.target_path == Some(config.command)
            &&& config.arguments == ops.target_arguments
            &&& config.inherit_environment == ops.target_inherit_environment
            &&& config.environment_variables@ == ops.environment()
            &&& config.output.stderr == ops.target_stderr_path
            &&& config.output.stdout == ops.target_stdout_path
        },
    }
}

/// Telemetry goes where the command line says, or else where the
/// configuration file says.
///
/// A capture path on the command line sends it to that file, whatever else
/// is said; without one, a Prometheus address on the command line has it
/// served there. In both cases the labels are those of the command line
/// alone. Without either, telemetry goes where the file says, and the
/// labels of the command line are added to those of the file, prevailing
/// where both have a key.
pub open spec fn telemetry_follows(telemetry: Telemetry, ops: Options, configured: Telemetry) -> bool {
    if ops.capture_path is Some {
        &&& telemetry matches Telemetry::Log { path, global_labels }
        &&& Some(path) == ops.capture_path
        &&& global_labels@ == ops.labels()
    } else if ops.prometheus_addr is Some {
        &&& telemetry matches Telemetry::Prometheus { prometheus_addr, global_labels }
        &&& Some(prometheus_addr) == ops.prometheus_addr
        &&& global_labels@ == ops.labels()
    } else {
        match configured {
            Telemetry::Prometheus { prometheus_addr: addr, global_labels: labels } => {
                &&& telemetry matches Telemetry::Prometheus { prometheus_addr, global_labels }
                &&& prometheus_addr == addr
                &&& global_labels@ == labels@.union_prefer_right(ops.labels())
            },
            Telemetry::Log { path: file, global_labels: labels } => {
                &&& telemetry matches Telemetry::Log { path, global_labels }
                &&& path == file
                &&& global_labels@ == labels@.union_prefer_right(ops.labels())
            },
        }
    }
}

/// Overlays the configuration with the command line.
///
/// Fails exactly when the command line does not say in exactly one way
/// what the target is, and succeeds on every other input. Then the target
/// is what the command line says, and telemetry goes where the command line
/// says or, if it does not say, where the configuration says.
pub fn get_config(ops: Options, config: Config) -> (r: Result<Config, Error>)
    ensures
        ops.targets_given() != 1 <==> r == Err::<Config, Error>(Error::TargetSelection),
        ops.targets_given() == 1 <==> r is Ok,
        r matches Ok(merged) ==> {
            &&& target_follows(merged.target, ops)
            &&& telemetry_follows(merged.telemetry, ops, config.telemetry)
        },
{
    let Options {
        global_labels,
        target_pid,
        no_target,
        target_path,
        target_inherit_environment,
        target_environment_variables,
        target_arguments,
        target_stdout_path,
        target_stderr_path,
        capture_path,
        prometheus_addr,
    } = ops;
    let given: u8 = (if no_target {
        1u8
    } else {
        0u8
    }) + (if target_pid.is_some() {
        1u8
    } else {
        0u8
    }) + (if target_path.is_some() {
        1u8
    } else {
        0u8
    });
    if given != 1 {
        return Err(Error::TargetSelection);
    }
    let target = if no_target {
        None
    } else {
        match target_pid {
            Some(pid) => Some(Target::Pid(PidConfig { pid })),
            None => match target_path {
                Some(path) => Some(
                    Target::Binary(
                        BinaryConfig {
                            command: path,
                            arguments: target_arguments,
                            inherit_environment: target_inherit_environment,
                            environment_variables: match target_environment_variables {
                                Some(variables) => variables,
                                None => CliKeyValues::default(),
                            },
                            output: Output { stderr: target_stderr_path, stdout: target_stdout_path },
                        },
                    ),
                ),
                None => None,
            },
        }
    };
    let options_global_labels = match global_labels {
        Some(labels) => labels,
        None => CliKeyValues::default(),
    };
    let telemetry = match capture_path {
        Some(path) => Telemetry::Log { path, global_labels: options_global_labels },
        None => match prometheus_addr {
            Some(addr) => Telemetry::Prometheus {
                prometheus_addr: addr,
                global_labels: options_global_labels,
            },
            None => match config.telemetry {
                Telemetry::Prometheus { prometheus_addr, global_labels } => {
                    let mut merged = global_labels;
                    merged.extend(options_global_labels);
                    Telemetry::Prometheus { prometheus_addr, global_labels: merged }
                },
                Telemetry::Log { path, global_labels } => {
                    let mut merged = global_labels;
                    merged.extend(options_global_labels);
                    Telemetry::Log { path, global_labels: merged }
                },
            },
        },
    };
    Ok(Config { target, telemetry })
}

} // verus!

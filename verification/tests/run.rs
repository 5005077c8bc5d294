use lading::blackhole::udp;
use lading::blackhole::udp::Udp;
use lading::config::default_config_path;
use lading::config::default_target_behavior;
use lading::config::get_config;
use lading::config::run_extra_cmds;
use lading::config::run_process_tree;
use lading::config::Behavior;
use lading::config::Config;
use lading::config::ConfigSource;
use lading::config::Error;
use lading::config::ExtraCommands;
use lading::config::Options;
use lading::config::ProcessTreeGen;
use lading::config::Target;
use lading::config::Telemetry;
use lading::generator::General;
use lading::labels::CliKeyValues;
use lading::orchestrator::plan;
use lading::orchestrator::Action;
use lading::orchestrator::Event;
use lading::orchestrator::Run;
use lading::orchestrator::State;
use lading::orchestrator::TargetExit;
use lading::orchestrator::Timing;
use lading::orchestrator::Worker;
use lading::orchestrator::Workers;
use lading::signals::Shutdown;
use lading::signals::Wait;
use lading::target_metrics::expvar;
use lading::target_metrics::expvar::gauge_name;
use lading::target_metrics::expvar::Ended;
use lading::target_metrics::expvar::Expvar;

fn options() -> Options {
    Options {
        global_labels: None,
        target_pid: None,
        no_target: false,
        target_path: None,
        target_inherit_environment: false,
        target_environment_variables: None,
        target_arguments: Vec::new(),
        target_stdout_path: default_target_behavior(),
        target_stderr_path: default_target_behavior(),
        capture_path: None,
        prometheus_addr: None,
    }
}

fn file_config(labels: &str) -> Config {
    Config {
        target: None,
        telemetry: Telemetry::Prometheus {
            prometheus_addr: "0.0.0.0:9000".to_string(),
            global_labels: CliKeyValues::from_str(labels).unwrap(),
        },
    }
}

fn sorted(labels: &CliKeyValues) -> Vec<(String, String)> {
    let mut pairs = labels.pairs();
    pairs.sort();
    pairs
}

fn pair(key: &str, value: &str) -> (String, String) {
    (key.to_string(), value.to_string())
}

#[test]
fn defaults() {
    assert_eq!(default_config_path(), "/etc/lading/lading.yaml");
    assert!(matches!(default_target_behavior(), Behavior::Quiet));
}

#[test]
fn exactly_one_target_must_be_selected() {
    let r = get_config(options(), file_config(""));
    assert_eq!(r.err(), Some(Error::TargetSelection));
    let mut ops = options();
    ops.no_target = true;
    ops.target_pid = Some(1);
    assert_eq!(get_config(ops, file_config("")).err(), Some(Error::TargetSelection));
    let mut ops = options();
    ops.target_pid = Some(1);
    ops.target_path = Some("/bin/true".to_string());
    assert_eq!(get_config(ops, file_config("")).err(), Some(Error::TargetSelection));
}

#[test]
fn no_target() {
    let mut ops = options();
    ops.no_target = true;
    let config = get_config(ops, file_config("")).ok().unwrap();
    assert!(config.target.is_none());
}

#[test]
fn pid_target() {
    let mut ops = options();
    ops.target_pid = Some(4242);
    let config = get_config(ops, file_config("")).ok().unwrap();
    match config.target {
        Some(Target::Pid(pid)) => assert_eq!(pid.pid, 4242),
        _ => panic!("expected a pid target"),
    }
}

#[test]
fn binary_target() {
    let mut ops = options();
    ops.target_path = Some("/bin/target".to_string());
    ops.target_arguments = vec!["--flag".to_string(), "value".to_string()];
    ops.target_inherit_environment = true;
    ops.target_environment_variables = Some(CliKeyValues::from_str("A=1,B=2").unwrap());
    ops.target_stdout_path = Behavior::Log("/tmp/out".to_string());
    let config = get_config(ops, file_config("")).ok().unwrap();
    match config.target {
        Some(Target::Binary(binary)) => {
            assert_eq!(binary.command, "/bin/target");
            assert_eq!(binary.arguments, vec!["--flag".to_string(), "value".to_string()]);
            assert!(binary.inherit_environment);
            assert_eq!(sorted(&binary.environment_variables), vec![pair("A", "1"), pair("B", "2")]);
            assert!(matches!(binary.output.stderr, Behavior::Quiet));
            match binary.output.stdout {
                Behavior::Log(path) => assert_eq!(path, "/tmp/out"),
                Behavior::Quiet => panic!("expected a path"),
            }
        }
        _ => panic!("expected a binary target"),
    }
    let mut ops = options();
    ops.target_path = Some("/bin/target".to_string());
    let config = get_config(ops, file_config("")).ok().unwrap();
    match config.target {
        Some(Target::Binary(binary)) => assert!(binary.environment_variables.pairs().is_empty()),
        _ => panic!("expected a binary target"),
    }
}

#[test]
fn capture_path_prevails_over_prometheus_addr() {
    let mut ops = options();
    ops.no_target = true;
    ops.capture_path = Some("/tmp/captures".to_string());
    ops.prometheus_addr = Some("127.0.0.1:9999".to_string());
    ops.global_labels = Some(CliKeyValues::from_str("cli=yes").unwrap());
    let config = get_config(ops, file_config("file=yes")).ok().unwrap();
    match config.telemetry {
        Telemetry::Log { path, global_labels } => {
            assert_eq!(path, "/tmp/captures");
            assert_eq!(sorted(&global_labels), vec![pair("cli", "yes")]);
        }
        Telemetry::Prometheus { .. } => panic!("the capture path prevails"),
    }
}

#[test]
fn prometheus_addr_of_the_command_line() {
    let mut ops = options();
    ops.no_target = true;
    ops.prometheus_addr = Some("127.0.0.1:9999".to_string());
    let config = get_config(ops, file_config("file=yes")).ok().unwrap();
    match config.telemetry {
        Telemetry::Prometheus { prometheus_addr, global_labels } => {
            assert_eq!(prometheus_addr, "127.0.0.1:9999");
            assert!(global_labels.pairs().is_empty());
        }
        Telemetry::Log { .. } => panic!("expected prometheus"),
    }
}

#[test]
fn labels_of_file_and_command_line_are_merged() {
    let mut ops = options();
    ops.no_target = true;
    ops.global_labels = Some(CliKeyValues::from_str("both=cli,cli=yes").unwrap());
    let config = get_config(ops, file_config("both=file,file=yes")).ok().unwrap();
    match config.telemetry {
        Telemetry::Prometheus { prometheus_addr, global_labels } => {
            assert_eq!(prometheus_addr, "0.0.0.0:9000");
            assert_eq!(
                sorted(&global_labels),
                vec![pair("both", "cli"), pair("cli", "yes"), pair("file", "yes")]
            );
        }
        Telemetry::Log { .. } => panic!("expected prometheus"),
    }
    let mut ops = options();
    ops.no_target = true;
    ops.global_labels = Some(CliKeyValues::from_str("cli=yes").unwrap());
    let configured = Config {
        target: None,
        telemetry: Telemetry::Log {
            path: "/var/log/captures".to_string(),
            global_labels: CliKeyValues::from_str("file=yes").unwrap(),
        },
    };
    match get_config(ops, configured).ok().unwrap().telemetry {
        Telemetry::Log { path, global_labels } => {
            assert_eq!(path, "/var/log/captures");
            assert_eq!(sorted(&global_labels), vec![pair("cli", "yes"), pair("file", "yes")]);
        }
        Telemetry::Prometheus { .. } => panic!("expected a log"),
    }
}

#[test]
fn extra_commands() {
    let both = ProcessTreeGen {
        config_path: Some("/etc/tree.yaml".to_string()),
        config_content: Some("content".to_string()),
    };
    match run_extra_cmds(ExtraCommands::ProcessTreeGen(both)) {
        Ok(ConfigSource::Path(path)) => assert_eq!(path, "/etc/tree.yaml"),
        _ => panic!("the path comes first"),
    }
    let content = ProcessTreeGen { config_path: None, config_content: Some("content".to_string()) };
    match run_process_tree(content) {
        Ok(ConfigSource::Content(text)) => assert_eq!(text, "content"),
        _ => panic!("expected the content"),
    }
    let neither = ProcessTreeGen { config_path: None, config_content: None };
    assert_eq!(run_process_tree(neither).err(), Some(Error::ConfigSelection));
}

#[test]
fn start_order() {
    let workers =
        Workers { generators: 2, inspector: true, blackholes: 1, target_metrics: 2, target: true };
    assert_eq!(
        plan(workers, false),
        vec![
            Worker::Generator(0),
            Worker::Generator(1),
            Worker::Inspector,
            Worker::Blackhole(0),
            Worker::TargetMetrics(0),
            Worker::TargetMetrics(1),
            Worker::Observer,
            Worker::Target,
        ]
    );
    let workers =
        Workers { generators: 1, inspector: true, blackholes: 0, target_metrics: 0, target: false };
    assert_eq!(plan(workers, true), vec![Worker::Generator(0), Worker::AnnounceNoTarget]);
    let workers =
        Workers { generators: 0, inspector: false, blackholes: 0, target_metrics: 0, target: false };
    assert_eq!(plan(workers, false), vec![Worker::AnnounceNoTarget]);
}

#[test]
fn timing_splits_the_shutdown_delay() {
    let timing = Timing::new(30, 120, 30);
    assert_eq!(timing.warmup_seconds, 30);
    assert_eq!(timing.experiment_seconds, 120);
    assert_eq!(timing.grace_milliseconds, 15_000);
    assert_eq!(Timing::new(0, 0, 1).grace_milliseconds, 500);
    assert_eq!(Timing::new(0, 0, u16::MAX).grace_milliseconds, 32_767_500);
}

#[test]
fn run_goes_through_its_states() {
    let mut run = Run::new(Timing::new(5, 60, 4));
    assert_eq!(run.state, State::Init);
    assert_eq!(run.advance(Event::TelemetryInstalled), Action::SpawnWorkers);
    assert_eq!(run.state, State::TelemetryInstalled);
    assert_eq!(run.advance(Event::WorkersSpawned), Action::Start);
    assert_eq!(run.state, State::WorkersSpawned);
    assert_eq!(run.advance(Event::Started), Action::Sleep(5));
    assert_eq!(run.state, State::Warmup);
    assert_eq!(run.advance(Event::Elapsed), Action::Sleep(60));
    assert_eq!(run.state, State::Sampling);
    assert_eq!(run.advance(Event::Elapsed), Action::Drain(2_000));
    assert_eq!(run.state, State::Draining);
    assert_eq!(run.advance(Event::Drained), Action::Exit { code: 0, grace_milliseconds: 2_000 });
    assert_eq!(run.state, State::Terminated);
    assert_eq!(run.advance(Event::CtrlC), Action::Wait);
    assert_eq!(run.state, State::Terminated);
}

#[test]
fn shutdown_bound() {
    // One second of experiment, no warm-up, two seconds for the shutdown.
    let mut run = Run::new(Timing::new(0, 1, 2));
    run.advance(Event::TelemetryInstalled);
    run.advance(Event::WorkersSpawned);
    let mut seconds = 0u32;
    let mut milliseconds = 0u32;
    let mut action = run.advance(Event::Started);
    let code = loop {
        action = match action {
            Action::Sleep(s) => {
                seconds += s;
                run.advance(Event::Elapsed)
            }
            Action::Drain(ms) => {
                milliseconds += ms;
                run.advance(Event::Drained)
            }
            Action::Exit { code, grace_milliseconds } => {
                milliseconds += grace_milliseconds;
                break code;
            }
            other => panic!("unexpected {:?}", other),
        };
    };
    assert_eq!(code, 0);
    assert!(seconds * 1000 + milliseconds <= 3_000);
}

#[test]
fn interrupts_lead_to_draining() {
    for stage in 0..3 {
        let mut run = Run::new(Timing::new(5, 60, 4));
        run.advance(Event::TelemetryInstalled);
        run.advance(Event::WorkersSpawned);
        if stage > 0 {
            run.advance(Event::Started);
        }
        if stage > 1 {
            run.advance(Event::Elapsed);
        }
        assert_eq!(run.advance(Event::CtrlC), Action::Drain(2_000));
        assert_eq!(run.state, State::Draining);
        assert_eq!(run.advance(Event::Drained), Action::Exit { code: 0, grace_milliseconds: 2_000 });
    }
    let mut run = Run::new(Timing::new(5, 60, 4));
    assert_eq!(run.advance(Event::CtrlC), Action::Wait);
    assert_eq!(run.state, State::Init);
}

#[test]
fn failed_target_sets_the_exit_code() {
    let mut run = Run::new(Timing::new(5, 60, 4));
    run.advance(Event::TelemetryInstalled);
    run.advance(Event::WorkersSpawned);
    run.advance(Event::Started);
    assert_eq!(run.advance(Event::TargetExited(TargetExit::Failed)), Action::Drain(2_000));
    assert_eq!(run.advance(Event::Drained), Action::Exit { code: 1, grace_milliseconds: 2_000 });
    let mut run = Run::new(Timing::new(5, 60, 4));
    run.advance(Event::TelemetryInstalled);
    run.advance(Event::WorkersSpawned);
    assert_eq!(run.advance(Event::TargetExited(TargetExit::Expected)), Action::Drain(2_000));
    assert_eq!(run.advance(Event::Drained), Action::Exit { code: 0, grace_milliseconds: 2_000 });
}

#[test]
fn shutdown_signal_is_idempotent() {
    let mut shutdown = Shutdown::new();
    assert!(!shutdown.recv());
    assert!(shutdown.subscribe());
    assert!(shutdown.signal());
    assert!(shutdown.recv());
    // A second signal is a silent no-op.
    assert!(!shutdown.signal());
    assert!(shutdown.recv());
    // A subscriber that comes late sees the signal too.
    assert!(shutdown.subscribe());
    assert!(shutdown.recv());
    assert_eq!(shutdown.subscribers, 2);
    // Signalling without subscribers does not fail.
    let mut lonely = Shutdown::new();
    assert!(lonely.signal());
    let mut full = Shutdown { fired: false, subscribers: usize::MAX };
    assert!(!full.subscribe());
    assert_eq!(full.subscribers, usize::MAX);
}

#[test]
fn shutdown_wait() {
    let mut shutdown = Shutdown::new();
    shutdown.signal();
    assert_eq!(shutdown.wait(0, 15_000), Wait::Drained);
    shutdown.subscribe();
    shutdown.subscribe();
    assert_eq!(shutdown.wait(0, 15_000), Wait::Pause(1_000));
    assert_eq!(shutdown.wait(14_500, 15_000), Wait::Pause(500));
    assert_eq!(shutdown.wait(15_000, 15_000), Wait::TimedOut);
    assert_eq!(shutdown.wait(20_000, 15_000), Wait::TimedOut);
    shutdown.release();
    assert_eq!(shutdown.wait(1_000, 15_000), Wait::Pause(1_000));
    shutdown.release();
    assert_eq!(shutdown.wait(1_000, 15_000), Wait::Drained);
    shutdown.release();
    assert_eq!(shutdown.subscribers, 0);
}

#[test]
fn udp_blackhole() {
    let config = udp::Config { binding_addr: "127.0.0.1:8125".to_string() };
    let blackhole = Udp::new(General { id: Some("b".to_string()) }, &config);
    assert_eq!(blackhole.binding_addr(), "127.0.0.1:8125");
    assert_eq!(
        blackhole.metric_labels(),
        &vec![
            ("component".to_string(), "blackhole".to_string()),
            ("component_name".to_string(), "udp".to_string()),
            ("id".to_string(), "b".to_string()),
        ]
    );
    match blackhole.run(udp::Event::Packet(512)) {
        udp::Outcome::Count { packets, bytes } => {
            assert_eq!(packets, 1);
            assert_eq!(bytes, 512);
        }
        udp::Outcome::Done(_) => panic!("a packet is counted"),
    }
    match blackhole.run(udp::Event::Failed("boom".to_string())) {
        udp::Outcome::Done(Err(udp::Error::Io(message))) => assert_eq!(message, "boom"),
        _ => panic!("a failure ends the blackhole"),
    }
    assert!(matches!(blackhole.run(udp::Event::Shutdown), udp::Outcome::Done(Ok(()))));
}

#[test]
fn expvar_scraper() {
    assert_eq!(gauge_name("/memstats/Alloc"), "target/memstats/Alloc");
    assert_eq!(gauge_name("//a/b"), "target/a/b");
    assert_eq!(gauge_name("plain"), "target/plain");
    assert_eq!(gauge_name(""), "target/");
    assert_eq!(gauge_name("///"), "target/");
    let config = expvar::Config {
        uri: "http://localhost:8080/debug/vars".to_string(),
        vars: vec!["/memstats/Alloc".to_string()],
    };
    let scraper = Expvar::new(config);
    assert_eq!(scraper.uri(), "http://localhost:8080/debug/vars");
    assert_eq!(scraper.vars(), &vec!["/memstats/Alloc".to_string()]);
    assert_eq!(scraper.run(Ended::Shutdown), Ok(()));
    let config = expvar::Config { uri: String::new(), vars: Vec::new() };
    assert_eq!(Expvar::new(config).run(Ended::Server), Err(expvar::Error::EarlyShutdown));
}

#[test]
fn the_blackhole_counts_every_datagram_with_its_bytes() {
    let blackhole = lading::blackhole::udp::Udp::new(
        lading::generator::General { id: None },
        &lading::blackhole::udp::Config { binding_addr: "127.0.0.1:0".to_string() },
    );
    let lengths = [0usize, 1, 1_432, 65_507, 8_192];
    let mut packets_received = 0u64;
    let mut bytes_received = 0u64;
    for len in lengths {
        match blackhole.run(lading::blackhole::udp::Event::Packet(len)) {
            lading::blackhole::udp::Outcome::Count { packets, bytes } => {
                packets_received += packets;
                bytes_received += bytes;
            }
            lading::blackhole::udp::Outcome::Done(_) => panic!("the blackhole goes on"),
        }
    }
    assert_eq!(packets_received, 5);
    assert_eq!(bytes_received, 1 + 1_432 + 65_507 + 8_192);
    assert!(matches!(
        blackhole.run(lading::blackhole::udp::Event::Shutdown),
        lading::blackhole::udp::Outcome::Done(Ok(()))
    ));
}

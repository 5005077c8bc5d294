use lading::block::Block;
use lading::block::Cache;
use lading::block::CacheMethod;
use lading::generator::block_sizes;
use lading::generator::default_file_block_sizes;
use lading::generator::default_wire_block_sizes;
use lading::generator::file_gen;
use lading::generator::file_gen::default_rotation;
use lading::generator::file_gen::path_from_template;
use lading::generator::file_gen::FileGen;
use lading::generator::file_gen::IndexCounter;
use lading::generator::grpc;
use lading::generator::grpc::CountingDecoder;
use lading::generator::grpc::Grpc;
use lading::generator::grpc::NoopCodec;
use lading::generator::metric_labels;
use lading::generator::tcp;
use lading::generator::tcp::Tcp;
use lading::generator::truncate_u32;
use lading::generator::truncate_usize;
use lading::generator::unix_stream;
use lading::generator::unix_stream::UnixStream;
use lading::generator::Action;
use lading::generator::Event;
use lading::generator::Failure;
use lading::generator::General;
use lading::generator::SendLoop;
use lading::generator::Step;
use lading::generator::Transport;
use lading::generator::Update;
use lading::payload::Config as Variant;
use lading::throttle::Config as ThrottleConfig;
use lading::throttle::Throttle;

fn block(len: usize) -> Block {
    Block { total_bytes: len as u32, bytes: vec![b'x'; len] }
}

fn throttle(rate: u32) -> Throttle {
    Throttle::new_with_config(ThrottleConfig::default(), rate, 0).unwrap()
}

fn action(step: &Step) -> String {
    format!("{:?}", step.action)
}

fn update(step: &Step) -> String {
    format!("{:?}", step.update)
}

fn tcp_config() -> tcp::Config {
    tcp::Config {
        seed: [1; 32],
        addr: "127.0.0.1:9000".to_string(),
        variant: Variant::Ascii,
        bytes_per_second: 1_000_000,
        block_sizes: Some(vec![8_192, 16_384]),
        maximum_prebuild_cache_size_bytes: 100_000,
        throttle: ThrottleConfig::default(),
    }
}

#[test]
fn byte_counts_are_cut_down_to_their_low_bits() {
    assert_eq!(truncate_u32(5), 5);
    assert_eq!(truncate_u32(u128::from(u32::MAX)), u32::MAX);
    assert_eq!(truncate_u32(u128::from(u32::MAX) + 1), 0);
    assert_eq!(truncate_u32((1u128 << 32) + 7), 7);
    assert_eq!(truncate_usize(12), 12);
    assert_eq!(truncate_usize(usize::MAX as u128 + 3), 2);
}

#[test]
fn default_block_sizes() {
    assert_eq!(
        default_wire_block_sizes(),
        vec![32_768, 65_536, 131_072, 262_144, 524_288, 1_048_576, 2_097_152, 4_194_304]
    );
    assert_eq!(
        default_file_block_sizes(),
        vec![1_048_576, 2_097_152, 4_194_304, 8_388_608, 16_777_216, 33_554_432]
    );
    assert_eq!(block_sizes(&None, vec![10, 20]), vec![10usize, 20]);
    assert_eq!(block_sizes(&Some(vec![1, 2, 3]), vec![10, 20]), vec![1usize, 2, 3]);
}

#[test]
fn labels_name_component_and_id() {
    let labels = metric_labels("generator", "tcp", &None);
    assert_eq!(
        labels,
        vec![
            ("component".to_string(), "generator".to_string()),
            ("component_name".to_string(), "tcp".to_string()),
        ]
    );
    let labels = metric_labels("blackhole", "udp", &Some("one".to_string()));
    assert_eq!(
        labels,
        vec![
            ("component".to_string(), "blackhole".to_string()),
            ("component_name".to_string(), "udp".to_string()),
            ("id".to_string(), "one".to_string()),
        ]
    );
}

#[test]
fn path_template_substitution() {
    assert_eq!(path_from_template("/tmp/lad-%NNN%.log", 0), "/tmp/lad-0000.log");
    assert_eq!(path_from_template("/tmp/lad-%NNN%.log", 3), "/tmp/lad-0003.log");
    assert_eq!(path_from_template("/tmp/lad-%NNN%.log", 12345), "/tmp/lad-12345.log");
    assert_eq!(path_from_template("%NNN%/%NNN%", 42), "0042/0042");
    assert_eq!(path_from_template("no marker", 42), "no marker");
    assert_eq!(path_from_template("", 42), "");
    assert_eq!(path_from_template("%NNN", 42), "%NNN");
    // Markers are found from the left and do not overlap.
    assert_eq!(path_from_template("%NNN%NNN%", 7), "0007NNN%");
    assert_eq!(path_from_template("ü%NNN%ü", 7), "ü0007ü");
}

#[test]
fn index_counter_counts_up_and_wraps() {
    let mut counter = IndexCounter::new();
    assert_eq!(counter.fetch_add(), 0);
    assert_eq!(counter.fetch_add(), 1);
    assert_eq!(counter.fetch_add(), 2);
    let mut counter = IndexCounter { next: u32::MAX };
    assert_eq!(counter.fetch_add(), u32::MAX);
    assert_eq!(counter.fetch_add(), 0);
    assert!(default_rotation());
}

#[test]
fn send_loop_connects_before_it_takes_a_block() {
    let mut send = SendLoop::new(Transport::Tcp, throttle(1_000));
    let step = send.step(Event::Block(block(100)), 1_000_000);
    assert_eq!(action(&step), "Connect");
    assert!(send.in_hand().is_none());
    let step = send.step(Event::Connected, 1_000_000);
    assert_eq!(action(&step), "Write(0)");
    assert_eq!(send.in_hand().unwrap().total_bytes, 100);
    let step = send.step(Event::Wrote(100), 1_000_000);
    assert_eq!(update(&step), "Written { bytes: 100, packets: 1 }");
    assert_eq!(action(&step), "Receive");
    assert!(send.in_hand().is_none());
}

#[test]
fn reconnect_counter() {
    let mut send = SendLoop::new(Transport::Tcp, throttle(1_000));
    let step = send.step(Event::Block(block(100)), 0);
    assert_eq!(action(&step), "Connect");
    let mut failures = 0u64;
    let mut bytes_written = 0u64;
    let mut now = 0u64;
    // Three seconds against a closed port.
    while now < 3_000_000 {
        let step = send.step(Event::ConnectFailed("connection refused".to_string()), now);
        match step.update {
            Update::ConnectionFailure(error) => {
                assert_eq!(error, "connection refused");
                failures += 1;
            }
            Update::Written { bytes, .. } => bytes_written += bytes,
            _ => {}
        }
        match step.action {
            Action::Sleep(ticks) => {
                assert_eq!(ticks, 1_000_000);
                now += ticks;
            }
            other => panic!("expected a pause, got {:?}", other),
        }
        let step = send.step(Event::Woke, now);
        assert_eq!(action(&step), "Connect");
    }
    assert_eq!(failures, 3);
    assert_eq!(bytes_written, 0);
    assert!(send.in_hand().is_none());
}

#[test]
fn rate_ceiling() {
    // One MiB a second for five seconds into a blackhole that counts.
    let mib: u64 = 1_048_576;
    let blackhole = lading::blackhole::udp::Udp::new(
        General { id: None },
        &lading::blackhole::udp::Config { binding_addr: "127.0.0.1:0".to_string() },
    );
    let mut send = SendLoop::new(Transport::UnixStream, throttle(mib as u32));
    let mut bytes_received = 0u64;
    let mut packet_received = 0u64;
    let mut now = 0u64;
    let mut step = send.step(Event::Block(block(32_768)), now);
    while now < 5_000_000 {
        let event = match step.action {
            Action::Connect => Event::Connected,
            Action::Receive => Event::Block(block(32_768)),
            Action::Sleep(ticks) => {
                now += ticks;
                Event::Woke
            }
            Action::Write(offset) => {
                let sent = send.in_hand().unwrap().bytes.len() - offset;
                match blackhole.run(lading::blackhole::udp::Event::Packet(sent)) {
                    lading::blackhole::udp::Outcome::Count { packets, bytes } => {
                        packet_received += packets;
                        bytes_received += bytes;
                    }
                    lading::blackhole::udp::Outcome::Done(_) => panic!("the blackhole goes on"),
                }
                Event::Wrote(sent)
            }
            other => panic!("unexpected {:?}", other),
        };
        step = send.step(event, now);
    }
    assert!(packet_received > 0);
    assert!(bytes_received >= 9 * mib / 2, "{bytes_received}");
    assert!(bytes_received <= 11 * mib / 2, "{bytes_received}");
}

#[test]
fn backoff_is_a_tenth_of_a_second_off_tcp() {
    for transport in [Transport::UnixStream, Transport::Grpc] {
        let mut send = SendLoop::new(transport, throttle(1_000));
        send.step(Event::Block(block(10)), 0);
        let step = send.step(Event::ConnectFailed("no".to_string()), 0);
        assert_eq!(action(&step), "Sleep(100000)");
    }
    assert_eq!(Transport::Tcp.backoff_ticks(), 1_000_000);
    assert!(Transport::Tcp.has_connection());
    assert!(!Transport::File.has_connection());
}

#[test]
fn send_loop_waits_for_the_throttle() {
    let mut send = SendLoop::for_file(throttle(1_000), 1_000_000, false, 0);
    // The bucket is empty at the start: 500 bytes take half a second.
    let step = send.step(Event::Block(block(500)), 0);
    assert_eq!(action(&step), "Sleep(500000)");
    assert!(send.in_hand().is_none());
    // Woken too early, it sleeps on.
    let step = send.step(Event::Woke, 400_000);
    assert_eq!(action(&step), "Sleep(100000)");
    let step = send.step(Event::Woke, 500_000);
    assert_eq!(action(&step), "Write(0)");
    assert_eq!(send.in_hand().unwrap().total_bytes, 500);
}

#[test]
fn block_above_the_burst_is_not_held_back() {
    let mut send = SendLoop::for_file(throttle(100), 1_000_000, false, 0);
    // The throttle could never grant 101 bytes: the block goes out at once.
    let step = send.step(Event::Block(block(101)), 0);
    assert_eq!(action(&step), "Write(0)");
    let step = send.step(Event::Wrote(101), 0);
    assert_eq!(update(&step), "Written { bytes: 101, packets: 1 }");
    // Nothing was charged for it: a block of the size of the burst waits
    // for one second, as it would have before.
    let step = send.step(Event::Block(block(100)), 0);
    assert_eq!(action(&step), "Sleep(1000000)");
}

#[test]
fn partial_writes_go_on_where_they_stopped() {
    let mut send = SendLoop::new(Transport::UnixStream, throttle(1_000));
    send.step(Event::Block(block(100)), 1_000_000);
    let step = send.step(Event::Connected, 1_000_000);
    assert_eq!(action(&step), "Write(0)");
    let step = send.step(Event::Wrote(30), 1_000_000);
    assert_eq!(action(&step), "Write(30)");
    assert_eq!(update(&step), "Written { bytes: 30, packets: 0 }");
    let step = send.step(Event::WouldBlock, 1_000_000);
    assert_eq!(action(&step), "Write(30)");
    assert_eq!(update(&step), "Nothing");
    let step = send.step(Event::Wrote(50), 1_000_000);
    assert_eq!(action(&step), "Write(80)");
    // More than is left is counted as what is left.
    let step = send.step(Event::Wrote(500), 1_000_000);
    assert_eq!(update(&step), "Written { bytes: 20, packets: 1 }");
    assert_eq!(action(&step), "Receive");
}

#[test]
fn failed_write_drops_the_connection() {
    for (transport, reconnects) in
        [(Transport::Tcp, true), (Transport::UnixStream, true), (Transport::Grpc, false)]
    {
        let mut send = SendLoop::new(transport, throttle(1_000));
        send.step(Event::Block(block(100)), 1_000_000);
        send.step(Event::Block(block(100)), 1_000_000);
        send.step(Event::Connected, 1_000_000);
        let step = send.step(Event::WriteFailed("broken pipe".to_string()), 1_000_000);
        assert_eq!(update(&step), "RequestFailure(\"broken pipe\")");
        assert!(send.in_hand().is_none() || !reconnects);
        if reconnects {
            assert_eq!(action(&step), "Connect");
        } else {
            // The channel is kept, and the next block is taken at once.
            assert_eq!(action(&step), "Write(0)");
        }
    }
}

#[test]
fn grpc_counts_requests_and_answers() {
    let mut send = SendLoop::new(Transport::Grpc, throttle(1_000));
    send.step(Event::Block(block(100)), 1_000_000);
    let step = send.step(Event::Connected, 1_000_000);
    assert_eq!(update(&step), "RequestSent");
    assert_eq!(action(&step), "Write(0)");
    let step = send.step(Event::Responded(17), 1_000_000);
    assert_eq!(update(&step), "Answered { bytes: 100, response_bytes: 17 }");
    assert_eq!(action(&step), "Receive");
}

#[test]
fn shutdown_and_closed_cache_end_the_loop() {
    let mut send = SendLoop::new(Transport::Tcp, throttle(1_000));
    let step = send.step(Event::Shutdown, 0);
    assert_eq!(action(&step), "Stop");
    let step = send.step(Event::Block(block(1)), 0);
    assert_eq!(action(&step), "Stop");
    let mut send = SendLoop::new(Transport::Tcp, throttle(1_000));
    let step = send.step(Event::Closed, 0);
    assert!(matches!(step.action, Action::Fail(Failure::CacheClosed)));
    let step = send.step(Event::Woke, 0);
    assert_eq!(action(&step), "Stop");
}

#[test]
fn events_out_of_turn_change_nothing() {
    let mut send = SendLoop::new(Transport::Tcp, throttle(1_000));
    for event in [
        Event::Connected,
        Event::ConnectFailed("x".to_string()),
        Event::Woke,
        Event::Wrote(5),
        Event::WouldBlock,
        Event::WriteFailed("x".to_string()),
        Event::Responded(5),
        Event::Rotated(5),
    ] {
        let step = send.step(event, 0);
        assert_eq!(action(&step), "Receive");
        assert_eq!(update(&step), "Nothing");
    }
    assert_eq!(action(&Step { action: send.standing(), update: Update::Nothing }), "Receive");
}

#[test]
fn rotation() {
    let mib: u32 = 1_048_576;
    let mut counter = IndexCounter::new();
    let first = counter.fetch_add();
    let burst = Throttle::new_with_config(ThrottleConfig::default(), 4 * mib, 0).unwrap();
    let mut send = SendLoop::for_file(burst, mib, true, first);
    let template = "/tmp/lad-%NNN%.log";
    let mut opened = vec![path_from_template(template, send.file_index())];
    let mut removed = Vec::new();
    let mut now = 0u64;
    let mut written = 0u64;
    // 3.5 MiB in blocks of half a MiB.
    for _ in 0..7 {
        now += 1_000_000;
        let step = send.step(Event::Block(block((mib / 2) as usize)), now);
        assert_eq!(action(&step), "Write(0)");
        let step = send.step(Event::Wrote((mib / 2) as usize), now);
        if let Update::Written { bytes, .. } = step.update {
            written += bytes;
        }
        if let Action::Rotate { remove } = step.action {
            assert!(remove);
            removed.push(path_from_template(template, send.file_index()));
            let next = counter.fetch_add();
            assert_eq!(next, send.file_index() + 1);
            let step = send.step(Event::Rotated(next), now);
            assert_eq!(action(&step), "Receive");
            opened.push(path_from_template(template, send.file_index()));
        }
    }
    assert_eq!(written, 7 * u64::from(mib / 2));
    // A file is full once it holds more than 1 MiB: after three blocks.
    assert_eq!(
        opened,
        vec!["/tmp/lad-0000.log", "/tmp/lad-0001.log", "/tmp/lad-0002.log"]
    );
    assert_eq!(removed, vec!["/tmp/lad-0000.log", "/tmp/lad-0001.log"]);
}

#[test]
fn rotation_after_three_and_a_half_mebibytes() {
    // Three blocks of 3.5 MiB in all, each above the limit of 1 MiB: every
    // block fills a file, so that four files have been opened in the end and
    // only the last is still linked.
    let mib: usize = 1_048_576;
    let sizes = [mib + mib / 4, mib + mib / 8, mib + mib / 8];
    let template = "/tmp/lad-%NNN%.log";
    let mut counter = IndexCounter::new();
    let first = counter.fetch_add();
    let burst = Throttle::new_with_config(ThrottleConfig::default(), 4 * mib as u32, 0).unwrap();
    let mut send = SendLoop::for_file(burst, mib as u32, true, first);
    let mut linked = vec![path_from_template(template, send.file_index())];
    let mut opened = linked.clone();
    let mut now = 0u64;
    let mut emitted = 0usize;
    for size in sizes {
        now += 1_000_000;
        send.step(Event::Block(block(size)), now);
        let step = send.step(Event::Wrote(size), now);
        emitted += size;
        match step.action {
            Action::Rotate { remove } => {
                assert!(remove);
                linked.retain(|path| *path != path_from_template(template, send.file_index()));
                let previous = send.file_index();
                send.step(Event::Rotated(counter.fetch_add()), now);
                assert_eq!(send.file_index(), previous + 1);
                let path = path_from_template(template, send.file_index());
                linked.push(path.clone());
                opened.push(path);
            }
            other => panic!("expected a rotation, got {:?}", other),
        }
    }
    assert_eq!(emitted, 7 * mib / 2);
    assert_eq!(
        opened,
        vec!["/tmp/lad-0000.log", "/tmp/lad-0001.log", "/tmp/lad-0002.log", "/tmp/lad-0003.log"]
    );
    assert_eq!(linked, vec!["/tmp/lad-0003.log"]);
}

#[test]
fn no_rotation_at_the_limit_itself() {
    let mut send = SendLoop::for_file(throttle(1_000), 100, false, 0);
    send.step(Event::Block(block(100)), 1_000_000);
    // Exactly the limit: the file is not over it.
    let step = send.step(Event::Wrote(100), 1_000_000);
    assert_eq!(action(&step), "Receive");
    send.step(Event::Block(block(1)), 2_000_000);
    let step = send.step(Event::Wrote(1), 2_000_000);
    assert_eq!(action(&step), "Rotate { remove: false }");
    // Until the next file is reported nothing else happens.
    let step = send.step(Event::Block(block(1)), 3_000_000);
    assert_eq!(action(&step), "Rotate { remove: false }");
    let step = send.step(Event::Rotated(9), 3_000_000);
    assert_eq!(action(&step), "Write(0)");
    assert_eq!(send.file_index(), 9);
}

#[test]
fn file_write_failure_is_fatal() {
    let mut send = SendLoop::for_file(throttle(1_000), 10, true, 0);
    send.step(Event::Block(block(100)), 1_000_000);
    let step = send.step(Event::WriteFailed("disk full".to_string()), 1_000_000);
    match step.action {
        Action::Fail(Failure::Io(error)) => assert_eq!(error, "disk full"),
        other => panic!("expected a failure, got {:?}", other),
    }
    assert_eq!(action(&send.step(Event::Woke, 0)), "Stop");
}

#[test]
fn tcp_generator() {
    let general = General { id: Some("g1".to_string()) };
    let mut generator = Tcp::new(general, &tcp_config()).unwrap();
    assert_eq!(generator.addr(), "127.0.0.1:9000");
    assert_eq!(generator.bytes_per_second(), 1_000_000);
    assert_eq!(
        generator.metric_labels(),
        &vec![
            ("component".to_string(), "generator".to_string()),
            ("component_name".to_string(), "tcp".to_string()),
            ("id".to_string(), "g1".to_string()),
        ]
    );
    let mut producer = generator.producer().unwrap();
    assert!(generator.producer().is_none());
    let block = producer.next_block().unwrap();
    assert!(block.bytes.len() <= 16_384);
    let size = block.bytes.len();
    let step = generator.spin(Event::Block(block), 1_000_000);
    assert_eq!(action(&step), "Connect");
    let step = generator.spin(Event::Connected, 1_000_000);
    assert_eq!(action(&step), "Write(0)");
    let step = generator.spin(Event::Wrote(size), 1_000_000);
    assert_eq!(update(&step), format!("Written {{ bytes: {}, packets: 1 }}", size));
}

#[test]
fn tcp_generator_errors() {
    let mut config = tcp_config();
    config.bytes_per_second = 0;
    assert!(matches!(Tcp::new(General { id: None }, &config), Err(tcp::Error::Config)));
    let mut config = tcp_config();
    config.bytes_per_second = 1u128 << 32;
    assert!(matches!(Tcp::new(General { id: None }, &config), Err(tcp::Error::Config)));
    let mut config = tcp_config();
    config.maximum_prebuild_cache_size_bytes = 0;
    assert!(matches!(Tcp::new(General { id: None }, &config), Err(tcp::Error::Config)));
    let mut config = tcp_config();
    config.block_sizes = Some(vec![8_192, 0]);
    assert!(matches!(Tcp::new(General { id: None }, &config), Err(tcp::Error::Config)));
    let mut config = tcp_config();
    config.throttle = ThrottleConfig { max_burst: Some(0) };
    assert!(matches!(
        Tcp::new(General { id: None }, &config),
        Err(tcp::Error::Throttle(lading::throttle::Error::ZeroBurst))
    ));
    let mut config = tcp_config();
    config.block_sizes = Some(Vec::new());
    assert!(matches!(
        Tcp::new(General { id: None }, &config),
        Err(tcp::Error::Block(lading::block::Error::NoBlockSizes))
    ));
    let mut config = tcp_config();
    config.maximum_prebuild_cache_size_bytes = 100;
    assert!(matches!(
        Tcp::new(General { id: None }, &config),
        Err(tcp::Error::Block(lading::block::Error::InsufficientBudget))
    ));
}

#[test]
fn unix_stream_generator() {
    let config = unix_stream::Config {
        seed: [2; 32],
        path: "/tmp/socket".to_string(),
        variant: Variant::Ascii,
        bytes_per_second: 1_000,
        block_sizes: Some(vec![8_192]),
        maximum_prebuild_cache_size_bytes: 100_000,
        block_cache_method: CacheMethod::Streaming,
        throttle: ThrottleConfig::default(),
    };
    let mut generator = UnixStream::new(General { id: None }, &config).unwrap();
    assert_eq!(generator.path(), "/tmp/socket");
    assert_eq!(generator.bytes_per_second(), 1_000);
    assert_eq!(generator.metric_labels()[1].1, "unix_stream");
    assert!(generator.producer().is_some());
    let step = generator.spin(Event::Block(block(10)), 0);
    assert_eq!(action(&step), "Connect");
}

#[test]
fn grpc_generator_reads_its_path_from_the_uri() {
    let mut config = grpc::Config {
        target_uri: "http://host:8080/service.path/endpoint?x=1".to_string(),
        seed: [3; 32],
        variant: Variant::Ascii,
        bytes_per_second: 1_000,
        block_sizes: Some(vec![8_192]),
        maximum_prebuild_cache_size_bytes: 100_000,
        block_cache_method: CacheMethod::Fixed,
        parallel_connections: 4,
        throttle: ThrottleConfig::default(),
    };
    let generator = Grpc::new(General { id: None }, &config).unwrap();
    assert_eq!(generator.target_uri(), "http://host:8080/service.path/endpoint?x=1");
    assert_eq!(generator.rpc_path(), "/service.path/endpoint?x=1");
    assert_eq!(generator.parallel_connections(), 4);
    assert_eq!(generator.metric_labels()[1].1, "grpc");
    config.target_uri = "http://host:8080".to_string();
    let generator = Grpc::new(General { id: None }, &config).unwrap();
    assert_eq!(generator.rpc_path(), "/");
    config.target_uri = "not a uri".to_string();
    assert!(matches!(Grpc::new(General { id: None }, &config), Err(grpc::Error::Config)));
    config.target_uri = "host:8080".to_string();
    assert!(matches!(Grpc::new(General { id: None }, &config), Err(grpc::Error::Config)));
}

#[test]
fn noop_codec_passes_bytes_through_and_counts_answers() {
    let mut codec = NoopCodec;
    let mut encoder = codec.encoder();
    let mut decoder: CountingDecoder = codec.decoder();
    let mut buf = b"ab".to_vec();
    assert!(encoder.encode(b"cde".to_vec(), &mut buf).is_ok());
    assert_eq!(buf, b"abcde".to_vec());
    let answer = decoder.decode(&mut buf).ok().unwrap();
    assert_eq!(answer, Some(5));
    assert!(buf.is_empty());
    assert_eq!(decoder.decode(&mut buf).ok().unwrap(), Some(0));
}

#[test]
fn file_generator_builds_its_workers() {
    let config = file_gen::Config {
        seed: [4; 32],
        path_template: "/tmp/lad-%NNN%.log".to_string(),
        duplicates: 3,
        variant: Variant::Ascii,
        maximum_bytes_per_file: 1_048_576,
        bytes_per_second: 2_000_000,
        block_sizes: Some(vec![8_192]),
        maximum_prebuild_cache_size_bytes: 50_000,
        block_cache_method: CacheMethod::Fixed,
        rotate: true,
        throttle: ThrottleConfig::default(),
    };
    let mut generator = FileGen::new(General { id: None }, &config).unwrap();
    assert_eq!(generator.bytes_per_second(), 2_000_000);
    assert_eq!(generator.metric_labels()[1].1, "file_gen");
    let (mut children, counter) = generator.children();
    assert_eq!(children.len(), 3);
    assert_eq!(counter, IndexCounter { next: 3 });
    let paths: Vec<String> = children.iter().map(|child| child.path()).collect();
    assert_eq!(paths, vec!["/tmp/lad-0000.log", "/tmp/lad-0001.log", "/tmp/lad-0002.log"]);
    for child in children.iter_mut() {
        assert_eq!(child.bytes_per_second(), 2_000_000);
        let mut producer = child.producer().unwrap();
        let block = producer.next_block().unwrap();
        let step = child.spin(Event::Block(block), 1_000_000);
        assert_eq!(action(&step), "Write(0)");
    }
    let (none, _) = generator.children();
    assert!(none.is_empty());
}

#[test]
fn file_generator_ends_with_the_first_failure() {
    let config = file_gen::Config {
        seed: [4; 32],
        path_template: "x".to_string(),
        duplicates: 0,
        variant: Variant::Ascii,
        maximum_bytes_per_file: 10,
        bytes_per_second: 10,
        block_sizes: None,
        maximum_prebuild_cache_size_bytes: 50_000,
        block_cache_method: CacheMethod::Streaming,
        rotate: default_rotation(),
        throttle: ThrottleConfig::default(),
    };
    let generator = FileGen::new(General { id: None }, &config).unwrap();
    assert!(generator.spin(Vec::new()).is_ok());
    let generator = FileGen::new(General { id: None }, &config).unwrap();
    assert!(generator.spin(vec![Ok(()), Ok(())]).is_ok());
    let generator = FileGen::new(General { id: None }, &config).unwrap();
    let outcome = generator.spin(vec![
        Ok(()),
        Err(file_gen::Error::Io("first".to_string())),
        Ok(()),
        Err(file_gen::Error::Child("second".to_string())),
    ]);
    match outcome {
        Err(file_gen::Error::Io(message)) => assert_eq!(message, "first"),
        other => panic!("expected the first failure, got {:?}", other),
    }
    let mut bad = config;
    bad.maximum_bytes_per_file = 0;
    assert!(matches!(FileGen::new(General { id: None }, &bad), Err(file_gen::Error::Config)));
}

#[test]
fn cache_of_a_generator_follows_the_method() {
    let mut config = unix_stream::Config {
        seed: [2; 32],
        path: "/tmp/socket".to_string(),
        variant: Variant::Ascii,
        bytes_per_second: 1_000,
        block_sizes: Some(vec![8_192]),
        maximum_prebuild_cache_size_bytes: 100_000,
        block_cache_method: CacheMethod::Fixed,
        throttle: ThrottleConfig::default(),
    };
    assert!(UnixStream::new(General { id: None }, &config).is_ok());
    config.block_cache_method = CacheMethod::Streaming;
    assert!(UnixStream::new(General { id: None }, &config).is_ok());
    let cache = Cache::stream([0; 32], 10, &vec![5], Variant::Ascii).unwrap();
    assert!(matches!(cache, Cache::Stream { .. }));
}

#[test]
fn rotation_with_blocks_of_one_kibibyte() {
    // 3.5 MiB in blocks of 1 KiB into files of 1 MiB: a file is closed by
    // the block that takes it past the limit, at 1 MiB + 1 KiB, so that
    // three files are closed and the fourth is open at the end.
    let kib: usize = 1024;
    let mib: usize = 1_048_576;
    let template = "/tmp/lad-%NNN%.log";
    let mut counter = IndexCounter::new();
    let first = counter.fetch_add();
    let rate = Throttle::new_with_config(ThrottleConfig::default(), 4 * mib as u32, 0).unwrap();
    let mut send = SendLoop::for_file(rate, mib as u32, true, first);
    let mut opened = vec![path_from_template(template, send.file_index())];
    let mut closed_at = Vec::new();
    let mut in_file = 0usize;
    let mut now = 0u64;
    for _ in 0..(7 * mib / 2 / kib) {
        now += 1_000;
        let step = send.step(Event::Block(block(kib)), now);
        assert_eq!(action(&step), "Write(0)");
        let step = send.step(Event::Wrote(kib), now);
        assert_eq!(update(&step), "Written { bytes: 1024, packets: 1 }");
        in_file += kib;
        match step.action {
            Action::Rotate { remove } => {
                assert!(remove);
                closed_at.push(in_file);
                in_file = 0;
                send.step(Event::Rotated(counter.fetch_add()), now);
                opened.push(path_from_template(template, send.file_index()));
            }
            Action::Receive => {}
            other => panic!("unexpected {:?}", other),
        }
    }
    assert_eq!(closed_at, vec![mib + kib, mib + kib, mib + kib]);
    assert_eq!(in_file, 7 * mib / 2 - 3 * (mib + kib));
    assert_eq!(
        opened,
        vec!["/tmp/lad-0000.log", "/tmp/lad-0001.log", "/tmp/lad-0002.log", "/tmp/lad-0003.log"]
    );
}

#[test]
fn a_loop_that_makes_calls_takes_no_partial_write() {
    let mut send = SendLoop::new(Transport::Grpc, throttle(1_000));
    send.step(Event::Block(block(100)), 1_000_000);
    let step = send.step(Event::Connected, 1_000_000);
    assert_eq!(action(&step), "Write(0)");
    let step = send.step(Event::Wrote(40), 1_000_000);
    assert_eq!(action(&step), "Write(0)");
    assert_eq!(update(&step), "Nothing");
    let step = send.step(Event::Responded(3), 1_000_000);
    assert_eq!(update(&step), "Answered { bytes: 100, response_bytes: 3 }");
}

#[test]
fn what_is_written_stays_under_the_rate() {
    // 1000 bytes a second with a burst of 1000, blocks of 300 bytes, ten
    // seconds: whatever the order of events, no more than the burst and
    // ten seconds' bytes go out.
    let mut send = SendLoop::new(Transport::Tcp, throttle(1_000));
    let mut written = 0u64;
    let mut now = 0u64;
    let mut step = send.step(Event::Block(block(300)), now);
    while now <= 10_000_000 {
        let event = match step.action {
            Action::Receive => Event::Block(block(300)),
            Action::Connect => Event::Connected,
            Action::Sleep(ticks) => {
                now += ticks;
                Event::Woke
            }
            Action::Write(offset) => Event::Wrote((300 - offset).min(128)),
            other => panic!("unexpected {:?}", other),
        };
        step = send.step(event, now);
        if let Update::Written { bytes, .. } = step.update {
            written += bytes;
        }
    }
    assert!(written <= 1_000 + 10 * 1_000, "{written}");
    assert!(written >= 9 * 1_000, "{written}");
}

#[test]
fn streaming_blocks_are_a_configured_size_less_a_record() {
    // The blocks of a streaming generator are lines of the configured
    // payload, and each is one of the configured sizes that the budget
    // admits, short of it by less than the longest record with its newline.
    let config = unix_stream::Config {
        seed: [9; 32],
        path: "/tmp/socket".to_string(),
        variant: Variant::Ascii,
        bytes_per_second: 1_000,
        block_sizes: Some(vec![20_000, 30_000, 200_000]),
        maximum_prebuild_cache_size_bytes: 100_000,
        block_cache_method: CacheMethod::Streaming,
        throttle: ThrottleConfig::default(),
    };
    let mut generator = UnixStream::new(General { id: None }, &config).unwrap();
    let mut producer = generator.producer().unwrap();
    assert_eq!(generator.path(), "/tmp/socket");
    assert_eq!(generator.bytes_per_second(), 1_000);
    let mut built = 0;
    for _ in 0..40 {
        if let Some(block) = producer.next_block() {
            let len = block.bytes.len();
            assert_eq!(block.total_bytes as usize, len);
            assert!(
                (20_000 - 6_145 < len && len <= 20_000) || (30_000 - 6_145 < len && len <= 30_000),
                "{len}"
            );
            assert_eq!(block.bytes[len - 1], b'\n');
            assert!(block.bytes.iter().all(|b| b.is_ascii_alphanumeric() || *b == b'\n'));
            built += 1;
        }
    }
    assert!(built > 0);
}

#[test]
fn a_streaming_producer_without_room_for_a_record_has_no_block() {
    let config = unix_stream::Config {
        seed: [9; 32],
        path: "/tmp/socket".to_string(),
        variant: Variant::Ascii,
        bytes_per_second: 1_000,
        block_sizes: Some(vec![1]),
        maximum_prebuild_cache_size_bytes: 100_000,
        block_cache_method: CacheMethod::Streaming,
        throttle: ThrottleConfig::default(),
    };
    let mut generator = UnixStream::new(General { id: None }, &config).unwrap();
    let mut producer = generator.producer().unwrap();
    for _ in 0..10 {
        assert!(producer.next_block().is_none());
    }
}

#[test]
fn a_fixed_pool_fits_the_configured_budget_and_sizes() {
    let mut generator = Tcp::new(General { id: None }, &tcp_config()).unwrap();
    let mut producer = generator.producer().unwrap();
    // The pool is walked in a circle: the blocks up to the first that comes
    // again are the pool.
    let first = producer.next_block().unwrap();
    let mut total = first.bytes.len();
    let mut count = 1;
    loop {
        let block = producer.next_block().unwrap();
        assert!(block.bytes.len() <= 16_384);
        assert_eq!(block.total_bytes as usize, block.bytes.len());
        if block.bytes == first.bytes || count > 100 {
            break;
        }
        total += block.bytes.len();
        count += 1;
    }
    assert!(count <= 100);
    assert!(total <= 100_000, "{total}");
    // Turns of the loop leave address, rate and labels as they were.
    generator.spin(Event::Block(first), 0);
    generator.spin(Event::Connected, 0);
    assert_eq!(generator.addr(), "127.0.0.1:9000");
    assert_eq!(generator.bytes_per_second(), 1_000_000);
    assert_eq!(generator.metric_labels().len(), 2);
}

#[test]
fn generators_of_words_with_default_sizes_are_always_built() {
    // The smallest default size over a wire is 32 KiB, in files 1 MiB: both
    // above the 6144 bytes of the longest word.
    for seed in 0..8u8 {
        let mut config = tcp_config();
        config.seed = [seed; 32];
        config.block_sizes = None;
        config.maximum_prebuild_cache_size_bytes = 32_768;
        assert!(Tcp::new(General { id: None }, &config).is_ok());
        config.maximum_prebuild_cache_size_bytes = 32_767;
        assert!(matches!(
            Tcp::new(General { id: None }, &config),
            Err(tcp::Error::Block(lading::block::Error::InsufficientBudget))
        ));
    }
    assert_eq!(default_wire_block_sizes()[0], 32_768);
    assert_eq!(default_file_block_sizes()[0], 1_048_576);
}

#[test]
fn a_loop_woken_after_its_wait_takes_the_block_at_once() {
    let mut send = SendLoop::new(Transport::UnixStream, throttle(1_000));
    send.step(Event::Block(block(300)), 0);
    let step = send.step(Event::Connected, 0);
    // 300 bytes at 1000 bytes a second take three tenths of a second.
    assert_eq!(action(&step), "Sleep(300000)");
    // A tick too early the loop sleeps on, for that tick.
    let step = send.step(Event::Woke, 299_999);
    assert_eq!(action(&step), "Sleep(1)");
    let step = send.step(Event::Woke, 300_000);
    assert_eq!(action(&step), "Write(0)");
    assert_eq!(send.in_hand().unwrap().total_bytes, 300);
}

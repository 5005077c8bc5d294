use lading::payload::dogstatsd::common::tags::write_tags;
use lading::payload::dogstatsd::common::tags::Generator;
use lading::payload::dogstatsd::common::tags::Tag;
use lading::payload::dogstatsd::common::tags::Tagset;
use lading::payload::dogstatsd::common::choose_or_not;
use lading::payload::dogstatsd::common::choose_when;
use lading::payload::dogstatsd::common::copy_words;
use lading::payload::dogstatsd::common::tags::copy_tagsets;
use lading::payload::dogstatsd::common::random_ascii;
use lading::payload::dogstatsd::common::random_strings;
use lading::payload::dogstatsd::common::random_strings_with_length;
use lading::payload::dogstatsd::common::NumValueGenerator;
use lading::payload::dogstatsd::common::ValueConf;
use lading::payload::dogstatsd::common::ValueRange;
use lading::payload::dogstatsd::contexts_maximum;
use lading::payload::dogstatsd::contexts_minimum;
use lading::payload::dogstatsd::event::Alert;
use lading::payload::dogstatsd::event::Event;
use lading::payload::dogstatsd::event::Priority;
use lading::payload::dogstatsd::metric::Metric;
use lading::payload::dogstatsd::metric::packs;
use lading::payload::dogstatsd::metric::MetricKind;
use lading::payload::dogstatsd::multivalue_cnt_maximum;
use lading::payload::dogstatsd::multivalue_cnt_minimum;
use lading::payload::dogstatsd::multivalue_pack_probability;
use lading::payload::dogstatsd::service_check::ServiceCheck;
use lading::payload::dogstatsd::service_check::Status;
use lading::payload::dogstatsd::tags_per_msg_maximum;
use lading::payload::dogstatsd::tags_per_msg_minimum;
use lading::payload::dogstatsd::DogStatsD;
use lading::payload::dogstatsd::KindWeights;
use lading::payload::dogstatsd::Member;
use lading::payload::dogstatsd::MetricWeights;
use lading::payload::write_line;
use lading::payload::write_records;
use lading::payload::Ascii;
use lading::payload::Config;
use lading::payload::Payload;
use rand::rngs::StdRng;
use rand::SeedableRng;

fn tag(key: &str, value: &str) -> Tag {
    Tag { key: key.as_bytes().to_vec(), value: value.as_bytes().to_vec() }
}

fn small_dogstatsd(seed: u8) -> DogStatsD {
    let mut rng = StdRng::from_seed([seed; 32]);
    DogStatsD::new(
        2..6,
        1..4,
        2..5,
        500_000,
        KindWeights::default(),
        MetricWeights::default(),
        &mut rng,
    )
}

fn small_config() -> lading::payload::dogstatsd::Config {
    lading::payload::dogstatsd::Config {
        contexts_minimum: 2,
        contexts_maximum: 6,
        tags_per_msg_maximum: 4,
        tags_per_msg_minimum: 1,
        multivalue_pack_probability: 500_000,
        multivalue_cnt_minimum: 2,
        multivalue_cnt_maximum: 5,
        kind_weights: KindWeights::default(),
        metric_weights: MetricWeights::default(),
    }
}

#[test]
fn defaults_are_as_documented() {
    assert_eq!(contexts_minimum(), 5000);
    assert_eq!(contexts_maximum(), 10000);
    assert_eq!(tags_per_msg_minimum(), 5000);
    assert_eq!(tags_per_msg_maximum(), 10000);
    assert_eq!(multivalue_pack_probability(), 80_000);
    assert_eq!(multivalue_cnt_minimum(), 2);
    assert_eq!(multivalue_cnt_maximum(), 32);
    assert_eq!(KindWeights::default(), KindWeights { metric: 80, event: 10, service_check: 10 });
    assert_eq!(
        MetricWeights::default(),
        MetricWeights { count: 34, gauge: 34, timer: 5, distribution: 1, set: 1, histogram: 25 }
    );
    let config = lading::payload::dogstatsd::Config::default();
    assert_eq!(config.contexts_minimum, 5000);
    assert_eq!(config.multivalue_cnt_maximum, 32);
    assert!(config.is_valid());
}

#[test]
fn weights_validity() {
    assert!(KindWeights::default().is_valid());
    assert!(!KindWeights { metric: 0, event: 0, service_check: 0 }.is_valid());
    assert!(!KindWeights { metric: 200, event: 50, service_check: 6 }.is_valid());
    assert!(KindWeights { metric: 200, event: 50, service_check: 5 }.is_valid());
    assert!(MetricWeights::default().is_valid());
    assert!(!MetricWeights {
        count: 0,
        gauge: 0,
        timer: 0,
        distribution: 0,
        set: 0,
        histogram: 0
    }
    .is_valid());
    let mut config = small_config();
    assert!(config.is_valid());
    config.contexts_maximum = 2;
    assert!(!config.is_valid());
}

#[test]
fn tags_are_joined_by_commas() {
    let tags: Tagset = vec![tag("env", "prod"), tag("a", "b"), tag("x", "y")];
    let mut out = Vec::new();
    write_tags(&mut out, &tags);
    assert_eq!(out, b"env:prod,a:b,x:y".to_vec());
    let mut out = Vec::new();
    write_tags(&mut out, &Vec::new());
    assert!(out.is_empty());
}

#[test]
fn event_with_every_field() {
    let title = b"title".to_vec();
    let text = b"some text".to_vec();
    let host = b"host1".to_vec();
    let key = b"agg".to_vec();
    let source = b"src".to_vec();
    let tags: Tagset = vec![tag("env", "prod"), tag("a", "b")];
    let event = Event {
        title: &title,
        text: &text,
        title_utf8_length: 5,
        text_utf8_length: 9,
        timestamp_second: Some(1234),
        hostname: Some(&host),
        aggregation_key: Some(&key),
        priority: Some(Priority::Low),
        source_type_name: Some(&source),
        alert_type: Some(Alert::Warning),
        tags: Some(&tags),
    };
    let mut out = Vec::new();
    event.write(&mut out);
    assert_eq!(
        String::from_utf8(out).unwrap(),
        "_e{5,9}:title|some text|d:1234|h:host1|p:low|t:warning|k:agg|s:src|#env:prod,a:b"
    );
}

#[test]
fn event_with_no_optional_field() {
    let title = b"t".to_vec();
    let text = b"x".to_vec();
    let none: Tagset = Vec::new();
    let event = Event {
        title: &title,
        text: &text,
        title_utf8_length: 1,
        text_utf8_length: 1,
        timestamp_second: None,
        hostname: None,
        aggregation_key: None,
        priority: None,
        source_type_name: None,
        alert_type: None,
        tags: Some(&none),
    };
    let mut out = b">".to_vec();
    event.write(&mut out);
    assert_eq!(String::from_utf8(out).unwrap(), ">_e{1,1}:t|x");
}

#[test]
fn priorities_and_alerts_have_their_words() {
    assert_eq!(Priority::Normal.word(), b"normal".to_vec());
    assert_eq!(Priority::Low.word(), b"low".to_vec());
    assert_eq!(Alert::Error.word(), b"error".to_vec());
    assert_eq!(Alert::Warning.word(), b"warning".to_vec());
    assert_eq!(Alert::Info.word(), b"info".to_vec());
    assert_eq!(Alert::Success.word(), b"success".to_vec());
}

#[test]
fn metric_records() {
    let name = b"requests".to_vec();
    let tags: Tagset = vec![tag("env", "prod")];
    let metric =
        Metric { name: &name, values: vec![1, -20, 300], kind: MetricKind::Timer, tags: Some(&tags) };
    let mut out = Vec::new();
    metric.write(&mut out);
    assert_eq!(String::from_utf8(out).unwrap(), "requests:1:-20:300|ms|#env:prod");
    let metric = Metric { name: &name, values: vec![7], kind: MetricKind::Count, tags: None };
    let mut out = Vec::new();
    metric.write(&mut out);
    assert_eq!(String::from_utf8(out).unwrap(), "requests:7|c");
}

#[test]
fn metric_kinds_have_their_letters() {
    let kinds = [
        (MetricKind::Count, "c"),
        (MetricKind::Gauge, "g"),
        (MetricKind::Timer, "ms"),
        (MetricKind::Distribution, "d"),
        (MetricKind::UniqueSet, "s"),
        (MetricKind::Histogram, "h"),
    ];
    for (place, (kind, letter)) in kinds.iter().enumerate() {
        let mut out = Vec::new();
        kind.write(&mut out);
        assert_eq!(String::from_utf8(out).unwrap(), *letter);
        assert_eq!(MetricKind::from_index(place), *kind);
    }
}

#[test]
fn service_check_records() {
    let name = b"db".to_vec();
    let host = b"h".to_vec();
    let message = b"down".to_vec();
    let tags: Tagset = vec![tag("a", "b")];
    let check = ServiceCheck {
        name: &name,
        status: Status::Critical,
        timestamp_second: Some(99),
        hostname: Some(&host),
        tags: Some(&tags),
        message: Some(&message),
    };
    let mut out = Vec::new();
    check.write(&mut out);
    assert_eq!(String::from_utf8(out).unwrap(), "_sc|db|2|d:99|h:h|#a:b|m:down");
    let check = ServiceCheck {
        name: &name,
        status: Status::Okay,
        timestamp_second: None,
        hostname: None,
        tags: None,
        message: None,
    };
    let mut out = Vec::new();
    check.write(&mut out);
    assert_eq!(String::from_utf8(out).unwrap(), "_sc|db|0");
    assert_eq!(Status::Warning.wire_digit(), b'1');
    assert_eq!(Status::Unknown.wire_digit(), b'3');
}

#[test]
fn member_writes_its_record() {
    let name = b"n".to_vec();
    let member =
        Member::Metric(Metric { name: &name, values: vec![5], kind: MetricKind::Gauge, tags: None });
    assert_eq!(member.to_bytes(), b"n:5|g".to_vec());
}

#[test]
fn write_line_respects_the_budget() {
    let mut writer = Vec::new();
    let record = b"abc".to_vec();
    assert_eq!(write_line(&mut writer, &record, 10), Some(6));
    assert_eq!(writer, b"abc\n".to_vec());
    // Exactly enough room for record and newline.
    assert_eq!(write_line(&mut writer, &record, 4), Some(0));
    assert_eq!(writer, b"abc\nabc\n".to_vec());
    // One byte short: nothing is written.
    assert_eq!(write_line(&mut writer, &record, 3), None);
    assert_eq!(writer, b"abc\nabc\n".to_vec());
    assert_eq!(write_line(&mut writer, &Vec::new(), 0), None);
}

#[test]
fn write_records_stops_at_the_first_that_does_not_fit() {
    let records = vec![b"aaaa".to_vec(), b"bb".to_vec(), b"cccccc".to_vec(), b"d".to_vec()];
    let mut writer = Vec::new();
    write_records(&records, 9, &mut writer);
    // "cccccc" does not fit into the one byte left; "d" behind it is not tried.
    assert_eq!(writer, b"aaaa\nbb\n".to_vec());
    let mut writer = Vec::new();
    write_records(&records, 4, &mut writer);
    assert!(writer.is_empty());
    let mut writer = Vec::new();
    write_records(&records, 100, &mut writer);
    assert_eq!(writer, b"aaaa\nbb\ncccccc\nd\n".to_vec());
}

#[test]
fn random_words_are_alphanumeric_and_short_enough() {
    let mut rng = StdRng::from_seed([7; 32]);
    for _ in 0..200 {
        let word = random_ascii(&mut rng, 8);
        assert!(!word.is_empty() && word.len() <= 8);
        assert!(word.iter().all(|b| b.is_ascii_alphanumeric()));
    }
    let pool = random_strings(17, 4, &mut rng);
    assert_eq!(pool.len(), 17);
    let pool = random_strings_with_length(3..6, 4, &mut rng);
    assert!(pool.len() >= 3 && pool.len() < 6);
}

#[test]
fn choose_or_not_picks_from_the_pool() {
    let mut rng = StdRng::from_seed([9; 32]);
    let pool = vec![1u8, 2, 3];
    let mut some = 0;
    let mut none = 0;
    for _ in 0..200 {
        match choose_or_not(&mut rng, &pool) {
            Some(item) => {
                assert!(pool.contains(item));
                some += 1;
            }
            None => none += 1,
        }
    }
    assert!(some > 0 && none > 0);
    let empty: Vec<u8> = Vec::new();
    for _ in 0..20 {
        assert_eq!(choose_or_not(&mut rng, &empty), None);
    }
}

#[test]
fn copies_hold_the_same_texts() {
    let words = vec![b"one".to_vec(), b"two".to_vec()];
    assert_eq!(copy_words(&words), words);
    assert!(copy_words(&Vec::new()).is_empty());
    let pool = vec![vec![tag("a", "b"), tag("c", "d")], Vec::new(), vec![tag("e", "f")]];
    let copy = copy_tagsets(&pool);
    assert_eq!(copy.len(), 3);
    for (copied, given) in copy.iter().zip(pool.iter()) {
        assert_eq!(copied.len(), given.len());
        for (c, g) in copied.iter().zip(given.iter()) {
            assert_eq!(c.key, g.key);
            assert_eq!(c.value, g.value);
        }
    }
}

#[test]
fn records_are_lines_of_printable_ascii() {
    let dogstatsd = small_dogstatsd(3);
    let mut rng = StdRng::from_seed([4; 32]);
    for _ in 0..500 {
        let record = dogstatsd.generate(&mut rng).to_bytes();
        assert!(!record.is_empty());
        assert!(record.iter().all(|b| (32..127).contains(b)));
    }
}

#[test]
fn draws_stand_for_their_variants() {
    assert_eq!(Priority::from_draw(0), Priority::Low);
    assert_eq!(Priority::from_draw(1), Priority::Normal);
    assert_eq!(Alert::from_draw(0), Alert::Error);
    assert_eq!(Alert::from_draw(1), Alert::Warning);
    assert_eq!(Alert::from_draw(2), Alert::Info);
    assert_eq!(Alert::from_draw(3), Alert::Success);
    assert_eq!(Status::from_draw(0), Status::Okay);
    assert_eq!(Status::from_draw(1), Status::Warning);
    assert_eq!(Status::from_draw(2), Status::Critical);
    assert_eq!(Status::from_draw(3), Status::Unknown);
    let mut rng = StdRng::from_seed([13; 32]);
    let mut priorities = [false; 2];
    let mut alerts = [false; 4];
    let mut statuses = [false; 4];
    for _ in 0..400 {
        match Priority::sample(&mut rng) {
            Priority::Low => priorities[0] = true,
            Priority::Normal => priorities[1] = true,
        }
        match Alert::sample(&mut rng) {
            Alert::Error => alerts[0] = true,
            Alert::Warning => alerts[1] = true,
            Alert::Info => alerts[2] = true,
            Alert::Success => alerts[3] = true,
        }
        match Status::sample(&mut rng) {
            Status::Okay => statuses[0] = true,
            Status::Warning => statuses[1] = true,
            Status::Critical => statuses[2] = true,
            Status::Unknown => statuses[3] = true,
        }
    }
    assert!(priorities.iter().all(|seen| *seen));
    assert!(alerts.iter().all(|seen| *seen));
    assert!(statuses.iter().all(|seen| *seen));
}

#[test]
fn choose_when_follows_the_coin() {
    let mut rng = StdRng::from_seed([14; 32]);
    let pool = vec![10u8, 20, 30];
    let empty: Vec<u8> = Vec::new();
    for _ in 0..50 {
        assert_eq!(choose_when(false, &mut rng, &pool), None);
        assert_eq!(choose_when(false, &mut rng, &empty), None);
        assert_eq!(choose_when(true, &mut rng, &empty), None);
        let picked = choose_when(true, &mut rng, &pool);
        assert!(pool.contains(picked.unwrap()));
    }
}

#[test]
fn tag_generator_keeps_its_ranges() {
    let mut rng = StdRng::from_seed([3; 32]);
    let generator = Generator { num_tagsets: 25, tags_per_msg_range: 2..5, max_length: 6 };
    let pool = generator.generate(&mut rng);
    assert_eq!(pool.len(), 25);
    for tagset in &pool {
        assert!(tagset.len() >= 2 && tagset.len() < 5);
        for tag in tagset {
            assert!(!tag.key.is_empty() && tag.key.len() <= 6);
            assert!(!tag.value.is_empty() && tag.value.len() <= 6);
        }
    }
}

#[test]
fn numeric_values_stay_in_range() {
    let mut rng = StdRng::from_seed([5; 32]);
    let constant = NumValueGenerator::new(ValueConf { range: ValueRange::Constant(42) });
    assert_eq!(constant, NumValueGenerator::Constant { value: 42 });
    assert_eq!(constant.generate(&mut rng), 42);
    let uniform = NumValueGenerator::new(ValueConf { range: ValueRange::Inclusive { min: -3, max: 3 } });
    assert_eq!(uniform, NumValueGenerator::Uniform { min: -3, max: 3 });
    let mut seen = [false; 7];
    for _ in 0..500 {
        let v = uniform.generate(&mut rng);
        assert!((-3..=3).contains(&v));
        seen[(v + 3) as usize] = true;
    }
    assert!(seen.iter().all(|s| *s));
}

#[test]
fn payload_not_exceed_max_bytes() {
    for seed in 0u8..8 {
        for max_bytes in [0usize, 1, 10, 100, 1_000, 10_000, 65_535] {
            let dogstatsd = small_dogstatsd(seed);
            let mut rng = StdRng::from_seed([seed.wrapping_add(100); 32]);
            let mut bytes = Vec::with_capacity(max_bytes);
            dogstatsd.to_bytes(&mut rng, max_bytes, &mut bytes).unwrap();
            assert!(bytes.len() <= max_bytes);
        }
    }
}

#[test]
fn payload_is_whole_lines_of_records() {
    let dogstatsd = small_dogstatsd(1);
    let mut rng = StdRng::from_seed([2; 32]);
    let mut bytes = Vec::new();
    dogstatsd.to_bytes(&mut rng, 50_000, &mut bytes).unwrap();
    assert!(!bytes.is_empty());
    assert_eq!(*bytes.last().unwrap(), b'\n');
    let text = String::from_utf8(bytes).unwrap();
    let mut kinds = [0usize; 3];
    for line in text.lines() {
        if line.starts_with("_e{") {
            kinds[0] += 1;
        } else if line.starts_with("_sc|") {
            kinds[1] += 1;
        } else {
            assert!(line.contains(':') && line.contains('|'));
            kinds[2] += 1;
        }
    }
    // With weights 80/10/10 every kind shows up in a payload of this size.
    assert!(kinds.iter().all(|k| *k > 0));
    assert!(kinds[2] > kinds[0] && kinds[2] > kinds[1]);
}

#[test]
fn payload_is_a_function_of_seed_and_budget() {
    let config = Config::DogStatsD(small_config());
    let mut outputs = Vec::new();
    for _ in 0..2 {
        let mut rng = StdRng::from_seed([11; 32]);
        let payload = Payload::new(&config, &mut rng);
        let mut bytes = Vec::new();
        payload.to_bytes(&mut rng, 20_000, &mut bytes).unwrap();
        outputs.push(bytes);
    }
    assert!(!outputs[0].is_empty());
    assert_eq!(outputs[0], outputs[1]);
    // Another seed gives another payload.
    let mut rng = StdRng::from_seed([12; 32]);
    let payload = Payload::new(&config, &mut rng);
    let mut other = Vec::new();
    payload.to_bytes(&mut rng, 20_000, &mut other).unwrap();
    assert_ne!(outputs[0], other);
}

#[test]
fn zero_weight_kinds_are_never_drawn() {
    let mut rng = StdRng::from_seed([4; 32]);
    let dogstatsd = DogStatsD::new(
        2..6,
        1..4,
        2..5,
        0,
        KindWeights { metric: 0, event: 1, service_check: 0 },
        MetricWeights { count: 0, gauge: 1, timer: 0, distribution: 0, set: 0, histogram: 0 },
        &mut rng,
    );
    for _ in 0..200 {
        assert!(matches!(dogstatsd.generate(&mut rng), Member::Event(_)));
    }
    let dogstatsd = DogStatsD::new(
        2..6,
        1..4,
        2..5,
        0,
        KindWeights { metric: 1, event: 0, service_check: 0 },
        MetricWeights { count: 0, gauge: 1, timer: 0, distribution: 0, set: 0, histogram: 0 },
        &mut rng,
    );
    for _ in 0..200 {
        match dogstatsd.generate(&mut rng) {
            Member::Metric(metric) => {
                assert_eq!(metric.kind, MetricKind::Gauge);
                // The packing probability is zero: one value each.
                assert_eq!(metric.values.len(), 1);
            }
            _ => panic!("only metrics have a weight"),
        }
    }
}

#[test]
fn ascii_payload_fits_and_is_plain() {
    let ascii = Ascii { max_length: 16 };
    let mut rng = StdRng::from_seed([6; 32]);
    let mut bytes = Vec::new();
    ascii.to_bytes(&mut rng, 1_000, &mut bytes).unwrap();
    assert!(bytes.len() <= 1_000);
    assert!(bytes.len() > 1_000 - 17);
    for line in bytes.split(|b| *b == b'\n') {
        assert!(line.len() <= 16);
        assert!(line.iter().all(|b| b.is_ascii_alphanumeric()));
    }
    assert_eq!(Ascii::new().max_length, 6144);
    assert!(Config::Ascii.is_valid());
}

#[test]
fn a_draw_below_the_probability_packs() {
    assert!(!packs(0, 0));
    assert!(!packs(999_999, 0));
    assert!(packs(0, 1));
    assert!(!packs(1, 1));
    assert!(packs(79_999, 80_000));
    assert!(!packs(80_000, 80_000));
    assert!(packs(999_999, 1_000_000));
}

#[test]
fn a_probability_of_a_million_parts_packs_every_metric() {
    let mut rng = StdRng::from_seed([6; 32]);
    let dogstatsd = DogStatsD::new(
        2..6,
        1..4,
        3..7,
        1_000_000,
        KindWeights { metric: 1, event: 0, service_check: 0 },
        MetricWeights::default(),
        &mut rng,
    );
    for _ in 0..200 {
        match dogstatsd.generate(&mut rng) {
            Member::Metric(metric) => {
                assert!(3 <= metric.values.len() && metric.values.len() < 7);
            }
            _ => panic!("only metrics have a weight"),
        }
    }
}

#[test]
fn no_record_is_longer_than_the_longest_of_its_configuration() {
    // 1182 bytes, 21 for each of up to 5 values, 74 for each of up to 4 tags.
    let longest = 1182 + 21 * 5 + 74 * 4;
    let mut seen = 0;
    for seed in 0..8u8 {
        let mut rng = StdRng::from_seed([seed; 32]);
        let dogstatsd = DogStatsD::from_config(&small_config(), &mut rng);
        for _ in 0..500 {
            let record = dogstatsd.generate(&mut rng).to_bytes();
            assert!(!record.is_empty());
            assert!(record.len() <= longest, "{}", record.len());
            seen = seen.max(record.len());
        }
    }
    // Events with a long body come close to the bound.
    assert!(seen > 512, "{seen}");
}

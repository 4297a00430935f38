use std::cell::Cell;
use std::collections::BTreeMap;

use jellyfin_exporter::circuit_breaker::{CircuitBreakerError, CircuitStatus};
use jellyfin_exporter::client::{
    ClientError, ItemCounts, Library, MediaStream, NowPlayingItem, PlayState, Session, SystemInfo,
    TranscodingInfo,
};
use jellyfin_exporter::collector::{
    bitrate_update, combine_library_counts, error_kind, fetch_outcome, plan_collection,
    session_bitrates_fit, Collector, CollectorConfig, CollectorError, FetchAction, MetricId, MetricOp,
    MetricValue,
};

use jellyfin_exporter::registry::{metric_labels, metric_name as lib_metric_name};

// -- A small exposition model: what the registry shows after the updates --

fn metric_name(m: MetricId) -> (&'static str, &'static [&'static str]) {
    match m {
        MetricId::Up => ("jellyfin_up", &[]),
        MetricId::MetricsStale => ("jellyfin_metrics_stale", &[]),
        MetricId::ServerInfo => ("jellyfin_server_info", &["version", "os", "server_name"]),
        MetricId::SessionsActive => {
            ("jellyfin_sessions_active", &["user", "client", "play_method", "device"])
        }
        MetricId::SessionPaused => ("jellyfin_session_paused", &["user", "client", "device"]),
        MetricId::SessionsActiveCount => ("jellyfin_sessions_active_count", &[]),
        MetricId::TranscodesActive => {
            ("jellyfin_transcodes_active", &["video_codec", "audio_codec"])
        }
        MetricId::TranscodeHwAccelerated => ("jellyfin_transcode_hw_accelerated", &[]),
        MetricId::TranscodeReasonSessions => ("jellyfin_transcode_reason_sessions", &["reason"]),
        MetricId::StreamBitrate => ("jellyfin_stream_bitrate_bps", &["user", "media_type"]),
        MetricId::StreamDirect => ("jellyfin_stream_direct", &["user", "type"]),
        MetricId::TranscodeCompletion => ("jellyfin_transcode_completion_pct", &["user"]),
        MetricId::PlayMethodSessions => ("jellyfin_play_method_sessions", &["method"]),
        MetricId::SessionPlayPositionSeconds => {
            ("jellyfin_session_play_position_seconds", &["user", "item_type"])
        }
        MetricId::SessionRemoteAddress => {
            ("jellyfin_session_remote_address", &["user", "remote_address"])
        }
        MetricId::LibraryItems => ("jellyfin_library_items", &["library_name", "library_type"]),
        MetricId::ItemsByType => ("jellyfin_items_by_type", &["type"]),
        MetricId::ItemsCount => ("jellyfin_items_count", &[]),
    }
}

fn series(name: &str, label_names: &[&str], values: &[String]) -> String {
    assert_eq!(label_names.len(), values.len(), "label arity of {name}");
    if label_names.is_empty() {
        return name.to_owned();
    }
    let mut pairs: Vec<(&str, &str)> =
        label_names.iter().copied().zip(values.iter().map(String::as_str)).collect();
    pairs.sort();
    let body: Vec<String> = pairs.iter().map(|(k, v)| format!("{k}=\"{v}\"")).collect();
    format!("{name}{{{}}}", body.join(","))
}

fn number(v: MetricValue) -> f64 {
    match v {
        MetricValue::Count(n) => n as f64,
        MetricValue::PositionTicks(t) => t as f64 / 10_000_000.0,
        MetricValue::PercentBits(b) => f64::from_bits(b),
    }
}

#[derive(Default)]
struct Exposition {
    series: BTreeMap<String, f64>,
}

impl Exposition {
    fn apply(&mut self, ops: &[MetricOp]) {
        for op in ops {
            match op {
                MetricOp::Reset(m) => {
                    let (name, labels) = metric_name(*m);
                    if labels.is_empty() {
                        self.series.insert(name.to_owned(), 0.0);
                    } else {
                        let prefix = format!("{name}{{");
                        self.series.retain(|k, _| !k.starts_with(&prefix));
                    }
                }
                MetricOp::Assign { metric, labels, value } => {
                    let (name, names) = metric_name(*metric);
                    self.series.insert(series(name, names, labels), number(*value));
                }
                MetricOp::Inc { metric, labels } => {
                    let (name, names) = metric_name(*metric);
                    *self.series.entry(series(name, names, labels)).or_insert(0.0) += 1.0;
                }
                MetricOp::ScrapeError { kind } => {
                    let key = series(
                        "jellyfin_exporter_scrape_errors_total",
                        &["kind"],
                        &[kind.clone()],
                    );
                    *self.series.entry(key).or_insert(0.0) += 1.0;
                }
            }
        }
    }

    fn encode(&self) -> String {
        self.series.iter().map(|(k, v)| format!("{k} {v}\n")).collect()
    }
}

// -- Mock Jellyfin API --

struct MockJellyfinApi {
    sessions: Result<Vec<Session>, ClientError>,
    libraries: Result<Vec<Library>, ClientError>,
    item_counts: Result<ItemCounts, ClientError>,
    system_info: Result<SystemInfo, ClientError>,
    library_item_count: Result<u64, ClientError>,
    reachable: bool,
}

fn zero_counts() -> ItemCounts {
    ItemCounts {
        movie_count: 0,
        series_count: 0,
        episode_count: 0,
        book_count: 0,
        song_count: 0,
        album_count: 0,
        artist_count: 0,
        trailer_count: 0,
        music_video_count: 0,
        box_set_count: 0,
        item_count: 0,
    }
}

impl Default for MockJellyfinApi {
    fn default() -> Self {
        Self {
            sessions: Ok(vec![]),
            libraries: Ok(vec![]),
            item_counts: Ok(zero_counts()),
            system_info: Ok(SystemInfo {
                server_name: "test".into(),
                version: "10.9.0".into(),
                operating_system: "Linux".into(),
            }),
            library_item_count: Ok(0),
            reachable: true,
        }
    }
}

fn answer<T: Clone>(r: &Result<T, ClientError>) -> Result<T, ClientError> {
    r.as_ref().map(Clone::clone).map_err(|_| ClientError::Deserialization("mock error".into()))
}

/// The collector with the API it polls; `calls` counts API calls made.
struct Harness {
    collector: Collector,
    api: MockJellyfinApi,
    metrics: Exposition,
    calls: Cell<u32>,
}

impl Harness {
    fn new(api: MockJellyfinApi, config: CollectorConfig) -> Self {
        Harness {
            collector: Collector::new(&config),
            api,
            metrics: Exposition::default(),
            calls: Cell::new(0),
        }
    }

    /// Breaker outside, retry inside: a refused fetch makes no call.
    fn fetch<T>(&mut self, call: impl Fn(&MockJellyfinApi) -> Result<T, ClientError>) -> Result<T, CollectorError> {
        if let Some(refused) = self.collector.begin_fetch() {
            return refused;
        }
        let mut attempt: u32 = 0;
        loop {
            self.calls.set(self.calls.get() + 1);
            let outcome = call(&self.api);
            match self.collector.after_attempt(attempt, outcome) {
                FetchAction::Finished(result) => return result,
                FetchAction::Retry { .. } => attempt += 1,
            }
        }
    }

    fn collect(&mut self) {
        let step = self.collector.after_probe(self.api.reachable);
        self.metrics.apply(&step.ops);
        if !step.fetch {
            return;
        }
        let sessions = self.fetch(|a| answer(&a.sessions));
        let libraries = match self.fetch(|a| answer(&a.libraries)) {
            Ok(libs) => {
                let counts: Vec<Result<u64, CollectorError>> =
                    libs.iter().map(|_| self.fetch(|a| answer(&a.library_item_count))).collect();
                Ok(combine_library_counts(&libs, &counts))
            }
            Err(e) => Err(e),
        };
        let counts = self.fetch(|a| answer(&a.item_counts));
        let system = self.fetch(|a| answer(&a.system_info));
        if let Ok(s) = &sessions {
            assert!(session_bitrates_fit(s));
        }
        let plan = plan_collection(
            &sessions,
            &libraries,
            &counts,
            &system,
            self.collector.config.expose_remote_address,
        );
        self.metrics.apply(&plan.ops);
    }
}

fn test_config() -> CollectorConfig {
    CollectorConfig {
        scrape_interval_ms: 10_000,
        failure_threshold: 5,
        reset_timeout_ms: 60_000,
        retry_max_attempts: 0, // no retries in tests
        retry_base_delay_ms: 10,
        retry_max_delay_ms: 100,
        expose_remote_address: false,
    }
}

fn collect_once(api: MockJellyfinApi) -> String {
    let mut h = Harness::new(api, test_config());
    h.collect();
    h.metrics.encode()
}

fn make_active_session(user: &str, client: &str, play_method: &str) -> Session {
    Session {
        user_name: Some(user.into()),
        client: Some(client.into()),
        device_name: Some("TestDevice".into()),
        now_playing_item: Some(NowPlayingItem {
            name: Some("Test Movie".into()),
            media_type: Some("Video".into()),
            bitrate: Some(10_000_000),
            media_streams: None,
        }),
        play_state: Some(PlayState {
            play_method: Some(play_method.into()),
            is_paused: Some(false),
            position_ticks: None,
        }),
        transcoding_info: None,
        remote_end_point: None,
    }
}

#[test]
fn happy_path_all_metrics_populated() {
    let mock = MockJellyfinApi {
        sessions: Ok(vec![make_active_session("alice", "Infuse", "DirectPlay")]),
        libraries: Ok(vec![Library {
            name: "Movies".into(),
            collection_type: Some("movies".into()),
            item_id: "lib-1".into(),
        }]),
        item_counts: Ok(ItemCounts {
            movie_count: 150,
            series_count: 30,
            episode_count: 800,
            book_count: 20,
            song_count: 500,
            album_count: 40,
            artist_count: 50,
            trailer_count: 0,
            music_video_count: 0,
            box_set_count: 5,
            item_count: 1595,
        }),
        system_info: Ok(SystemInfo {
            server_name: "jellyfin".into(),
            version: "10.9.11".into(),
            operating_system: "Linux".into(),
        }),
        library_item_count: Ok(150),
        reachable: true,
    };

    let output = collect_once(mock);
    assert!(output.contains("jellyfin_up 1"));
    assert!(output.contains("jellyfin_metrics_stale 0"));
    assert!(output.contains("jellyfin_sessions_active_count 1"));
    assert!(output.contains(r#"jellyfin_items_by_type{type="Movie"} 150"#));
    assert!(output
        .contains(r#"jellyfin_library_items{library_name="Movies",library_type="movies"} 150"#));
    assert!(output
        .contains(r#"jellyfin_server_info{os="Linux",server_name="jellyfin",version="10.9.11"} 1"#));
    // Device label on sessions_active
    assert!(output.contains(r#"device="TestDevice"#));
    // DirectPlay session → stream_direct both 1
    assert!(output.contains(r#"jellyfin_stream_direct{type="video",user="alice"} 1"#));
    assert!(output.contains(r#"jellyfin_stream_direct{type="audio",user="alice"} 1"#));
    // Enriched item counts
    assert!(output.contains(r#"jellyfin_items_by_type{type="Artist"} 50"#));
    assert!(output.contains(r#"jellyfin_items_by_type{type="BoxSet"} 5"#));
    assert!(output.contains("jellyfin_items_count 1595"));
}

#[test]
fn unreachable_sets_stale() {
    let mock = MockJellyfinApi { reachable: false, ..Default::default() };

    let output = collect_once(mock);
    assert!(output.contains("jellyfin_up 0"));
    assert!(output.contains("jellyfin_metrics_stale 1"));
}

#[test]
fn session_filtering_only_active() {
    let idle_session = Session {
        user_name: Some("idle-user".into()),
        client: Some("Web".into()),
        device_name: Some("Chrome".into()),
        now_playing_item: None,
        play_state: None,
        transcoding_info: None,
        remote_end_point: None,
    };
    let active_session = make_active_session("active-user", "Infuse", "DirectPlay");

    let mock =
        MockJellyfinApi { sessions: Ok(vec![idle_session, active_session]), ..Default::default() };

    let output = collect_once(mock);
    assert!(output.contains("jellyfin_sessions_active_count 1"));
    assert!(output.contains("active-user"));
    assert!(!output.contains("idle-user"));
}

#[test]
fn bitrate_fallback_chain() {
    // TranscodingInfo.Bitrate takes priority
    let session_with_transcode = Session {
        user_name: Some("user1".into()),
        client: Some("Web".into()),
        device_name: Some("Chrome".into()),
        now_playing_item: Some(NowPlayingItem {
            name: Some("Movie".into()),
            media_type: Some("Video".into()),
            bitrate: Some(5_000_000),
            media_streams: Some(vec![
                MediaStream { bit_rate: Some(3_000_000) },
                MediaStream { bit_rate: Some(1_000_000) },
            ]),
        }),
        play_state: Some(PlayState {
            play_method: Some("Transcode".into()),
            is_paused: Some(false),
            position_ticks: None,
        }),
        transcoding_info: Some(TranscodingInfo {
            bitrate: Some(8_000_000),
            completion_percentage_bits: Some(50.0f64.to_bits()),
            hardware_acceleration_type: None,
            video_codec: Some("h264".into()),
            audio_codec: Some("aac".into()),
            transcode_reasons: Some(vec!["ContainerBitrateExceedsLimit".into()]),
            is_video_direct: Some(false),
            is_audio_direct: Some(true),
        }),
        remote_end_point: None,
    };

    let mock = MockJellyfinApi { sessions: Ok(vec![session_with_transcode]), ..Default::default() };

    let output = collect_once(mock);
    // Should use TranscodingInfo.Bitrate (8M), not Item.Bitrate (5M) or sum (4M)
    assert!(output
        .contains(r#"jellyfin_stream_bitrate_bps{media_type="video",user="user1"} 8000000"#));
}

#[test]
fn bitrate_fallback_to_media_streams() {
    let session = Session {
        user_name: Some("user2".into()),
        client: Some("Web".into()),
        device_name: Some("Firefox".into()),
        now_playing_item: Some(NowPlayingItem {
            name: Some("Movie".into()),
            media_type: Some("Video".into()),
            bitrate: None,
            media_streams: Some(vec![
                MediaStream { bit_rate: Some(3_000_000) },
                MediaStream { bit_rate: Some(1_000_000) },
            ]),
        }),
        play_state: Some(PlayState {
            play_method: Some("DirectPlay".into()),
            is_paused: Some(false),
            position_ticks: None,
        }),
        transcoding_info: None,
        remote_end_point: None,
    };

    let mock = MockJellyfinApi { sessions: Ok(vec![session]), ..Default::default() };

    let output = collect_once(mock);
    // Should sum MediaStreams: 3M + 1M = 4M
    assert!(output
        .contains(r#"jellyfin_stream_bitrate_bps{media_type="video",user="user2"} 4000000"#));
}

#[test]
fn library_item_counts_real_values() {
    let mock = MockJellyfinApi {
        libraries: Ok(vec![
            Library {
                name: "Movies".into(),
                collection_type: Some("movies".into()),
                item_id: "lib-1".into(),
            },
            Library {
                name: "TV Shows".into(),
                collection_type: Some("tvshows".into()),
                item_id: "lib-2".into(),
            },
        ]),
        library_item_count: Ok(42),
        ..Default::default()
    };

    let output = collect_once(mock);
    // Both libraries should have count 42 (mock returns same value for all)
    assert!(output
        .contains(r#"jellyfin_library_items{library_name="Movies",library_type="movies"} 42"#));
    assert!(output
        .contains(r#"jellyfin_library_items{library_name="TV Shows",library_type="tvshows"} 42"#));
}

#[test]
fn partial_failure_other_metrics_still_populated() {
    let mock = MockJellyfinApi {
        sessions: Err(ClientError::Timeout),
        item_counts: Ok(ItemCounts { movie_count: 100, item_count: 100, ..zero_counts() }),
        ..Default::default()
    };

    let output = collect_once(mock);
    assert!(output.contains("jellyfin_up 1"));
    // Items should still be populated despite sessions failing
    assert!(output.contains(r#"jellyfin_items_by_type{type="Movie"} 100"#));
}

#[test]
fn no_delay_burn_when_circuit_open() {
    let always_failing = MockJellyfinApi {
        sessions: Err(ClientError::Timeout),
        libraries: Err(ClientError::Timeout),
        item_counts: Err(ClientError::Timeout),
        system_info: Err(ClientError::Timeout),
        library_item_count: Err(ClientError::Timeout),
        reachable: true,
    };
    let config = CollectorConfig {
        scrape_interval_ms: 10_000,
        failure_threshold: 1, // open on the very first failure
        reset_timeout_ms: 60_000,
        retry_max_attempts: 2,
        retry_base_delay_ms: 200,
        retry_max_delay_ms: 500,
        expose_remote_address: false,
    };
    let mut h = Harness::new(always_failing, config);

    // First collect: trips the breaker.
    h.collect();
    assert!(!h.collector.is_ready(), "breaker must be open after a failure burst");

    // Second collect: every fetch fast-fails before the retry loop runs.
    let before = h.calls.get();
    h.collect();
    assert_eq!(h.calls.get(), before, "a refused fetch must not call the API");
    let output = h.metrics.encode();
    assert!(output.contains(r#"jellyfin_exporter_scrape_errors_total{kind="circuit_open"} 7"#));
    // With the circuit open the exporter serves stale metrics.
    assert!(output.contains("jellyfin_up 0"));
    assert!(output.contains("jellyfin_metrics_stale 1"));
}

#[test]
fn open_breaker_keeps_last_values() {
    let api = MockJellyfinApi {
        sessions: Ok(vec![make_active_session("gina", "Web", "DirectPlay")]),
        item_counts: Ok(ItemCounts { movie_count: 3, item_count: 3, ..zero_counts() }),
        ..Default::default()
    };
    let mut config = test_config();
    config.failure_threshold = 1;
    let mut h = Harness::new(api, config);
    h.collect();
    // Sessions fail and trip the breaker; the later fetches are refused.
    h.api.sessions = Err(ClientError::Timeout);
    h.collect();
    let before = h.metrics.encode();
    assert!(before.contains("jellyfin_up 1"));
    // Every fetch is now refused: the last values stay, marked stale.
    h.collect();
    let output = h.metrics.encode();
    assert!(output.contains("jellyfin_up 0"));
    assert!(output.contains("jellyfin_metrics_stale 1"));
    let kept = |text: &str| -> Vec<String> {
        text.lines()
            .filter(|l| {
                !l.starts_with("jellyfin_up ")
                    && !l.starts_with("jellyfin_metrics_stale ")
                    && !l.starts_with("jellyfin_exporter_scrape_errors_total")
            })
            .map(str::to_owned)
            .collect()
    };
    assert_eq!(kept(&before), kept(&output));
    assert!(output.contains("jellyfin_items_count 0"));
}

#[test]
fn unreachable_server_is_not_fetched() {
    let mut h = Harness::new(MockJellyfinApi { reachable: false, ..Default::default() }, test_config());
    h.collect();
    assert_eq!(h.calls.get(), 0);
    let c = Collector::new(&test_config());
    let step = c.after_probe(false);
    assert!(!step.fetch);
    assert_eq!(step.ops.len(), 3);
    assert!(c.after_probe(true).fetch);
}

#[test]
fn library_metric_table_matches_the_exposition() {
    for id in [
        MetricId::Up,
        MetricId::MetricsStale,
        MetricId::ServerInfo,
        MetricId::SessionsActive,
        MetricId::SessionPaused,
        MetricId::SessionsActiveCount,
        MetricId::TranscodesActive,
        MetricId::TranscodeHwAccelerated,
        MetricId::TranscodeReasonSessions,
        MetricId::StreamBitrate,
        MetricId::StreamDirect,
        MetricId::TranscodeCompletion,
        MetricId::PlayMethodSessions,
        MetricId::SessionPlayPositionSeconds,
        MetricId::SessionRemoteAddress,
        MetricId::LibraryItems,
        MetricId::ItemsByType,
        MetricId::ItemsCount,
    ] {
        let (name, labels) = metric_name(id);
        assert_eq!(lib_metric_name(id), name);
        assert_eq!(metric_labels(id), labels.to_vec());
    }
}

#[test]
fn transcode_hw_acceleration_counted() {
    let session = Session {
        user_name: Some("user".into()),
        client: Some("Web".into()),
        device_name: Some("Chrome".into()),
        now_playing_item: Some(NowPlayingItem {
            name: Some("Movie".into()),
            media_type: Some("Video".into()),
            bitrate: Some(10_000_000),
            media_streams: None,
        }),
        play_state: Some(PlayState {
            play_method: Some("Transcode".into()),
            is_paused: Some(false),
            position_ticks: None,
        }),
        transcoding_info: Some(TranscodingInfo {
            bitrate: Some(8_000_000),
            completion_percentage_bits: Some(75.0f64.to_bits()),
            hardware_acceleration_type: Some("vaapi".into()),
            video_codec: Some("h264".into()),
            audio_codec: Some("aac".into()),
            transcode_reasons: None,
            is_video_direct: Some(false),
            is_audio_direct: Some(false),
        }),
        remote_end_point: None,
    };

    let mock = MockJellyfinApi { sessions: Ok(vec![session]), ..Default::default() };

    let output = collect_once(mock);
    assert!(output.contains(r#"jellyfin_transcodes_active{audio_codec="aac",video_codec="h264"} 1"#));
    assert!(output.contains("jellyfin_transcode_hw_accelerated 1"));
    assert!(output.contains(r#"jellyfin_transcode_completion_pct{user="user"} 75"#));
    // stream_direct should show 0 for both (transcoding)
    assert!(output.contains(r#"jellyfin_stream_direct{type="video",user="user"} 0"#));
    assert!(output.contains(r#"jellyfin_stream_direct{type="audio",user="user"} 0"#));
}

#[test]
fn enriched_transcode_metrics() {
    let session = Session {
        user_name: Some("alice".into()),
        client: Some("Infuse".into()),
        device_name: Some("Apple TV".into()),
        now_playing_item: Some(NowPlayingItem {
            name: Some("Movie".into()),
            media_type: Some("Video".into()),
            bitrate: Some(20_000_000),
            media_streams: None,
        }),
        play_state: Some(PlayState {
            play_method: Some("Transcode".into()),
            is_paused: Some(true),
            position_ticks: None,
        }),
        transcoding_info: Some(TranscodingInfo {
            bitrate: Some(15_000_000),
            completion_percentage_bits: Some(60.0f64.to_bits()),
            hardware_acceleration_type: Some("vaapi".into()),
            video_codec: Some("hevc".into()),
            audio_codec: Some("ac3".into()),
            transcode_reasons: Some(vec![
                "ContainerBitrateExceedsLimit".into(),
                "VideoCodecNotSupported".into(),
            ]),
            is_video_direct: Some(false),
            is_audio_direct: Some(true),
        }),
        remote_end_point: None,
    };

    let mock = MockJellyfinApi { sessions: Ok(vec![session]), ..Default::default() };

    let output = collect_once(mock);

    // Device label on sessions_active
    assert!(output.contains(
        r#"jellyfin_sessions_active{client="Infuse",device="Apple TV",play_method="Transcode",user="alice"} 1"#
    ));
    // Paused
    assert!(output
        .contains(r#"jellyfin_session_paused{client="Infuse",device="Apple TV",user="alice"} 1"#));
    // Codec labels on transcodes_active
    assert!(output.contains(r#"jellyfin_transcodes_active{audio_codec="ac3",video_codec="hevc"} 1"#));
    // Transcode reasons
    assert!(output
        .contains(r#"jellyfin_transcode_reason_sessions{reason="ContainerBitrateExceedsLimit"} 1"#));
    assert!(output
        .contains(r#"jellyfin_transcode_reason_sessions{reason="VideoCodecNotSupported"} 1"#));
    // Stream direct: video transcoded (0), audio direct (1)
    assert!(output.contains(r#"jellyfin_stream_direct{type="video",user="alice"} 0"#));
    assert!(output.contains(r#"jellyfin_stream_direct{type="audio",user="alice"} 1"#));
}

// -- Further cases --

#[test]
fn reasons_tallied_across_sessions_and_codecs_lowercased() {
    let mut a = make_active_session("a", "Web", "Transcode");
    a.transcoding_info = Some(TranscodingInfo {
        bitrate: None,
        completion_percentage_bits: None,
        hardware_acceleration_type: None,
        video_codec: Some("H264".into()),
        audio_codec: None,
        transcode_reasons: Some(vec!["AudioCodecNotSupported".into()]),
        is_video_direct: None,
        is_audio_direct: None,
    });
    let mut b = a.clone();
    b.user_name = Some("b".into());
    let mock = MockJellyfinApi { sessions: Ok(vec![a, b]), ..Default::default() };

    let output = collect_once(mock);
    assert!(output
        .contains(r#"jellyfin_transcode_reason_sessions{reason="AudioCodecNotSupported"} 2"#));
    assert!(output
        .contains(r#"jellyfin_transcodes_active{audio_codec="unknown",video_codec="h264"} 2"#));
    assert!(output.contains(r#"jellyfin_play_method_sessions{method="Transcode"} 2"#));
    assert!(output.contains("jellyfin_transcode_hw_accelerated 0"));
}

#[test]
fn play_position_and_remote_address() {
    let mut s = make_active_session("carol", "Web", "DirectStream");
    s.play_state.as_mut().unwrap().position_ticks = Some(1_234 * 10_000_000);
    s.remote_end_point = Some("10.0.0.7".into());
    let api = MockJellyfinApi { sessions: Ok(vec![s]), ..Default::default() };

    let mut config = test_config();
    config.expose_remote_address = true;
    let mut h = Harness::new(api, config);
    h.collect();
    let output = h.metrics.encode();
    assert!(output
        .contains(r#"jellyfin_session_play_position_seconds{item_type="Video",user="carol"} 1234"#));
    assert!(output
        .contains(r#"jellyfin_session_remote_address{remote_address="10.0.0.7",user="carol"} 1"#));
    assert!(output.contains(r#"jellyfin_play_method_sessions{method="DirectStream"} 1"#));
}

#[test]
fn remote_address_hidden_by_default() {
    let mut s = make_active_session("carol", "Web", "DirectPlay");
    s.remote_end_point = Some("10.0.0.7".into());
    let output = collect_once(MockJellyfinApi { sessions: Ok(vec![s]), ..Default::default() });
    assert!(!output.contains("jellyfin_session_remote_address"));
}

#[test]
fn unreachable_keeps_last_values() {
    let api = MockJellyfinApi {
        item_counts: Ok(ItemCounts { movie_count: 7, item_count: 7, ..zero_counts() }),
        ..Default::default()
    };
    let mut h = Harness::new(api, test_config());
    h.collect();
    h.api.reachable = false;
    h.collect();
    let output = h.metrics.encode();
    assert!(output.contains("jellyfin_up 0"));
    assert!(output.contains(r#"jellyfin_items_by_type{type="Movie"} 7"#));
    assert!(output.contains(r#"jellyfin_exporter_scrape_errors_total{kind="unreachable"} 1"#));
}

#[test]
fn failed_sessions_fetch_clears_session_series() {
    let api = MockJellyfinApi {
        sessions: Ok(vec![make_active_session("dave", "Web", "DirectPlay")]),
        ..Default::default()
    };
    let mut h = Harness::new(api, test_config());
    h.collect();
    assert!(h.metrics.encode().contains("dave"));
    h.api.sessions = Err(ClientError::Timeout);
    h.collect();
    let output = h.metrics.encode();
    assert!(!output.contains("dave"));
    assert!(output.contains("jellyfin_sessions_active_count 0"));
    assert!(output.contains(r#"jellyfin_exporter_scrape_errors_total{kind="parse"} 1"#));
}

#[test]
fn failed_library_count_becomes_zero() {
    let libs = vec![
        Library { name: "A".into(), collection_type: None, item_id: "1".into() },
        Library { name: "B".into(), collection_type: Some("music".into()), item_id: "2".into() },
    ];
    let counts = vec![Err(CollectorError::CircuitOpen), Ok(9)];
    let combined = combine_library_counts(&libs, &counts);
    assert_eq!(combined.len(), 2);
    assert_eq!(combined[0].name, "A");
    assert_eq!(combined[0].collection_type, "");
    assert_eq!(combined[0].item_count, 0);
    assert_eq!(combined[1].collection_type, "music");
    assert_eq!(combined[1].item_count, 9);
}

#[test]
fn items_count_sums_the_types() {
    let api = MockJellyfinApi {
        item_counts: Ok(ItemCounts {
            movie_count: 1,
            series_count: 2,
            episode_count: 3,
            book_count: 4,
            song_count: 5,
            album_count: 6,
            artist_count: 7,
            trailer_count: 8,
            music_video_count: 9,
            box_set_count: 10,
            item_count: 0,
        }),
        ..Default::default()
    };
    let output = collect_once(api);
    assert!(output.contains("jellyfin_items_count 55"));
    assert!(output.contains(r#"jellyfin_items_by_type{type="MusicVideo"} 9"#));
}

#[test]
fn error_kinds() {
    assert_eq!(error_kind(&CollectorError::CircuitOpen), "circuit_open");
    assert_eq!(error_kind(&CollectorError::Api(ClientError::Http("x".into()))), "http");
    assert_eq!(error_kind(&CollectorError::Api(ClientError::Timeout)), "timeout");
    assert_eq!(error_kind(&CollectorError::Api(ClientError::Deserialization("x".into()))), "parse");
}

#[test]
fn fetch_outcome_maps_breaker_errors() {
    assert!(matches!(
        fetch_outcome::<u8>(Err(CircuitBreakerError::Open { retry_after_ns: 3 })),
        Err(CollectorError::CircuitOpen)
    ));
    assert!(matches!(
        fetch_outcome::<u8>(Err(CircuitBreakerError::Inner(ClientError::Timeout))),
        Err(CollectorError::Api(ClientError::Timeout))
    ));
    assert!(matches!(fetch_outcome::<u8>(Ok(4)), Ok(4)));
}

#[test]
fn plan_reports_complete_cycles() {
    let ok_sessions: Result<Vec<Session>, CollectorError> = Ok(vec![]);
    let plan = plan_collection(
        &ok_sessions,
        &Ok(vec![]),
        &Ok(zero_counts()),
        &Ok(SystemInfo { server_name: "s".into(), version: "v".into(), operating_system: "o".into() }),
        false,
    );
    assert!(plan.completed_without_errors);
    let plan = plan_collection(
        &ok_sessions,
        &Err(CollectorError::CircuitOpen),
        &Ok(zero_counts()),
        &Ok(SystemInfo { server_name: "s".into(), version: "v".into(), operating_system: "o".into() }),
        false,
    );
    assert!(!plan.completed_without_errors);
}

#[test]
fn overflowing_stream_bitrates_detected() {
    let mut s = make_active_session("e", "Web", "DirectPlay");
    s.now_playing_item.as_mut().unwrap().bitrate = None;
    s.now_playing_item.as_mut().unwrap().media_streams =
        Some(vec![MediaStream { bit_rate: Some(u64::MAX) }, MediaStream { bit_rate: Some(1) }]);
    assert!(!session_bitrates_fit(&vec![s]));
}

#[test]
fn collector_ready_until_breaker_opens() {
    let mut config = test_config();
    config.failure_threshold = 2;
    let mut c = Collector::new(&config);
    assert!(c.is_ready());
    assert!(c.begin_fetch::<u8>().is_none());
    let _ = c.finish_fetch::<u8>(Err(ClientError::Timeout));
    assert!(c.is_ready());
    let _ = c.finish_fetch::<u8>(Err(ClientError::Timeout));
    assert!(!c.is_ready());
    assert_eq!(c.circuit_breaker.status(), CircuitStatus::Open);
    assert!(matches!(c.begin_fetch::<u8>(), Some(Err(CollectorError::CircuitOpen))));
}

#[test]
fn client_error_messages() {
    assert_eq!(ClientError::Timeout.message(), "request timed out");
    assert_eq!(ClientError::Http("404".into()).message(), "HTTP request failed: 404");
    assert_eq!(
        ClientError::Deserialization("eof".into()).message(),
        "deserialization failed: eof"
    );
}

#[test]
fn bitrate_series_labels() {
    match bitrate_update("u".into(), "episode".into(), 7) {
        MetricOp::Assign { metric, labels, value } => {
            assert_eq!(metric, MetricId::StreamBitrate);
            assert_eq!(labels, vec!["u".to_owned(), "episode".to_owned()]);
            assert_eq!(value, MetricValue::Count(7));
        }
        other => panic!("unexpected {other:?}"),
    }
}

#[test]
fn media_type_lowercased_in_bitrate_label() {
    let mut s = make_active_session("f", "Web", "DirectPlay");
    s.now_playing_item.as_mut().unwrap().media_type = Some("ÉPISODE".into());
    let output = collect_once(MockJellyfinApi { sessions: Ok(vec![s]), ..Default::default() });
    assert!(output.contains(r#"jellyfin_stream_bitrate_bps{media_type="épisode",user="f"} 10000000"#));
}

#[test]
fn after_attempt_retries_then_gives_up() {
    let mut config = test_config();
    config.retry_max_attempts = 2;
    config.failure_threshold = 1;
    let mut c = Collector::new(&config);
    assert!(matches!(
        c.after_attempt::<u8>(0, Err(ClientError::Timeout)),
        FetchAction::Retry { delay_ms } if (10..20).contains(&delay_ms)
    ));
    assert!(matches!(
        c.after_attempt::<u8>(1, Err(ClientError::Timeout)),
        FetchAction::Retry { delay_ms } if (20..30).contains(&delay_ms)
    ));
    // Retries do not count against the breaker.
    assert!(c.is_ready());
    assert!(matches!(
        c.after_attempt::<u8>(2, Err(ClientError::Timeout)),
        FetchAction::Finished(Err(CollectorError::Api(ClientError::Timeout)))
    ));
    assert!(!c.is_ready());
}

#[test]
fn after_attempt_success_finishes() {
    let mut c = Collector::new(&test_config());
    assert!(matches!(c.after_attempt(0, Ok(5u8)), FetchAction::Finished(Ok(5))));
    assert!(c.is_ready());
}

//! Collection logic: the metric updates that one collection cycle applies.
//!
//! A cycle probes reachability, then fetches sessions, libraries (with a
//! per-library item count), item counts and system information, each through
//! the circuit breaker wrapping the retry schedule. The functions here turn
//! the outcomes into an ordered list of [`MetricOp`]s; applying the list to
//! the Prometheus registry is left to the caller.

use std::borrow::Cow;
use vstd::prelude::*;

use crate::circuit_breaker::{
    status_of, CircuitBreaker, CircuitBreakerError, CircuitStatus, ProceedDecision,
};
use crate::client::{
    ClientError, ItemCounts, Library, MediaStream, NowPlayingItem, Session, SystemInfo,
    TranscodingInfo,
};
use crate::labels::{
    ascii_lower, sanitize_codec_label, sanitize_label, sanitized, to_lowercase, unicode_lowercase,
};
use crate::retry::{budget_spent, delay_with_jitter, jitter_allowed, next_step, RetryStep};
use crate::text::{opt_text, text_eq};

verus! {

/// The exporter's metrics that a collection cycle updates.
#[derive(Clone, Copy, Debug, PartialEq, Eq, Structural)]
pub enum MetricId {
    Up,
    MetricsStale,
    ServerInfo,
    SessionsActive,
    SessionPaused,
    SessionsActiveCount,
    TranscodesActive,
    TranscodeHwAccelerated,
    TranscodeReasonSessions,
    StreamBitrate,
    StreamDirect,
    TranscodeCompletion,
    PlayMethodSessions,
    SessionPlayPositionSeconds,
    SessionRemoteAddress,
    LibraryItems,
    ItemsByType,
    ItemsCount,
}

/// A value written to a gauge.
#[derive(Clone, Copy, Debug, PartialEq, Eq, Structural)]
pub enum MetricValue {
    /// An integer count or flag.
    Count(u64),
    /// A playback position in ticks, exposed in seconds (ticks / 10,000,000).
    PositionTicks(i64),
    /// A floating-point percentage, as its IEEE-754 bit pattern.
    PercentBits(u64),
}

/// One update of the metrics registry.
#[derive(Debug)]
pub enum MetricOp {
    /// Clear every label set of a metric (or zero a plain gauge).
    Reset(MetricId),
    /// Set the series with these label values (none for a plain gauge).
    Assign { metric: MetricId, labels: Vec<String>, value: MetricValue },
    /// Add one to the series with these label values.
    Inc { metric: MetricId, labels: Vec<String> },
    /// Count a failed fetch in `jellyfin_exporter_scrape_errors_total{kind}`.
    ScrapeError { kind: String },
}

/// A metric update, as a value.
pub enum OpView {
    Reset(MetricId),
    Assign(MetricId, Seq<Seq<char>>, MetricValue),
    Inc(MetricId, Seq<Seq<char>>),
    ScrapeError(Seq<char>),
}

pub open spec fn label_texts(v: Seq<String>) -> Seq<Seq<char>> {
    v.map_values(|l: String| l@)
}

impl View for MetricOp {
    type V = OpView;

    open spec fn view(&self) -> OpView {
        match self {
            MetricOp::Reset(m) => OpView::Reset(*m),
            MetricOp::Assign { metric, labels, value } => OpView::Assign(
                *metric,
                label_texts(labels@),
                *value,
            ),
            MetricOp::Inc { metric, labels } => OpView::Inc(*metric, label_texts(labels@)),
            MetricOp::ScrapeError { kind } => OpView::ScrapeError(kind@),
        }
    }
}

pub open spec fn ops_view(v: Seq<MetricOp>) -> Seq<OpView> {
    v.map_values(|o: MetricOp| o@)
}

/// Why a fetch produced no data.
#[derive(Clone, Debug)]
pub enum CollectorError {
    /// The circuit breaker refused the call.
    CircuitOpen,
    /// The call ran and failed.
    Api(ClientError),
}

/// The `kind` label under which a failed fetch is counted.
pub open spec fn error_kind_text(e: CollectorError) -> Seq<char> {
    match e {
        CollectorError::CircuitOpen => "circuit_open"@,
        CollectorError::Api(ClientError::Http(_)) => "http"@,
        CollectorError::Api(ClientError::Timeout) => "timeout"@,
        CollectorError::Api(ClientError::Deserialization(_)) => "parse"@,
    }
}

/// Classify a failed fetch for `jellyfin_exporter_scrape_errors_total`.
pub fn error_kind(e: &CollectorError) -> (k: &'static str)
    ensures
        k@ == error_kind_text(*e),
{
    match e {
        CollectorError::CircuitOpen => "circuit_open",
        CollectorError::Api(ClientError::Http(_)) => "http",
        CollectorError::Api(ClientError::Timeout) => "timeout",
        CollectorError::Api(ClientError::Deserialization(_)) => "parse",
    }
}

/// The outcome of a fetch run through the breaker: a refusal becomes
/// [`CollectorError::CircuitOpen`] and the call's own error is kept.
pub fn fetch_outcome<T>(r: Result<T, CircuitBreakerError<ClientError>>) -> (out: Result<T, CollectorError>)
    ensures
        match r {
            Ok(v) => out == Ok::<T, CollectorError>(v),
            Err(CircuitBreakerError::Open { .. }) => out == Err::<T, CollectorError>(
                CollectorError::CircuitOpen,
            ),
            Err(CircuitBreakerError::Inner(e)) => out == Err::<T, CollectorError>(
                CollectorError::Api(e),
            ),
        },
{
    match r {
        Ok(v) => Ok(v),
        Err(CircuitBreakerError::Open { .. }) => Err(CollectorError::CircuitOpen),
        Err(CircuitBreakerError::Inner(e)) => Err(CollectorError::Api(e)),
    }
}

proof fn lemma_push_view(v: Seq<MetricOp>, op: MetricOp)
    ensures
        ops_view(v.push(op)) == ops_view(v).push(op@),
{
    assert(ops_view(v.push(op)) =~= ops_view(v).push(op@));
}

fn push_op(ops: &mut Vec<MetricOp>, op: MetricOp)
    ensures
        ops_view(final(ops)@) == ops_view(old(ops)@).push(op@),
{
    proof {
        lemma_push_view(ops@, op);
    }
    ops.push(op);
}

fn no_labels() -> (v: Vec<String>)
    ensures
        label_texts(v@) == Seq::<Seq<char>>::empty(),
{
    let v: Vec<String> = Vec::new();
    assert(label_texts(v@) =~= Seq::<Seq<char>>::empty());
    v
}

fn one_label(a: String) -> (v: Vec<String>)
    ensures
        label_texts(v@) == seq![a@],
{
    let mut v: Vec<String> = Vec::new();
    v.push(a);
    assert(label_texts(v@) =~= seq![a@]);
    v
}

fn two_labels(a: String, b: String) -> (v: Vec<String>)
    ensures
        label_texts(v@) == seq![a@, b@],
{
    let mut v: Vec<String> = Vec::new();
    v.push(a);
    v.push(b);
    assert(label_texts(v@) =~= seq![a@, b@]);
    v
}

fn three_labels(a: String, b: String, c: String) -> (v: Vec<String>)
    ensures
        label_texts(v@) == seq![a@, b@, c@],
{
    let mut v: Vec<String> = Vec::new();
    v.push(a);
    v.push(b);
    v.push(c);
    assert(label_texts(v@) =~= seq![a@, b@, c@]);
    v
}

fn four_labels(a: String, b: String, c: String, d: String) -> (v: Vec<String>)
    ensures
        label_texts(v@) == seq![a@, b@, c@, d@],
{
    let mut v: Vec<String> = Vec::new();
    v.push(a);
    v.push(b);
    v.push(c);
    v.push(d);
    assert(label_texts(v@) =~= seq![a@, b@, c@, d@]);
    v
}

fn cow_into_string(c: Cow<'_, str>) -> (s: String)
    ensures
        s@ == c@,
{
    match c {
        Cow::Borrowed(b) => b.to_owned(),
        Cow::Owned(o) => o,
    }
}

/// The sanitized label of an optional string.
pub open spec fn label(v: Option<String>) -> Seq<char> {
    sanitized(opt_text(v))
}

/// The sanitized, ASCII-lowercased label of an optional codec name.
pub open spec fn codec_label(v: Option<String>) -> Seq<char> {
    ascii_lower(sanitized(opt_text(v)))
}

fn owned_label(v: &Option<String>) -> (s: String)
    ensures
        s@ == label(*v),
{
    match v {
        Some(t) => cow_into_string(sanitize_label(Some(t.as_str()))),
        None => cow_into_string(sanitize_label(None)),
    }
}

fn owned_codec_label(v: &Option<String>) -> (s: String)
    ensures
        s@ == codec_label(*v),
{
    match v {
        Some(t) => cow_into_string(sanitize_codec_label(Some(t.as_str()))),
        None => cow_into_string(sanitize_codec_label(None)),
    }
}

/// The session plays something: only such sessions are counted.
pub open spec fn is_active(s: Session) -> bool {
    s.now_playing_item is Some
}

pub open spec fn play_method_label(s: Session) -> Seq<char> {
    label(
        match s.play_state {
            Some(ps) => ps.play_method,
            None => None,
        },
    )
}

pub open spec fn paused(s: Session) -> bool {
    match s.play_state {
        Some(ps) => match ps.is_paused {
            Some(b) => b,
            None => false,
        },
        None => false,
    }
}

pub open spec fn position_ticks(s: Session) -> Option<i64> {
    match s.play_state {
        Some(ps) => ps.position_ticks,
        None => None,
    }
}

/// Sum of the streams' known bitrates.
pub open spec fn streams_total(streams: Seq<MediaStream>) -> nat
    decreases streams.len(),
{
    if streams.len() == 0 {
        0
    } else {
        streams_total(streams.drop_last()) + match streams.last().bit_rate {
            Some(b) => b as nat,
            None => 0,
        }
    }
}

/// Stream bitrate of a session: `TranscodingInfo.Bitrate`, else
/// `NowPlayingItem.Bitrate`, else the sum of the media streams' bitrates.
pub open spec fn session_bitrate(s: Session) -> nat {
    let item = s.now_playing_item->Some_0;
    let transcoded = match s.transcoding_info {
        Some(t) => t.bitrate,
        None => None,
    };
    match transcoded {
        Some(b) => b as nat,
        None => match item.bitrate {
            Some(b) => b as nat,
            None => match item.media_streams {
                Some(v) => streams_total(v@),
                None => 0,
            },
        },
    }
}

/// The bitrate series' media-type label: the item type, lowercased.
pub open spec fn media_type_label(item: NowPlayingItem) -> Seq<char> {
    unicode_lowercase(
        match item.media_type {
            Some(m) => m@,
            None => "unknown"@,
        },
    )
}

pub open spec fn flag_value(b: bool) -> MetricValue {
    MetricValue::Count(
        if b {
            1
        } else {
            0
        },
    )
}

/// One counted occurrence of a transcode reason.
pub open spec fn reason_update(r: String) -> OpView {
    OpView::Inc(MetricId::TranscodeReasonSessions, seq![sanitized(Some(r@))])
}

pub open spec fn reason_updates(v: Seq<String>) -> Seq<OpView> {
    v.map_values(|r: String| reason_update(r))
}

/// The transcode completion percentage, when known.
pub open spec fn completion_piece(user: Seq<char>, t: TranscodingInfo) -> Seq<OpView> {
    match t.completion_percentage_bits {
        Some(b) => seq![
            OpView::Assign(MetricId::TranscodeCompletion, seq![user], MetricValue::PercentBits(b)),
        ],
        None => Seq::empty(),
    }
}

/// One counted occurrence per transcode reason.
pub open spec fn reasons_piece(t: TranscodingInfo) -> Seq<OpView> {
    match t.transcode_reasons {
        Some(v) => reason_updates(v@),
        None => Seq::empty(),
    }
}

/// Whether video and audio are passed through directly, when known.
pub open spec fn direct_piece(user: Seq<char>, t: TranscodingInfo) -> Seq<OpView> {
    let video = match t.is_video_direct {
        Some(d) => seq![OpView::Assign(MetricId::StreamDirect, seq![user, "video"@], flag_value(d))],
        None => Seq::empty(),
    };
    let audio = match t.is_audio_direct {
        Some(d) => seq![OpView::Assign(MetricId::StreamDirect, seq![user, "audio"@], flag_value(d))],
        None => Seq::empty(),
    };
    video + audio
}

/// The updates for a transcoding session's details: its codec pair, its
/// completion, its reasons, and which streams are direct.
pub open spec fn transcode_updates(user: Seq<char>, t: TranscodingInfo) -> Seq<OpView> {
    seq![
        OpView::Inc(
            MetricId::TranscodesActive,
            seq![codec_label(t.video_codec), codec_label(t.audio_codec)],
        ),
    ] + completion_piece(user, t) + reasons_piece(t) + direct_piece(user, t)
}

/// The first two updates of an active session: it is active, and whether it
/// is paused.
pub open spec fn session_head(s: Session) -> Seq<OpView> {
    let user = label(s.user_name);
    let client = label(s.client);
    let device = label(s.device_name);
    seq![
        OpView::Assign(
            MetricId::SessionsActive,
            seq![user, client, play_method_label(s), device],
            MetricValue::Count(1),
        ),
        OpView::Assign(MetricId::SessionPaused, seq![user, client, device], flag_value(paused(s))),
    ]
}

/// The playback position, when known.
pub open spec fn position_piece(s: Session) -> Seq<OpView> {
    match position_ticks(s) {
        Some(t) => seq![
            OpView::Assign(
                MetricId::SessionPlayPositionSeconds,
                seq![label(s.user_name), label(s.now_playing_item->Some_0.media_type)],
                MetricValue::PositionTicks(t),
            ),
        ],
        None => Seq::empty(),
    }
}

/// The client's address, when known and exposure is enabled.
pub open spec fn remote_piece(s: Session, expose_remote_address: bool) -> Seq<OpView> {
    if expose_remote_address && s.remote_end_point is Some {
        seq![
            OpView::Assign(
                MetricId::SessionRemoteAddress,
                seq![label(s.user_name), label(s.remote_end_point)],
                MetricValue::Count(1),
            ),
        ]
    } else {
        Seq::empty()
    }
}

/// The stream bitrate, when positive.
pub open spec fn bitrate_piece(s: Session) -> Seq<OpView> {
    if session_bitrate(s) > 0 {
        seq![
            OpView::Assign(
                MetricId::StreamBitrate,
                seq![label(s.user_name), media_type_label(s.now_playing_item->Some_0)],
                MetricValue::Count(session_bitrate(s) as u64),
            ),
        ]
    } else {
        Seq::empty()
    }
}

/// Transcode details for a transcoding session; otherwise both video and
/// audio are direct.
pub open spec fn stream_piece(s: Session) -> Seq<OpView> {
    let user = label(s.user_name);
    if play_method_label(s) == "Transcode"@ {
        match s.transcoding_info {
            Some(t) => transcode_updates(user, t),
            None => Seq::empty(),
        }
    } else {
        seq![
            OpView::Assign(MetricId::StreamDirect, seq![user, "video"@], MetricValue::Count(1)),
            OpView::Assign(MetricId::StreamDirect, seq![user, "audio"@], MetricValue::Count(1)),
        ]
    }
}

/// The updates for one active session, in order.
pub open spec fn session_updates(s: Session, expose_remote_address: bool) -> Seq<OpView> {
    session_head(s) + position_piece(s) + remote_piece(s, expose_remote_address) + bitrate_piece(
        s,
    ) + stream_piece(s)
}

/// The per-session updates of every active session, in order.
pub open spec fn all_session_updates(sessions: Seq<Session>, expose_remote_address: bool) -> Seq<OpView>
    decreases sessions.len(),
{
    if sessions.len() == 0 {
        Seq::empty()
    } else {
        all_session_updates(sessions.drop_last(), expose_remote_address) + if is_active(
            sessions.last(),
        ) {
            session_updates(sessions.last(), expose_remote_address)
        } else {
            Seq::empty()
        }
    }
}

/// Number of sessions with a property.
pub open spec fn count_sessions(sessions: Seq<Session>, p: spec_fn(Session) -> bool) -> nat
    decreases sessions.len(),
{
    if sessions.len() == 0 {
        0
    } else {
        count_sessions(sessions.drop_last(), p) + if p(sessions.last()) {
            1nat
        } else {
            0nat
        }
    }
}

pub open spec fn active_with_method(s: Session, method: Seq<char>) -> bool {
    is_active(s) && play_method_label(s) == method
}

pub open spec fn active_pred() -> spec_fn(Session) -> bool {
    |s: Session| is_active(s)
}

pub open spec fn method_pred(method: Seq<char>) -> spec_fn(Session) -> bool {
    |s: Session| active_with_method(s, method)
}

pub open spec fn hw_pred() -> spec_fn(Session) -> bool {
    |s: Session| hw_accelerated(s)
}

pub open spec fn hw_accelerated(s: Session) -> bool {
    is_active(s) && play_method_label(s) == "Transcode"@ && match s.transcoding_info {
        Some(t) => t.hardware_acceleration_type is Some,
        None => false,
    }
}

/// The resets that open the session section of a cycle, clearing stale
/// label sets.
pub open spec fn session_resets() -> Seq<OpView> {
    seq![
        OpView::Reset(MetricId::SessionsActive),
        OpView::Reset(MetricId::SessionPaused),
        OpView::Assign(MetricId::SessionsActiveCount, Seq::empty(), MetricValue::Count(0)),
        OpView::Reset(MetricId::TranscodesActive),
        OpView::Assign(MetricId::TranscodeHwAccelerated, Seq::empty(), MetricValue::Count(0)),
        OpView::Reset(MetricId::TranscodeReasonSessions),
        OpView::Reset(MetricId::StreamBitrate),
        OpView::Reset(MetricId::StreamDirect),
        OpView::Reset(MetricId::TranscodeCompletion),
        OpView::Reset(MetricId::PlayMethodSessions),
        OpView::Reset(MetricId::SessionPlayPositionSeconds),
        OpView::Reset(MetricId::SessionRemoteAddress),
    ]
}

/// The session section of a cycle for the fetched sessions.
pub open spec fn session_section(sessions: Seq<Session>, expose_remote_address: bool) -> Seq<OpView> {
    session_resets() + seq![
        OpView::Assign(
            MetricId::SessionsActiveCount,
            Seq::empty(),
            MetricValue::Count(count_sessions(sessions, active_pred()) as u64),
        ),
    ] + all_session_updates(sessions, expose_remote_address) + seq![
        OpView::Assign(
            MetricId::TranscodeHwAccelerated,
            Seq::empty(),
            MetricValue::Count(count_sessions(sessions, hw_pred()) as u64),
        ),
        OpView::Assign(
            MetricId::PlayMethodSessions,
            seq!["DirectPlay"@],
            MetricValue::Count(
                count_sessions(sessions, method_pred("DirectPlay"@)) as u64,
            ),
        ),
        OpView::Assign(
            MetricId::PlayMethodSessions,
            seq!["Transcode"@],
            MetricValue::Count(
                count_sessions(sessions, method_pred("Transcode"@)) as u64,
            ),
        ),
        OpView::Assign(
            MetricId::PlayMethodSessions,
            seq!["DirectStream"@],
            MetricValue::Count(
                count_sessions(sessions, method_pred("DirectStream"@)) as u64,
            ),
        ),
    ]
}

/// The stream bitrate of every active session fits in `u64`.
pub open spec fn bitrates_fit(sessions: Seq<Session>) -> bool {
    forall|i: int| 0 <= i < sessions.len() && is_active(#[trigger] sessions[i]) ==> session_bitrate(sessions[i]) <= u64::MAX
}

proof fn lemma_streams_total_prefix(v: Seq<MediaStream>, i: int, j: int)
    requires
        0 <= i <= j <= v.len(),
    ensures
        streams_total(v.take(i)) <= streams_total(v.take(j)),
    decreases j - i,
{
    if i < j {
        lemma_streams_total_prefix(v, i, j - 1);
        assert(v.take(j).drop_last() =~= v.take(j - 1));
    }
}

fn media_streams_total(streams: &Vec<MediaStream>) -> (t: u64)
    requires
        streams_total(streams@) <= u64::MAX,
    ensures
        t == streams_total(streams@),
{
    let mut total: u64 = 0;
    let mut j: usize = 0;
    while j < streams.len()
        invariant
            j <= streams.len(),
            total == streams_total(streams@.take(j as int)),
            streams_total(streams@) <= u64::MAX,
        decreases streams.len() - j,
    {
        proof {
            assert(streams@.take(j + 1).drop_last() =~= streams@.take(j as int));
            lemma_streams_total_prefix(streams@, j + 1, streams@.len() as int);
            assert(streams@.take(streams@.len() as int) =~= streams@);
        }
        match streams[j].bit_rate {
            Some(b) => {
                total = total + b;
            },
            None => {},
        }
        j = j + 1;
    }
    assert(streams@.take(j as int) =~= streams@);
    total
}

fn bitrate_of(s: &Session) -> (b: u64)
    requires
        is_active(*s),
        session_bitrate(*s) <= u64::MAX,
    ensures
        b == session_bitrate(*s),
{
    let transcoded = match &s.transcoding_info {
        Some(t) => t.bitrate,
        None => None,
    };
    match transcoded {
        Some(b) => b,
        None => match &s.now_playing_item {
            Some(item) => match item.bitrate {
                Some(b) => b,
                None => match &item.media_streams {
                    Some(v) => media_streams_total(v),
                    None => 0,
                },
            },
            None => 0,
        },
    }
}

fn method_label(s: &Session) -> (m: String)
    ensures
        m@ == play_method_label(*s),
{
    match &s.play_state {
        Some(ps) => owned_label(&ps.play_method),
        None => owned_label(&None),
    }
}

fn push_transcode_updates(ops: &mut Vec<MetricOp>, user: &String, t: &TranscodingInfo)
    ensures
        ops_view(final(ops)@) == ops_view(old(ops)@) + transcode_updates(user@, *t),
{
    let ghost start = ops_view(ops@);
    push_op(
        ops,
        MetricOp::Inc {
            metric: MetricId::TranscodesActive,
            labels: two_labels(owned_codec_label(&t.video_codec), owned_codec_label(&t.audio_codec)),
        },
    );
    let ghost first = ops_view(ops@);
    if let Some(bits) = t.completion_percentage_bits {
        push_op(
            ops,
            MetricOp::Assign {
                metric: MetricId::TranscodeCompletion,
                labels: one_label(user.clone()),
                value: MetricValue::PercentBits(bits),
            },
        );
    }
    let ghost second = ops_view(ops@);
    if let Some(reasons) = &t.transcode_reasons {
        let mut k: usize = 0;
        while k < reasons.len()
            invariant
                k <= reasons.len(),
                ops_view(ops@) == second + reason_updates(reasons@.take(k as int)),
            decreases reasons.len() - k,
        {
            let r = cow_into_string(sanitize_label(Some(reasons[k].as_str())));
            push_op(
                ops,
                MetricOp::Inc { metric: MetricId::TranscodeReasonSessions, labels: one_label(r) },
            );
            proof {
                assert(reasons@.take(k + 1) =~= reasons@.take(k as int).push(reasons@[k as int]));
                assert(reason_updates(reasons@.take(k + 1)) =~= reason_updates(
                    reasons@.take(k as int),
                ).push(reason_update(reasons@[k as int])));
                assert(ops_view(ops@) =~= second + reason_updates(reasons@.take(k + 1)));
            }
            k = k + 1;
        }
        assert(reasons@.take(reasons.len() as int) =~= reasons@);
    }
    let ghost third = ops_view(ops@);
    if let Some(d) = t.is_video_direct {
        push_op(
            ops,
            MetricOp::Assign {
                metric: MetricId::StreamDirect,
                labels: two_labels(user.clone(), "video".to_owned()),
                value: MetricValue::Count(
                    if d {
                        1
                    } else {
                        0
                    },
                ),
            },
        );
    }
    let ghost fourth = ops_view(ops@);
    if let Some(d) = t.is_audio_direct {
        push_op(
            ops,
            MetricOp::Assign {
                metric: MetricId::StreamDirect,
                labels: two_labels(user.clone(), "audio".to_owned()),
                value: MetricValue::Count(
                    if d {
                        1
                    } else {
                        0
                    },
                ),
            },
        );
    }
    proof {
        assert(ops_view(ops@) =~= start + transcode_updates(user@, *t));
    }
}

fn push_session_head(ops: &mut Vec<MetricOp>, s: &Session)
    ensures
        ops_view(final(ops)@) == ops_view(old(ops)@) + session_head(*s),
{
    let ghost start = ops_view(ops@);
    let user = owned_label(&s.user_name);
    let client = owned_label(&s.client);
    let device = owned_label(&s.device_name);
    let method = method_label(s);
    push_op(
        ops,
        MetricOp::Assign {
            metric: MetricId::SessionsActive,
            labels: four_labels(user.clone(), client.clone(), method, device.clone()),
            value: MetricValue::Count(1),
        },
    );
    let is_paused = match &s.play_state {
        Some(ps) => match ps.is_paused {
            Some(b) => b,
            None => false,
        },
        None => false,
    };
    push_op(
        ops,
        MetricOp::Assign {
            metric: MetricId::SessionPaused,
            labels: three_labels(user, client, device),
            value: MetricValue::Count(
                if is_paused {
                    1
                } else {
                    0
                },
            ),
        },
    );
    assert(ops_view(ops@) =~= start + session_head(*s));
}

fn push_position(ops: &mut Vec<MetricOp>, s: &Session)
    requires
        is_active(*s),
    ensures
        ops_view(final(ops)@) == ops_view(old(ops)@) + position_piece(*s),
{
    let ghost start = ops_view(ops@);
    let ticks = match &s.play_state {
        Some(ps) => ps.position_ticks,
        None => None,
    };
    if let Some(t) = ticks {
        if let Some(item) = &s.now_playing_item {
            push_op(
                ops,
                MetricOp::Assign {
                    metric: MetricId::SessionPlayPositionSeconds,
                    labels: two_labels(owned_label(&s.user_name), owned_label(&item.media_type)),
                    value: MetricValue::PositionTicks(t),
                },
            );
        }
    }
    assert(ops_view(ops@) =~= start + position_piece(*s));
}

fn push_remote(ops: &mut Vec<MetricOp>, s: &Session, expose_remote_address: bool)
    ensures
        ops_view(final(ops)@) == ops_view(old(ops)@) + remote_piece(*s, expose_remote_address),
{
    let ghost start = ops_view(ops@);
    if expose_remote_address {
        if let Some(remote) = &s.remote_end_point {
            push_op(
                ops,
                MetricOp::Assign {
                    metric: MetricId::SessionRemoteAddress,
                    labels: two_labels(
                        owned_label(&s.user_name),
                        cow_into_string(sanitize_label(Some(remote.as_str()))),
                    ),
                    value: MetricValue::Count(1),
                },
            );
        }
    }
    assert(ops_view(ops@) =~= start + remote_piece(*s, expose_remote_address));
}

/// The stream-bitrate series of a user, given the lowercased media type.
pub fn bitrate_update(user: String, media_type: String, bitrate: u64) -> (op: MetricOp)
    ensures
        op@ == OpView::Assign(
            MetricId::StreamBitrate,
            seq![user@, media_type@],
            MetricValue::Count(bitrate),
        ),
{
    MetricOp::Assign {
        metric: MetricId::StreamBitrate,
        labels: two_labels(user, media_type),
        value: MetricValue::Count(bitrate),
    }
}

fn push_bitrate(ops: &mut Vec<MetricOp>, s: &Session)
    requires
        is_active(*s),
        session_bitrate(*s) <= u64::MAX,
    ensures
        ops_view(final(ops)@) == ops_view(old(ops)@) + bitrate_piece(*s),
{
    let ghost start = ops_view(ops@);
    let bitrate = bitrate_of(s);
    if bitrate > 0 {
        if let Some(item) = &s.now_playing_item {
            let media_type = match &item.media_type {
                Some(m) => to_lowercase(m.as_str()),
                None => to_lowercase("unknown"),
            };
            push_op(ops, bitrate_update(owned_label(&s.user_name), media_type, bitrate));
        }
    }
    assert(ops_view(ops@) =~= start + bitrate_piece(*s));
}

fn push_stream(ops: &mut Vec<MetricOp>, s: &Session)
    ensures
        ops_view(final(ops)@) == ops_view(old(ops)@) + stream_piece(*s),
{
    let ghost start = ops_view(ops@);
    let user = owned_label(&s.user_name);
    let method = method_label(s);
    if text_eq(method.as_str(), "Transcode") {
        match &s.transcoding_info {
            Some(t) => push_transcode_updates(ops, &user, t),
            None => {},
        }
    } else {
        push_op(
            ops,
            MetricOp::Assign {
                metric: MetricId::StreamDirect,
                labels: two_labels(user.clone(), "video".to_owned()),
                value: MetricValue::Count(1),
            },
        );
        push_op(
            ops,
            MetricOp::Assign {
                metric: MetricId::StreamDirect,
                labels: two_labels(user, "audio".to_owned()),
                value: MetricValue::Count(1),
            },
        );
    }
    assert(ops_view(ops@) =~= start + stream_piece(*s));
}

fn push_session_updates(ops: &mut Vec<MetricOp>, s: &Session, expose_remote_address: bool)
    requires
        is_active(*s),
        session_bitrate(*s) <= u64::MAX,
    ensures
        ops_view(final(ops)@) == ops_view(old(ops)@) + session_updates(*s, expose_remote_address),
{
    let ghost start = ops_view(ops@);
    push_session_head(ops, s);
    push_position(ops, s);
    push_remote(ops, s, expose_remote_address);
    push_bitrate(ops, s);
    push_stream(ops, s);
    assert(ops_view(ops@) =~= start + session_updates(*s, expose_remote_address));
}

fn streams_total_checked(streams: &Vec<MediaStream>) -> (t: Option<u64>)
    ensures
        match t {
            Some(v) => v == streams_total(streams@),
            None => streams_total(streams@) > u64::MAX,
        },
{
    let mut total: u64 = 0;
    let mut j: usize = 0;
    while j < streams.len()
        invariant
            j <= streams.len(),
            total == streams_total(streams@.take(j as int)),
        decreases streams.len() - j,
    {
        proof {
            assert(streams@.take(j + 1).drop_last() =~= streams@.take(j as int));
        }
        match streams[j].bit_rate {
            Some(b) => {
                match total.checked_add(b) {
                    Some(sum) => {
                        total = sum;
                    },
                    None => {
                        proof {
                            lemma_streams_total_prefix(streams@, j + 1, streams@.len() as int);
                            assert(streams@.take(streams@.len() as int) =~= streams@);
                        }
                        return None;
                    },
                }
            },
            None => {},
        }
        j = j + 1;
    }
    assert(streams@.take(j as int) =~= streams@);
    Some(total)
}

/// Whether the stream bitrate of every active session fits in `u64`
/// (summing the media streams' bitrates overflows otherwise).
pub fn session_bitrates_fit(sessions: &Vec<Session>) -> (r: bool)
    ensures
        r == bitrates_fit(sessions@),
{
    let mut i: usize = 0;
    while i < sessions.len()
        invariant
            i <= sessions.len(),
            forall|k: int|
                0 <= k < i && is_active(#[trigger] sessions@[k]) ==> session_bitrate(sessions@[k])
                    <= u64::MAX,
        decreases sessions.len() - i,
    {
        let s = &sessions[i];
        let transcoded = match &s.transcoding_info {
            Some(t) => t.bitrate,
            None => None,
        };
        if transcoded.is_none() {
            if let Some(item) = &s.now_playing_item {
                if item.bitrate.is_none() {
                    if let Some(v) = &item.media_streams {
                        if streams_total_checked(v).is_none() {
                            return false;
                        }
                    }
                }
            }
        }
        i = i + 1;
    }
    true
}

/// The session section of a cycle: resets that clear stale label sets, then
/// (when the sessions were fetched) the number of active sessions, the
/// updates of each active session, and the per-cycle aggregates.
pub fn collect_sessions(result: &Result<Vec<Session>, CollectorError>, expose_remote_address: bool) -> (ops: Vec<MetricOp>)
    requires
        result matches Ok(v) ==> bitrates_fit(v@),
    ensures
        match result {
            Ok(v) => ops_view(ops@) == session_section(v@, expose_remote_address),
            Err(_) => ops_view(ops@) == session_resets(),
        },
{
    let mut ops: Vec<MetricOp> = Vec::new();
    let ghost empty = ops_view(ops@);
    push_op(&mut ops, MetricOp::Reset(MetricId::SessionsActive));
    push_op(&mut ops, MetricOp::Reset(MetricId::SessionPaused));
    push_op(
        &mut ops,
        MetricOp::Assign {
            metric: MetricId::SessionsActiveCount,
            labels: no_labels(),
            value: MetricValue::Count(0),
        },
    );
    push_op(&mut ops, MetricOp::Reset(MetricId::TranscodesActive));
    push_op(
        &mut ops,
        MetricOp::Assign {
            metric: MetricId::TranscodeHwAccelerated,
            labels: no_labels(),
            value: MetricValue::Count(0),
        },
    );
    push_op(&mut ops, MetricOp::Reset(MetricId::TranscodeReasonSessions));
    push_op(&mut ops, MetricOp::Reset(MetricId::StreamBitrate));
    push_op(&mut ops, MetricOp::Reset(MetricId::StreamDirect));
    push_op(&mut ops, MetricOp::Reset(MetricId::TranscodeCompletion));
    push_op(&mut ops, MetricOp::Reset(MetricId::PlayMethodSessions));
    push_op(&mut ops, MetricOp::Reset(MetricId::SessionPlayPositionSeconds));
    push_op(&mut ops, MetricOp::Reset(MetricId::SessionRemoteAddress));
    assert(ops_view(ops@) =~= session_resets());
    let sessions = match result {
        Ok(v) => v,
        Err(_) => {
            return ops;
        },
    };
    let mut active: u64 = 0;
    let mut i: usize = 0;
    while i < sessions.len()
        invariant
            i <= sessions.len(),
            active <= i,
            active as nat == count_sessions(sessions@.take(i as int), active_pred()),
        decreases sessions.len() - i,
    {
        assert(sessions@.take(i + 1).drop_last() =~= sessions@.take(i as int));
        if sessions[i].now_playing_item.is_some() {
            active = active + 1;
        }
        i = i + 1;
    }
    assert(sessions@.take(sessions.len() as int) =~= sessions@);
    push_op(
        &mut ops,
        MetricOp::Assign {
            metric: MetricId::SessionsActiveCount,
            labels: no_labels(),
            value: MetricValue::Count(active),
        },
    );
    let ghost prefix = ops_view(ops@);
    let mut direct_play: u64 = 0;
    let mut transcode: u64 = 0;
    let mut direct_stream: u64 = 0;
    let mut hw_accel: u64 = 0;
    let mut i: usize = 0;
    while i < sessions.len()
        invariant
            i <= sessions.len(),
            bitrates_fit(sessions@),
            ops_view(ops@) == prefix + all_session_updates(
                sessions@.take(i as int),
                expose_remote_address,
            ),
            direct_play <= i,
            transcode <= i,
            direct_stream <= i,
            hw_accel <= i,
            direct_play as nat == count_sessions(
                sessions@.take(i as int),
                method_pred("DirectPlay"@),
            ),
            transcode as nat == count_sessions(sessions@.take(i as int), method_pred("Transcode"@)),
            direct_stream as nat == count_sessions(
                sessions@.take(i as int),
                method_pred("DirectStream"@),
            ),
            hw_accel as nat == count_sessions(sessions@.take(i as int), hw_pred()),
        decreases sessions.len() - i,
    {
        let s = &sessions[i];
        proof {
            reveal_strlit("DirectPlay");
            reveal_strlit("Transcode");
            reveal_strlit("DirectStream");
        }
        assert(sessions@.take(i + 1).drop_last() =~= sessions@.take(i as int));
        assert(sessions@.take(i + 1).last() == *s);
        if s.now_playing_item.is_some() {
            push_session_updates(&mut ops, s, expose_remote_address);
            let method = method_label(s);
            proof {
                assert("DirectPlay"@ != "Transcode"@) by {
                    assert("DirectPlay"@[0] != "Transcode"@[0]);
                }
                assert("DirectPlay"@ != "DirectStream"@) by {
                    assert("DirectPlay"@.len() != "DirectStream"@.len());
                }
                assert("Transcode"@ != "DirectStream"@) by {
                    assert("Transcode"@[0] != "DirectStream"@[0]);
                }
            }
            if text_eq(method.as_str(), "DirectPlay") {
                direct_play = direct_play + 1;
            } else if text_eq(method.as_str(), "Transcode") {
                transcode = transcode + 1;
                if let Some(t) = &s.transcoding_info {
                    if t.hardware_acceleration_type.is_some() {
                        hw_accel = hw_accel + 1;
                    }
                }
            } else if text_eq(method.as_str(), "DirectStream") {
                direct_stream = direct_stream + 1;
            }
        }
        proof {
            assert(ops_view(ops@) =~= prefix + all_session_updates(
                sessions@.take(i + 1),
                expose_remote_address,
            ));
        }
        i = i + 1;
    }
    push_op(
        &mut ops,
        MetricOp::Assign {
            metric: MetricId::TranscodeHwAccelerated,
            labels: no_labels(),
            value: MetricValue::Count(hw_accel),
        },
    );
    push_op(
        &mut ops,
        MetricOp::Assign {
            metric: MetricId::PlayMethodSessions,
            labels: one_label("DirectPlay".to_owned()),
            value: MetricValue::Count(direct_play),
        },
    );
    push_op(
        &mut ops,
        MetricOp::Assign {
            metric: MetricId::PlayMethodSessions,
            labels: one_label("Transcode".to_owned()),
            value: MetricValue::Count(transcode),
        },
    );
    push_op(
        &mut ops,
        MetricOp::Assign {
            metric: MetricId::PlayMethodSessions,
            labels: one_label("DirectStream".to_owned()),
            value: MetricValue::Count(direct_stream),
        },
    );
    proof {
        assert(ops_view(ops@) =~= session_section(sessions@, expose_remote_address));
    }
    ops
}

/// A library with its item count.
#[derive(Clone, Debug)]
pub struct LibraryWithCount {
    pub name: String,
    pub collection_type: String,
    pub item_count: u64,
}

/// The item count reported for a library: zero when its fetch failed.
pub open spec fn count_or_zero(r: Result<u64, CollectorError>) -> u64 {
    match r {
        Ok(c) => c,
        Err(_) => 0,
    }
}

/// Pair each library with its item count (a failed count fetch counts as
/// zero); a missing collection type becomes the empty string. Pairs are
/// formed position by position, as far as both lists reach.
pub fn combine_library_counts(libraries: &Vec<Library>, counts: &Vec<Result<u64, CollectorError>>) -> (r: Vec<LibraryWithCount>)
    ensures
        r@.len() == if libraries@.len() <= counts@.len() {
            libraries@.len()
        } else {
            counts@.len()
        },
        forall|i: int|
            0 <= i < r@.len() ==> {
                &&& (#[trigger] r@[i]).name@ == libraries@[i].name@
                &&& r@[i].collection_type@ == match libraries@[i].collection_type {
                    Some(c) => c@,
                    None => Seq::<char>::empty(),
                }
                &&& r@[i].item_count == count_or_zero(counts@[i])
            },
{
    let n = if libraries.len() <= counts.len() {
        libraries.len()
    } else {
        counts.len()
    };
    let mut out: Vec<LibraryWithCount> = Vec::new();
    let mut i: usize = 0;
    while i < n
        invariant
            n <= libraries.len(),
            n <= counts.len(),
            i <= n,
            out@.len() == i,
            forall|k: int|
                0 <= k < i ==> {
                    &&& (#[trigger] out@[k]).name@ == libraries@[k].name@
                    &&& out@[k].collection_type@ == match libraries@[k].collection_type {
                        Some(c) => c@,
                        None => Seq::<char>::empty(),
                    }
                    &&& out@[k].item_count == count_or_zero(counts@[k])
                },
        decreases n - i,
    {
        let lib = &libraries[i];
        let item_count = match &counts[i] {
            Ok(c) => *c,
            Err(_) => 0,
        };
        let collection_type = match &lib.collection_type {
            Some(c) => c.clone(),
            None => String::new(),
        };
        out.push(LibraryWithCount { name: lib.name.clone(), collection_type, item_count });
        i = i + 1;
    }
    out
}

pub open spec fn library_update(l: LibraryWithCount) -> OpView {
    OpView::Assign(
        MetricId::LibraryItems,
        seq![sanitized(Some(l.name@)), sanitized(Some(l.collection_type@))],
        MetricValue::Count(l.item_count),
    )
}

/// The library section: clear the per-library series, then one series per
/// library with its item count.
pub open spec fn library_section(libraries: Seq<LibraryWithCount>) -> Seq<OpView> {
    seq![OpView::Reset(MetricId::LibraryItems)] + libraries.map_values(
        |l: LibraryWithCount| library_update(l),
    )
}

/// The library section of a cycle.
pub fn collect_libraries(result: &Result<Vec<LibraryWithCount>, CollectorError>) -> (ops: Vec<MetricOp>)
    ensures
        match result {
            Ok(v) => ops_view(ops@) == library_section(v@),
            Err(_) => ops_view(ops@) == seq![OpView::Reset(MetricId::LibraryItems)],
        },
{
    let mut ops: Vec<MetricOp> = Vec::new();
    push_op(&mut ops, MetricOp::Reset(MetricId::LibraryItems));
    assert(ops_view(ops@) =~= seq![OpView::Reset(MetricId::LibraryItems)]);
    let libraries = match result {
        Ok(v) => v,
        Err(_) => {
            return ops;
        },
    };
    let mut i: usize = 0;
    while i < libraries.len()
        invariant
            i <= libraries.len(),
            ops_view(ops@) == library_section(libraries@.take(i as int)),
        decreases libraries.len() - i,
    {
        let lib = &libraries[i];
        push_op(
            &mut ops,
            MetricOp::Assign {
                metric: MetricId::LibraryItems,
                labels: two_labels(
                    cow_into_string(sanitize_label(Some(lib.name.as_str()))),
                    cow_into_string(sanitize_label(Some(lib.collection_type.as_str()))),
                ),
                value: MetricValue::Count(lib.item_count),
            },
        );
        proof {
            assert(libraries@.take(i + 1) =~= libraries@.take(i as int).push(*lib));
            assert(ops_view(ops@) =~= library_section(libraries@.take(i + 1)));
        }
        i = i + 1;
    }
    assert(libraries@.take(libraries.len() as int) =~= libraries@);
    ops
}

/// Total of the per-type item counts.
pub open spec fn items_total(c: ItemCounts) -> nat {
    (c.movie_count + c.series_count + c.episode_count + c.book_count + c.song_count + c.album_count
        + c.artist_count + c.trailer_count + c.music_video_count + c.box_set_count) as nat
}

pub open spec fn item_count_resets() -> Seq<OpView> {
    seq![
        OpView::Reset(MetricId::ItemsByType),
        OpView::Assign(MetricId::ItemsCount, Seq::empty(), MetricValue::Count(0)),
    ]
}

pub open spec fn by_type(name: Seq<char>, count: u64) -> OpView {
    OpView::Assign(MetricId::ItemsByType, seq![name], MetricValue::Count(count))
}

/// The item-count section: one series per media type, then the aggregate,
/// derived from the per-type counts (saturating at `u64::MAX`).
pub open spec fn item_count_section(c: ItemCounts) -> Seq<OpView> {
    item_count_resets() + seq![
        by_type("Movie"@, c.movie_count),
        by_type("Series"@, c.series_count),
        by_type("Episode"@, c.episode_count),
        by_type("Book"@, c.book_count),
        by_type("Song"@, c.song_count),
        by_type("Album"@, c.album_count),
        by_type("Artist"@, c.artist_count),
        by_type("Trailer"@, c.trailer_count),
        by_type("MusicVideo"@, c.music_video_count),
        by_type("BoxSet"@, c.box_set_count),
        OpView::Assign(
            MetricId::ItemsCount,
            Seq::empty(),
            MetricValue::Count(
                if items_total(c) <= u64::MAX {
                    items_total(c) as u64
                } else {
                    u64::MAX
                },
            ),
        ),
    ]
}

fn push_by_type(ops: &mut Vec<MetricOp>, name: &str, count: u64)
    ensures
        ops_view(final(ops)@) == ops_view(old(ops)@).push(by_type(name@, count)),
{
    push_op(
        ops,
        MetricOp::Assign {
            metric: MetricId::ItemsByType,
            labels: one_label(name.to_owned()),
            value: MetricValue::Count(count),
        },
    );
}

/// The item-count section of a cycle.
pub fn collect_item_counts(result: &Result<ItemCounts, CollectorError>) -> (ops: Vec<MetricOp>)
    ensures
        match result {
            Ok(c) => ops_view(ops@) == item_count_section(*c),
            Err(_) => ops_view(ops@) == item_count_resets(),
        },
{
    let mut ops: Vec<MetricOp> = Vec::new();
    push_op(&mut ops, MetricOp::Reset(MetricId::ItemsByType));
    push_op(
        &mut ops,
        MetricOp::Assign {
            metric: MetricId::ItemsCount,
            labels: no_labels(),
            value: MetricValue::Count(0),
        },
    );
    assert(ops_view(ops@) =~= item_count_resets());
    let c = match result {
        Ok(c) => c,
        Err(_) => {
            return ops;
        },
    };
    push_by_type(&mut ops, "Movie", c.movie_count);
    push_by_type(&mut ops, "Series", c.series_count);
    push_by_type(&mut ops, "Episode", c.episode_count);
    push_by_type(&mut ops, "Book", c.book_count);
    push_by_type(&mut ops, "Song", c.song_count);
    push_by_type(&mut ops, "Album", c.album_count);
    push_by_type(&mut ops, "Artist", c.artist_count);
    push_by_type(&mut ops, "Trailer", c.trailer_count);
    push_by_type(&mut ops, "MusicVideo", c.music_video_count);
    push_by_type(&mut ops, "BoxSet", c.box_set_count);
    let total = c.movie_count.saturating_add(c.series_count).saturating_add(
        c.episode_count,
    ).saturating_add(c.book_count).saturating_add(c.song_count).saturating_add(
        c.album_count,
    ).saturating_add(c.artist_count).saturating_add(c.trailer_count).saturating_add(
        c.music_video_count,
    ).saturating_add(c.box_set_count);
    push_op(
        &mut ops,
        MetricOp::Assign {
            metric: MetricId::ItemsCount,
            labels: no_labels(),
            value: MetricValue::Count(total),
        },
    );
    assert(ops_view(ops@) =~= item_count_section(*c));
    ops
}

/// The system-info section: one series carrying the server's metadata.
pub open spec fn system_section(info: SystemInfo) -> Seq<OpView> {
    seq![
        OpView::Reset(MetricId::ServerInfo),
        OpView::Assign(
            MetricId::ServerInfo,
            seq![
                sanitized(Some(info.version@)),
                sanitized(Some(info.operating_system@)),
                sanitized(Some(info.server_name@)),
            ],
            MetricValue::Count(1),
        ),
    ]
}

/// The system-info section of a cycle.
pub fn collect_system_info(result: &Result<SystemInfo, CollectorError>) -> (ops: Vec<MetricOp>)
    ensures
        match result {
            Ok(info) => ops_view(ops@) == system_section(*info),
            Err(_) => ops_view(ops@) == seq![OpView::Reset(MetricId::ServerInfo)],
        },
{
    let mut ops: Vec<MetricOp> = Vec::new();
    push_op(&mut ops, MetricOp::Reset(MetricId::ServerInfo));
    assert(ops_view(ops@) =~= seq![OpView::Reset(MetricId::ServerInfo)]);
    let info = match result {
        Ok(i) => i,
        Err(_) => {
            return ops;
        },
    };
    push_op(
        &mut ops,
        MetricOp::Assign {
            metric: MetricId::ServerInfo,
            labels: three_labels(
                cow_into_string(sanitize_label(Some(info.version.as_str()))),
                cow_into_string(sanitize_label(Some(info.operating_system.as_str()))),
                cow_into_string(sanitize_label(Some(info.server_name.as_str()))),
            ),
            value: MetricValue::Count(1),
        },
    );
    assert(ops_view(ops@) =~= system_section(*info));
    ops
}

/// The error count for one fetch: nothing when it succeeded.
pub open spec fn error_update<T>(r: Result<T, CollectorError>) -> Seq<OpView> {
    match r {
        Ok(_) => Seq::empty(),
        Err(e) => seq![OpView::ScrapeError(error_kind_text(e))],
    }
}

/// Count a failed fetch under its kind.
pub fn record_scrape_error<T>(ops: &mut Vec<MetricOp>, result: &Result<T, CollectorError>)
    ensures
        ops_view(final(ops)@) == ops_view(old(ops)@) + error_update(*result),
{
    let ghost start = ops_view(ops@);
    if let Err(e) = result {
        push_op(ops, MetricOp::ScrapeError { kind: error_kind(e).to_owned() });
    }
    assert(ops_view(ops@) =~= start + error_update(*result));
}

/// The updates when the server does not answer the reachability probe: the
/// exporter reports itself down and its metrics stale, and counts the
/// failure; every other series keeps its last value.
pub open spec fn unreachable_updates() -> Seq<OpView> {
    seq![
        OpView::Assign(MetricId::Up, Seq::empty(), MetricValue::Count(0)),
        OpView::Assign(MetricId::MetricsStale, Seq::empty(), MetricValue::Count(1)),
        OpView::ScrapeError("unreachable"@),
    ]
}

/// The updates when the server answers the reachability probe.
pub open spec fn reachable_updates() -> Seq<OpView> {
    seq![
        OpView::Assign(MetricId::Up, Seq::empty(), MetricValue::Count(1)),
        OpView::Assign(MetricId::MetricsStale, Seq::empty(), MetricValue::Count(0)),
    ]
}

/// The updates that follow the reachability probe.
pub fn probe_updates(reachable: bool) -> (ops: Vec<MetricOp>)
    ensures
        ops_view(ops@) == if reachable {
            reachable_updates()
        } else {
            unreachable_updates()
        },
{
    let mut ops: Vec<MetricOp> = Vec::new();
    if reachable {
        push_op(
            &mut ops,
            MetricOp::Assign { metric: MetricId::Up, labels: no_labels(), value: MetricValue::Count(1) },
        );
        push_op(
            &mut ops,
            MetricOp::Assign {
                metric: MetricId::MetricsStale,
                labels: no_labels(),
                value: MetricValue::Count(0),
            },
        );
        assert(ops_view(ops@) =~= reachable_updates());
    } else {
        push_op(
            &mut ops,
            MetricOp::Assign { metric: MetricId::Up, labels: no_labels(), value: MetricValue::Count(0) },
        );
        push_op(
            &mut ops,
            MetricOp::Assign {
                metric: MetricId::MetricsStale,
                labels: no_labels(),
                value: MetricValue::Count(1),
            },
        );
        push_op(&mut ops, MetricOp::ScrapeError { kind: "unreachable".to_owned() });
        assert(ops_view(ops@) =~= unreachable_updates());
    }
    ops
}

/// The updates of a collection cycle once the server answered the probe,
/// and whether every fetch succeeded (the time of such a cycle is recorded
/// as the last successful scrape).
pub struct CollectionPlan {
    pub ops: Vec<MetricOp>,
    pub completed_without_errors: bool,
}

pub open spec fn section_or<T>(r: Result<T, CollectorError>, ok: spec_fn(T) -> Seq<OpView>, failed: Seq<OpView>) -> Seq<OpView> {
    match r {
        Ok(v) => ok(v),
        Err(_) => failed,
    }
}

/// The breaker refused the fetch.
pub open spec fn refused_by_breaker<T>(r: Result<T, CollectorError>) -> bool {
    r matches Err(CollectorError::CircuitOpen)
}

/// The breaker refused every fetch of the cycle: the circuit is open.
pub open spec fn all_refused(
    sessions: Result<Vec<Session>, CollectorError>,
    libraries: Result<Vec<LibraryWithCount>, CollectorError>,
    counts: Result<ItemCounts, CollectorError>,
    system: Result<SystemInfo, CollectorError>,
) -> bool {
    refused_by_breaker(sessions) && refused_by_breaker(libraries) && refused_by_breaker(counts)
        && refused_by_breaker(system)
}

/// The updates that mark the exporter down with stale metrics.
pub open spec fn stale_updates() -> Seq<OpView> {
    seq![
        OpView::Assign(MetricId::Up, Seq::empty(), MetricValue::Count(0)),
        OpView::Assign(MetricId::MetricsStale, Seq::empty(), MetricValue::Count(1)),
    ]
}

/// The updates of a cycle: the failed fetches counted by kind; then, while
/// the circuit is open (every fetch refused), the exporter reports itself
/// down with stale metrics and keeps every other series; otherwise the
/// session, library, item-count and system-info sections follow.
pub open spec fn cycle_updates(
    sessions: Result<Vec<Session>, CollectorError>,
    libraries: Result<Vec<LibraryWithCount>, CollectorError>,
    counts: Result<ItemCounts, CollectorError>,
    system: Result<SystemInfo, CollectorError>,
    expose_remote_address: bool,
) -> Seq<OpView> {
    if all_refused(sessions, libraries, counts, system) {
        error_update(sessions) + error_update(libraries) + error_update(counts) + error_update(
            system,
        ) + stale_updates()
    } else {
        refreshed_updates(sessions, libraries, counts, system, expose_remote_address)
    }
}

/// The updates of a cycle in which the breaker let a fetch through: the
/// failed fetches counted by kind, then the session, library, item-count and
/// system-info sections.
pub open spec fn refreshed_updates(
    sessions: Result<Vec<Session>, CollectorError>,
    libraries: Result<Vec<LibraryWithCount>, CollectorError>,
    counts: Result<ItemCounts, CollectorError>,
    system: Result<SystemInfo, CollectorError>,
    expose_remote_address: bool,
) -> Seq<OpView> {
    error_update(sessions) + error_update(libraries) + error_update(counts) + error_update(system)
        + section_or(
        sessions,
        |v: Vec<Session>| session_section(v@, expose_remote_address),
        session_resets(),
    ) + section_or(
        libraries,
        |v: Vec<LibraryWithCount>| library_section(v@),
        seq![OpView::Reset(MetricId::LibraryItems)],
    ) + section_or(counts, |c: ItemCounts| item_count_section(c), item_count_resets())
        + section_or(
        system,
        |i: SystemInfo| system_section(i),
        seq![OpView::Reset(MetricId::ServerInfo)],
    )
}

fn append_ops(ops: &mut Vec<MetricOp>, more: Vec<MetricOp>)
    ensures
        ops_view(final(ops)@) == ops_view(old(ops)@) + ops_view(more@),
{
    let mut more = more;
    let ghost start = ops_view(ops@);
    let ghost added = ops_view(more@);
    ops.append(&mut more);
    assert(ops_view(ops@) =~= start + added);
}

fn is_refused<T>(r: &Result<T, CollectorError>) -> (b: bool)
    ensures
        b == refused_by_breaker(*r),
{
    match r {
        Err(CollectorError::CircuitOpen) => true,
        _ => false,
    }
}

/// Plan the updates of a cycle from the outcomes of its four fetches.
pub fn plan_collection(
    sessions: &Result<Vec<Session>, CollectorError>,
    libraries: &Result<Vec<LibraryWithCount>, CollectorError>,
    counts: &Result<ItemCounts, CollectorError>,
    system: &Result<SystemInfo, CollectorError>,
    expose_remote_address: bool,
) -> (plan: CollectionPlan)
    requires
        sessions matches Ok(v) ==> bitrates_fit(v@),
    ensures
        ops_view(plan.ops@) == cycle_updates(
            *sessions,
            *libraries,
            *counts,
            *system,
            expose_remote_address,
        ),
        plan.completed_without_errors == (sessions is Ok && libraries is Ok && counts is Ok
            && system is Ok),
{
    let completed_without_errors = sessions.is_ok() && libraries.is_ok() && counts.is_ok()
        && system.is_ok();
    let mut ops: Vec<MetricOp> = Vec::new();
    let ghost empty = ops_view(ops@);
    record_scrape_error(&mut ops, sessions);
    record_scrape_error(&mut ops, libraries);
    record_scrape_error(&mut ops, counts);
    record_scrape_error(&mut ops, system);
    if is_refused(sessions) && is_refused(libraries) && is_refused(counts) && is_refused(system) {
        push_op(
            &mut ops,
            MetricOp::Assign { metric: MetricId::Up, labels: no_labels(), value: MetricValue::Count(0) },
        );
        push_op(
            &mut ops,
            MetricOp::Assign {
                metric: MetricId::MetricsStale,
                labels: no_labels(),
                value: MetricValue::Count(1),
            },
        );
        proof {
            assert(empty =~= Seq::<OpView>::empty());
            assert(ops_view(ops@) =~= cycle_updates(
                *sessions,
                *libraries,
                *counts,
                *system,
                expose_remote_address,
            ));
        }
        return CollectionPlan { ops, completed_without_errors };
    }
    append_ops(&mut ops, collect_sessions(sessions, expose_remote_address));
    append_ops(&mut ops, collect_libraries(libraries));
    append_ops(&mut ops, collect_item_counts(counts));
    append_ops(&mut ops, collect_system_info(system));
    proof {
        assert(empty =~= Seq::<OpView>::empty());
        assert(ops_view(ops@) =~= cycle_updates(
            *sessions,
            *libraries,
            *counts,
            *system,
            expose_remote_address,
        ));
    }
    CollectionPlan { ops, completed_without_errors }
}

/// What follows the reachability probe: the updates to apply, and whether
/// the cycle goes on to fetch.
pub struct ProbeStep {
    pub ops: Vec<MetricOp>,
    pub fetch: bool,
}

/// What follows an attempt of a fetch.
#[derive(Debug)]
pub enum FetchAction<T> {
    /// The attempt failed and retries remain: wait this long, then try again.
    Retry { delay_ms: u64 },
    /// The fetch is over, with this outcome.
    Finished(Result<T, CollectorError>),
}

/// Resilience and labelling parameters of the collector.
#[derive(Clone, Copy, Debug)]
pub struct CollectorConfig {
    pub scrape_interval_ms: u64,
    pub failure_threshold: u32,
    pub reset_timeout_ms: u64,
    pub retry_max_attempts: u32,
    pub retry_base_delay_ms: u64,
    pub retry_max_delay_ms: u64,
    /// When `true`, label each active session with the client's address in
    /// `jellyfin_session_remote_address`. Off by default (privacy).
    pub expose_remote_address: bool,
}

/// The collector's state: the circuit breaker shared by every fetch, and its
/// configuration.
pub struct Collector {
    pub circuit_breaker: CircuitBreaker,
    pub config: CollectorConfig,
}

impl Collector {
    /// A collector with a fresh, closed breaker whose reset timeout is the
    /// configured number of milliseconds.
    pub fn new(config: &CollectorConfig) -> (c: Collector)
        ensures
            c.circuit_breaker@ == crate::circuit_breaker::initial(
                config.failure_threshold,
                (config.reset_timeout_ms * 1_000_000) as u128,
            ),
            c.config == *config,
    {
        Collector {
            circuit_breaker: CircuitBreaker::new(
                config.failure_threshold,
                (config.reset_timeout_ms as u128) * 1_000_000,
            ),
            config: *config,
        }
    }

    /// Whether the exporter is ready to serve: the breaker is not open.
    pub fn is_ready(&self) -> (r: bool)
        ensures
            r == (status_of(self.circuit_breaker@.state) != CircuitStatus::Open),
    {
        match self.circuit_breaker.status() {
            CircuitStatus::Open => false,
            _ => true,
        }
    }

    /// The step that follows the reachability probe. A server that answered
    /// is marked up and the cycle fetches; an unreachable one is marked down
    /// with stale metrics, the failure is counted, and the cycle ends without
    /// any fetch. The collector, its breaker included, is only read.
    pub fn after_probe(&self, reachable: bool) -> (p: ProbeStep)
        ensures
            p.fetch == reachable,
            ops_view(p.ops@) == if reachable {
                reachable_updates()
            } else {
                unreachable_updates()
            },
    {
        ProbeStep { ops: probe_updates(reachable), fetch: reachable }
    }

    /// Ask the breaker whether a fetch (a whole retry sequence) may start.
    /// A refusal is the fetch's outcome; no attempt is made.
    pub fn begin_fetch<T>(&mut self) -> (r: Option<Result<T, CollectorError>>)
        ensures
            exists|now: u128| #[trigger] crate::circuit_breaker::on_call(old(self).circuit_breaker@, now) == (
                final(self).circuit_breaker@,
                if r is None {
                    ProceedDecision::Run
                } else {
                    ProceedDecision::Reject {
                        retry_after_ns: crate::circuit_breaker::on_call(
                            old(self).circuit_breaker@,
                            now,
                        ).1->retry_after_ns,
                    }
                },
            ),
            r matches Some(out) ==> out == Err::<T, CollectorError>(CollectorError::CircuitOpen),
            final(self).config == old(self).config,
    {
        match self.circuit_breaker.before_call() {
            ProceedDecision::Run => None,
            ProceedDecision::Reject { .. } => Some(Err(CollectorError::CircuitOpen)),
        }
    }

    /// Decide what follows attempt `attempt` (zero-indexed) of a fetch that
    /// the breaker let through: a success ends the fetch and is recorded; a
    /// failure is retried after a backoff delay while retries remain, and
    /// otherwise ends the fetch and is recorded as one failure.
    pub fn after_attempt<T>(&mut self, attempt: u32, outcome: Result<T, ClientError>) -> (a: FetchAction<T>)
        requires
            old(self).config.retry_max_attempts < u32::MAX,
        ensures
            final(self).config == old(self).config,
            match outcome {
                Ok(v) => a == FetchAction::<T>::Finished(Ok(v)) && final(self).circuit_breaker@
                    == crate::circuit_breaker::after_success(old(self).circuit_breaker@),
                Err(e) => if budget_spent(attempt, old(self).config.retry_max_attempts) {
                    &&& a == FetchAction::<T>::Finished(Err(CollectorError::Api(e)))
                    &&& exists|now: u128|
                        final(self).circuit_breaker@ == #[trigger] crate::circuit_breaker::after_failure(
                            old(self).circuit_breaker@,
                            now,
                        )
                } else {
                    &&& final(self).circuit_breaker@ == old(self).circuit_breaker@
                    &&& a matches FetchAction::Retry { delay_ms } && exists|jitter_ms: u64|
                        jitter_allowed(old(self).config.retry_base_delay_ms, jitter_ms) && delay_ms
                            == #[trigger] delay_with_jitter(
                            attempt,
                            old(self).config.retry_base_delay_ms,
                            old(self).config.retry_max_delay_ms,
                            jitter_ms,
                        )
                },
            },
    {
        match outcome {
            Ok(v) => FetchAction::Finished(self.finish_fetch(Ok(v))),
            Err(e) => match next_step(
                attempt,
                self.config.retry_max_attempts,
                self.config.retry_base_delay_ms,
                self.config.retry_max_delay_ms,
            ) {
                RetryStep::GiveUp => FetchAction::Finished(self.finish_fetch(Err(e))),
                RetryStep::RetryAfter { delay_ms } => FetchAction::Retry { delay_ms },
            },
        }
    }

    /// Record the outcome of a fetch's retry sequence with the breaker (one
    /// success or one failure, whatever the number of attempts) and return
    /// it with the error wrapped.
    pub fn finish_fetch<T>(&mut self, outcome: Result<T, ClientError>) -> (r: Result<T, CollectorError>)
        ensures
            match outcome {
                Ok(v) => r == Ok::<T, CollectorError>(v) && final(self).circuit_breaker@
                    == crate::circuit_breaker::after_success(old(self).circuit_breaker@),
                Err(e) => r == Err::<T, CollectorError>(CollectorError::Api(e)) && exists|now: u128|
                    final(self).circuit_breaker@ == #[trigger] crate::circuit_breaker::after_failure(
                        old(self).circuit_breaker@,
                        now,
                    ),
            },
            final(self).config == old(self).config,
    {
        match outcome {
            Ok(v) => {
                self.circuit_breaker.record_success();
                Ok(v)
            },
            Err(e) => {
                self.circuit_breaker.record_failure();
                Err(CollectorError::Api(e))
            },
        }
    }
}

} // verus!

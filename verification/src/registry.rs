//! A model of the metrics registry, and what a collection cycle leaves in it.
//!
//! The registry maps each series (a metric and its label values) to a
//! sample. Applying the updates of a cycle to any registry yields the values
//! that the exporter then exposes; the lemmas here state those values for the
//! session aggregates.

use vstd::prelude::*;

use crate::client::Session;
use crate::collector::{
    active_pred, all_session_updates, bitrate_piece, completion_piece, count_sessions,
    direct_piece, hw_pred, is_active, method_pred, play_method_label, position_piece,
    reason_update, reason_updates, reasons_piece, remote_piece, session_head, session_resets,
    session_section, session_updates, stream_piece, transcode_updates, MetricId, MetricValue,
    OpView, unreachable_updates, item_count_section, items_total, cycle_updates, error_update,
    section_or, library_section, item_count_resets, system_section, LibraryWithCount,
    CollectorError, reachable_updates, library_update, all_refused, refreshed_updates,
    stale_updates, media_type_label, streams_total, session_bitrate, label,
};
use crate::client::{ClientError, TranscodingInfo};
use crate::client::{ItemCounts, SystemInfo};
use crate::labels::sanitized;

verus! {

/// The value of one series.
pub enum Sample {
    Number(int),
    Ticks(i64),
    Bits(u64),
}

/// Registry contents: the sample of each series, if the series exists.
pub type Registry = spec_fn((MetricId, Seq<Seq<char>>)) -> Option<Sample>;

pub open spec fn sample_of(v: MetricValue) -> Sample {
    match v {
        MetricValue::Count(n) => Sample::Number(n as int),
        MetricValue::PositionTicks(t) => Sample::Ticks(t),
        MetricValue::PercentBits(b) => Sample::Bits(b),
    }
}

/// The registry after one update: a reset removes every series of the
/// metric, an assignment sets one series, an increment adds one to a series
/// (creating it at one).
pub open spec fn apply_op(reg: Registry, op: OpView) -> Registry {
    match op {
        OpView::Reset(m) => |k: (MetricId, Seq<Seq<char>>)| if k.0 == m {
            None
        } else {
            reg(k)
        },
        OpView::Assign(m, l, v) => |k: (MetricId, Seq<Seq<char>>)| if k == (m, l) {
            Some(sample_of(v))
        } else {
            reg(k)
        },
        OpView::Inc(m, l) => |k: (MetricId, Seq<Seq<char>>)| if k == (m, l) {
            Some(
                Sample::Number(
                    match reg(k) {
                        Some(Sample::Number(n)) => n + 1,
                        _ => 1,
                    },
                ),
            )
        } else {
            reg(k)
        },
        OpView::ScrapeError(_) => reg,
    }
}

/// The registry after a list of updates, applied in order.
pub open spec fn apply_ops(reg: Registry, ops: Seq<OpView>) -> Registry
    decreases ops.len(),
{
    if ops.len() == 0 {
        reg
    } else {
        apply_op(apply_ops(reg, ops.drop_last()), ops.last())
    }
}

/// The metric an update writes, if any.
pub open spec fn touches(op: OpView, m: MetricId) -> bool {
    match op {
        OpView::Reset(x) => x == m,
        OpView::Assign(x, _, _) => x == m,
        OpView::Inc(x, _) => x == m,
        OpView::ScrapeError(_) => false,
    }
}

pub open spec fn untouched(ops: Seq<OpView>, m: MetricId) -> bool {
    forall|i: int| 0 <= i < ops.len() ==> !touches(#[trigger] ops[i], m)
}

/// Applying two lists in turn is applying their concatenation.
pub proof fn lemma_apply_concat(reg: Registry, a: Seq<OpView>, b: Seq<OpView>)
    ensures
        apply_ops(reg, a + b) == apply_ops(apply_ops(reg, a), b),
    decreases b.len(),
{
    if b.len() == 0 {
        assert(a + b =~= a);
    } else {
        lemma_apply_concat(reg, a, b.drop_last());
        assert((a + b).drop_last() =~= a + b.drop_last());
        assert((a + b).last() == b.last());
    }
}

/// Updates that do not write a metric leave its series as they were.
pub proof fn lemma_untouched(reg: Registry, ops: Seq<OpView>, m: MetricId, l: Seq<Seq<char>>)
    requires
        untouched(ops, m),
    ensures
        apply_ops(reg, ops)((m, l)) == reg((m, l)),
    decreases ops.len(),
{
    if ops.len() > 0 {
        assert(!touches(ops[ops.len() - 1], m));
        assert(untouched(ops.drop_last(), m)) by {
            assert forall|i: int| 0 <= i < ops.drop_last().len() implies !touches(
                #[trigger] ops.drop_last()[i],
                m,
            ) by {
                assert(ops.drop_last()[i] == ops[i]);
            }
        }
        lemma_untouched(reg, ops.drop_last(), m, l);
    }
}

/// Number of occurrences of a value in a sequence.
pub open spec fn occurrences(s: Seq<Seq<char>>, x: Seq<char>) -> nat
    decreases s.len(),
{
    if s.len() == 0 {
        0
    } else {
        occurrences(s.drop_last(), x) + if s.last() == x {
            1nat
        } else {
            0nat
        }
    }
}

/// The transcode reasons a session contributes: those of an active
/// transcoding session, sanitized.
pub open spec fn session_reasons(s: Session) -> Seq<Seq<char>> {
    if is_active(s) && play_method_label(s) == "Transcode"@ {
        match s.transcoding_info {
            Some(t) => match t.transcode_reasons {
                Some(v) => v@.map_values(|r: String| sanitized(Some(r@))),
                None => Seq::empty(),
            },
            None => Seq::empty(),
        }
    } else {
        Seq::empty()
    }
}

pub open spec fn all_reasons(sessions: Seq<Session>) -> Seq<Seq<char>>
    decreases sessions.len(),
{
    if sessions.len() == 0 {
        Seq::empty()
    } else {
        all_reasons(sessions.drop_last()) + session_reasons(sessions.last())
    }
}

/// The reading of a reason series as a count: absent means zero.
pub open spec fn reason_count(reg: Registry, x: Seq<char>) -> int {
    match reg((MetricId::TranscodeReasonSessions, seq![x])) {
        Some(Sample::Number(n)) => n,
        _ => 0,
    }
}

/// A reason series is either absent or a positive number.
pub open spec fn reason_series_well_formed(reg: Registry) -> bool {
    forall|x: Seq<char>|
        match #[trigger] reg((MetricId::TranscodeReasonSessions, seq![x])) {
            None => true,
            Some(Sample::Number(n)) => n > 0,
            _ => false,
        }
}

proof fn lemma_occurrences_concat(a: Seq<Seq<char>>, b: Seq<Seq<char>>, x: Seq<char>)
    ensures
        occurrences(a + b, x) == occurrences(a, x) + occurrences(b, x),
    decreases b.len(),
{
    if b.len() == 0 {
        assert(a + b =~= a);
    } else {
        lemma_occurrences_concat(a, b.drop_last(), x);
        assert((a + b).drop_last() =~= a + b.drop_last());
    }
}

proof fn lemma_reason_updates(reg: Registry, v: Seq<String>, x: Seq<char>)
    requires
        reason_series_well_formed(reg),
    ensures
        reason_series_well_formed(apply_ops(reg, reason_updates(v))),
        reason_count(apply_ops(reg, reason_updates(v)), x) == reason_count(reg, x) + occurrences(
            v.map_values(|r: String| sanitized(Some(r@))),
            x,
        ),
        forall|m: MetricId, l: Seq<Seq<char>>|
            m != MetricId::TranscodeReasonSessions ==> #[trigger] apply_ops(
                reg,
                reason_updates(v),
            )((m, l)) == reg((m, l)),
    decreases v.len(),
{
    let f = |r: String| sanitized(Some(r@));
    if v.len() == 0 {
        assert(reason_updates(v) =~= Seq::<OpView>::empty());
        assert(v.map_values(f) =~= Seq::<Seq<char>>::empty());
    } else {
        let w = v.drop_last();
        lemma_reason_updates(reg, w, x);
        assert(reason_updates(v) =~= reason_updates(w).push(reason_update(v.last())));
        assert(reason_updates(v).drop_last() =~= reason_updates(w));
        assert(v.map_values(f).drop_last() =~= w.map_values(f));
        let before = apply_ops(reg, reason_updates(w));
        let after = apply_ops(reg, reason_updates(v));
        assert(after == apply_op(before, reason_update(v.last())));
        let y = sanitized(Some(v.last()@));
        assert(v.map_values(f).last() == y);
        assert forall|z: Seq<char>|
            match #[trigger] after((MetricId::TranscodeReasonSessions, seq![z])) {
                None => true,
                Some(Sample::Number(n)) => n > 0,
                _ => false,
            } by {
            if seq![z] == seq![y] {
                assert(z == seq![z][0]);
            }
            match before((MetricId::TranscodeReasonSessions, seq![z])) {
                _ => {},
            }
        }
        if x == y {
            assert(seq![x] == seq![y]);
        } else {
            assert(seq![x] != seq![y]) by {
                assert(seq![x][0] != seq![y][0]);
            }
        }
    }
}

proof fn lemma_untouched_concat(a: Seq<OpView>, b: Seq<OpView>, m: MetricId)
    requires
        untouched(a, m),
        untouched(b, m),
    ensures
        untouched(a + b, m),
{
    assert forall|i: int| 0 <= i < (a + b).len() implies !touches(#[trigger] (a + b)[i], m) by {
        if i < a.len() {
            assert((a + b)[i] == a[i]);
        } else {
            assert((a + b)[i] == b[i - a.len()]);
        }
    }
}

proof fn lemma_reasons_untouched(reg: Registry, ops: Seq<OpView>)
    requires
        untouched(ops, MetricId::TranscodeReasonSessions),
        reason_series_well_formed(reg),
    ensures
        reason_series_well_formed(apply_ops(reg, ops)),
        forall|x: Seq<char>| #[trigger] reason_count(apply_ops(reg, ops), x) == reason_count(reg, x),
{
    assert forall|x: Seq<char>|
        #[trigger] apply_ops(reg, ops)((MetricId::TranscodeReasonSessions, seq![x])) == reg(
            (MetricId::TranscodeReasonSessions, seq![x]),
        ) by {
        lemma_untouched(reg, ops, MetricId::TranscodeReasonSessions, seq![x]);
    }
}

/// The metrics that hold per-cycle session aggregates.
/// A metric that no single session's updates write: an aggregate, a metric
/// outside the session section, or the remote-address metric while its
/// exposure is off.
pub open spec fn spared(m: MetricId, expose: bool) -> bool {
    is_aggregate(m) || session_reset_index(m) < 0 || (m == MetricId::SessionRemoteAddress
        && !expose)
}

pub open spec fn is_aggregate(m: MetricId) -> bool {
    m == MetricId::SessionsActiveCount || m == MetricId::TranscodeHwAccelerated || m
        == MetricId::PlayMethodSessions
}

proof fn lemma_reason_updates_only_reasons(v: Seq<String>, m: MetricId)
    requires
        m != MetricId::TranscodeReasonSessions,
    ensures
        untouched(reason_updates(v), m),
{
    assert forall|i: int| 0 <= i < reason_updates(v).len() implies !touches(
        #[trigger] reason_updates(v)[i],
        m,
    ) by {
        assert(reason_updates(v)[i] == reason_update(v[i]));
    }
}

/// The per-session updates never write the aggregates, and write the reason
/// series only through the transcode reasons.
proof fn lemma_session_update_metrics(s: Session, expose: bool, m: MetricId)
    requires
        spared(m, expose),
    ensures
        untouched(session_updates(s, expose), m),
{
    let user = crate::collector::label(s.user_name);
    assert(untouched(session_head(s), m));
    assert(untouched(position_piece(s), m));
    assert(untouched(remote_piece(s, expose), m));
    assert(untouched(bitrate_piece(s), m));
    if play_method_label(s) == "Transcode"@ {
        if let Some(t) = s.transcoding_info {
            let inc = seq![
                OpView::Inc(
                    MetricId::TranscodesActive,
                    seq![crate::collector::codec_label(t.video_codec), crate::collector::codec_label(t.audio_codec)],
                ),
            ];
            assert(untouched(inc, m));
            assert(untouched(completion_piece(user, t), m));
            match t.transcode_reasons {
                Some(v) => lemma_reason_updates_only_reasons(v@, m),
                None => {},
            }
            assert(untouched(reasons_piece(t), m));
            assert(untouched(direct_piece(user, t), m));
            lemma_untouched_concat(inc, completion_piece(user, t), m);
            lemma_untouched_concat(inc + completion_piece(user, t), reasons_piece(t), m);
            lemma_untouched_concat(
                inc + completion_piece(user, t) + reasons_piece(t),
                direct_piece(user, t),
                m,
            );
        }
    }
    assert(untouched(stream_piece(s), m));
    lemma_untouched_concat(session_head(s), position_piece(s), m);
    lemma_untouched_concat(session_head(s) + position_piece(s), remote_piece(s, expose), m);
    lemma_untouched_concat(
        session_head(s) + position_piece(s) + remote_piece(s, expose),
        bitrate_piece(s),
        m,
    );
    lemma_untouched_concat(
        session_head(s) + position_piece(s) + remote_piece(s, expose) + bitrate_piece(s),
        stream_piece(s),
        m,
    );
}

/// An active session adds its transcode reasons to the reason series.
proof fn lemma_session_reason_effect(reg: Registry, s: Session, expose: bool)
    requires
        is_active(s),
        reason_series_well_formed(reg),
    ensures
        reason_series_well_formed(apply_ops(reg, session_updates(s, expose))),
        forall|x: Seq<char>|
            #[trigger] reason_count(apply_ops(reg, session_updates(s, expose)), x) == reason_count(
                reg,
                x,
            ) + occurrences(session_reasons(s), x),
{
    let r = MetricId::TranscodeReasonSessions;
    let user = crate::collector::label(s.user_name);
    let pre = session_head(s) + position_piece(s) + remote_piece(s, expose) + bitrate_piece(s);
    assert(untouched(session_head(s), r));
    assert(untouched(position_piece(s), r));
    assert(untouched(remote_piece(s, expose), r));
    assert(untouched(bitrate_piece(s), r));
    lemma_untouched_concat(session_head(s), position_piece(s), r);
    lemma_untouched_concat(session_head(s) + position_piece(s), remote_piece(s, expose), r);
    lemma_untouched_concat(
        session_head(s) + position_piece(s) + remote_piece(s, expose),
        bitrate_piece(s),
        r,
    );
    lemma_apply_concat(reg, pre, stream_piece(s));
    lemma_reasons_untouched(reg, pre);
    let mid = apply_ops(reg, pre);
    let f = |q: String| sanitized(Some(q@));
    if play_method_label(s) == "Transcode"@ && s.transcoding_info is Some {
        let t = s.transcoding_info->Some_0;
        let inc = seq![
            OpView::Inc(
                MetricId::TranscodesActive,
                seq![crate::collector::codec_label(t.video_codec), crate::collector::codec_label(t.audio_codec)],
            ),
        ];
        let head = inc + completion_piece(user, t);
        assert(untouched(inc, r));
        assert(untouched(completion_piece(user, t), r));
        lemma_untouched_concat(inc, completion_piece(user, t), r);
        assert(untouched(direct_piece(user, t), r));
        assert(stream_piece(s) == head + reasons_piece(t) + direct_piece(user, t));
        lemma_apply_concat(mid, head + reasons_piece(t), direct_piece(user, t));
        lemma_apply_concat(mid, head, reasons_piece(t));
        lemma_reasons_untouched(mid, head);
        let mid2 = apply_ops(mid, head);
        match t.transcode_reasons {
            Some(v) => {
                assert forall|x: Seq<char>| #[trigger]
                    reason_count(apply_ops(mid2, reasons_piece(t)), x) == reason_count(mid2, x)
                        + occurrences(session_reasons(s), x) by {
                    lemma_reason_updates(mid2, v@, x);
                }
                lemma_reason_updates(mid2, v@, Seq::empty());
            },
            None => {
                assert(reasons_piece(t) =~= Seq::<OpView>::empty());
                assert(session_reasons(s) =~= Seq::<Seq<char>>::empty());
            },
        }
        lemma_reasons_untouched(apply_ops(mid2, reasons_piece(t)), direct_piece(user, t));
    } else {
        assert(untouched(stream_piece(s), r));
        lemma_reasons_untouched(mid, stream_piece(s));
        assert(session_reasons(s) =~= Seq::<Seq<char>>::empty());
    }
}

/// Over all sessions: the reasons of every active transcoding session are
/// added to the reason series, and the aggregates are not written.
proof fn lemma_all_session_updates(reg: Registry, sessions: Seq<Session>, expose: bool)
    requires
        reason_series_well_formed(reg),
    ensures
        reason_series_well_formed(apply_ops(reg, all_session_updates(sessions, expose))),
        forall|x: Seq<char>|
            #[trigger] reason_count(apply_ops(reg, all_session_updates(sessions, expose)), x)
                == reason_count(reg, x) + occurrences(all_reasons(sessions), x),
        forall|m: MetricId| is_aggregate(m) ==> untouched(all_session_updates(sessions, expose), m),
    decreases sessions.len(),
{
    if sessions.len() == 0 {
        assert forall|m: MetricId| is_aggregate(m) implies untouched(
            all_session_updates(sessions, expose),
            m,
        ) by {}
    } else {
        let init = sessions.drop_last();
        let last = sessions.last();
        lemma_all_session_updates(reg, init, expose);
        let before = apply_ops(reg, all_session_updates(init, expose));
        let piece = if is_active(last) {
            session_updates(last, expose)
        } else {
            Seq::empty()
        };
        lemma_apply_concat(reg, all_session_updates(init, expose), piece);
        if is_active(last) {
            lemma_session_reason_effect(before, last, expose);
        } else {
            assert(session_reasons(last) =~= Seq::<Seq<char>>::empty());
        }
        assert forall|x: Seq<char>|
            #[trigger] reason_count(apply_ops(reg, all_session_updates(sessions, expose)), x)
                == reason_count(reg, x) + occurrences(all_reasons(sessions), x) by {
            lemma_occurrences_concat(all_reasons(init), session_reasons(last), x);
        }
        assert forall|m: MetricId| is_aggregate(m) implies untouched(
            all_session_updates(sessions, expose),
            m,
        ) by {
            if is_active(last) {
                lemma_session_update_metrics(last, expose, m);
            }
            lemma_untouched_concat(all_session_updates(init, expose), piece, m);
        }
    }
}

/// Whether an update writes a series.
pub open spec fn writes(op: OpView, k: (MetricId, Seq<Seq<char>>)) -> bool {
    match op {
        OpView::Reset(m) => m == k.0,
        OpView::Assign(m, l, _) => (m, l) == k,
        OpView::Inc(m, l) => (m, l) == k,
        OpView::ScrapeError(_) => false,
    }
}

/// Updates that do not write a series leave it as it was.
pub proof fn lemma_series_untouched(reg: Registry, ops: Seq<OpView>, k: (MetricId, Seq<Seq<char>>))
    requires
        forall|i: int| 0 <= i < ops.len() ==> !writes(#[trigger] ops[i], k),
    ensures
        apply_ops(reg, ops)(k) == reg(k),
    decreases ops.len(),
{
    if ops.len() > 0 {
        assert(!writes(ops[ops.len() - 1], k));
        assert forall|i: int| 0 <= i < ops.drop_last().len() implies !writes(
            #[trigger] ops.drop_last()[i],
            k,
        ) by {
            assert(ops.drop_last()[i] == ops[i]);
        }
        lemma_series_untouched(reg, ops.drop_last(), k);
    }
}

proof fn lemma_count_bounded(sessions: Seq<Session>, p: spec_fn(Session) -> bool)
    ensures
        count_sessions(sessions, p) <= sessions.len(),
    decreases sessions.len(),
{
    if sessions.len() > 0 {
        lemma_count_bounded(sessions.drop_last(), p);
    }
}

/// The series a cycle's session section leaves, whatever the registry held
/// before:
/// - one series per transcode reason met among the active transcoding
///   sessions, counting its occurrences, and none for any other reason;
/// - the number of active sessions;
/// - the number of hardware-accelerated transcodes;
/// - the number of active sessions per play method (`DirectPlay`,
///   `Transcode`, `DirectStream`), zero included.
pub proof fn lemma_session_section_exposes(reg: Registry, sessions: Seq<Session>, expose: bool)
    requires
        sessions.len() <= usize::MAX,
    ensures
        forall|x: Seq<char>|
            #[trigger] apply_ops(reg, session_section(sessions, expose))(
                (MetricId::TranscodeReasonSessions, seq![x]),
            ) == if occurrences(all_reasons(sessions), x) > 0 {
                Some(Sample::Number(occurrences(all_reasons(sessions), x) as int))
            } else {
                None
            },
        apply_ops(reg, session_section(sessions, expose))(
            (MetricId::SessionsActiveCount, Seq::empty()),
        ) == Some(Sample::Number(count_sessions(sessions, active_pred()) as int)),
        apply_ops(reg, session_section(sessions, expose))(
            (MetricId::TranscodeHwAccelerated, Seq::empty()),
        ) == Some(Sample::Number(count_sessions(sessions, hw_pred()) as int)),
        apply_ops(reg, session_section(sessions, expose))(
            (MetricId::PlayMethodSessions, seq!["DirectPlay"@]),
        ) == Some(Sample::Number(count_sessions(sessions, method_pred("DirectPlay"@)) as int)),
        apply_ops(reg, session_section(sessions, expose))(
            (MetricId::PlayMethodSessions, seq!["Transcode"@]),
        ) == Some(Sample::Number(count_sessions(sessions, method_pred("Transcode"@)) as int)),
        apply_ops(reg, session_section(sessions, expose))(
            (MetricId::PlayMethodSessions, seq!["DirectStream"@]),
        ) == Some(Sample::Number(count_sessions(sessions, method_pred("DirectStream"@)) as int)),
{
    reveal_strlit("DirectPlay");
    reveal_strlit("Transcode");
    reveal_strlit("DirectStream");
    let r = MetricId::TranscodeReasonSessions;
    let a = session_resets();
    let active = count_sessions(sessions, active_pred());
    lemma_count_bounded(sessions, active_pred());
    lemma_count_bounded(sessions, hw_pred());
    lemma_count_bounded(sessions, method_pred("DirectPlay"@));
    lemma_count_bounded(sessions, method_pred("Transcode"@));
    lemma_count_bounded(sessions, method_pred("DirectStream"@));
    let b = seq![
        OpView::Assign(
            MetricId::SessionsActiveCount,
            Seq::empty(),
            MetricValue::Count(active as u64),
        ),
    ];
    let c = all_session_updates(sessions, expose);
    let d = session_section(sessions, expose).skip((a.len() + b.len() + c.len()) as int);
    assert(session_section(sessions, expose) =~= a + b + c + d);
    // The resets clear every reason series.
    let a6 = a.take(6);
    assert(a =~= a6 + a.skip(6));
    assert(a6.last() == OpView::Reset(r));
    assert(untouched(a.skip(6), r));
    lemma_apply_concat(reg, a6, a.skip(6));
    lemma_untouched(apply_ops(reg, a6), a.skip(6), r, seq![]);
    let after_a = apply_ops(reg, a);
    assert forall|x: Seq<char>| #[trigger] after_a((r, seq![x])) is None by {
        lemma_untouched(apply_ops(reg, a6), a.skip(6), r, seq![x]);
    }
    // The count of active sessions.
    lemma_apply_concat(reg, a, b);
    let after_b = apply_ops(reg, a + b);
    assert(b.drop_last() =~= Seq::<OpView>::empty());
    assert(after_b((MetricId::SessionsActiveCount, Seq::empty())) == Some(
        Sample::Number(active as int),
    ));
    assert(untouched(b, r));
    lemma_reasons_untouched(after_a, b);
    // The per-session updates.
    lemma_apply_concat(reg, a + b, c);
    lemma_all_session_updates(after_b, sessions, expose);
    let after_c = apply_ops(reg, a + b + c);
    assert(is_aggregate(MetricId::SessionsActiveCount));
    assert(untouched(c, MetricId::SessionsActiveCount));
    lemma_untouched(after_b, c, MetricId::SessionsActiveCount, Seq::empty());
    // The closing aggregates.
    lemma_apply_concat(reg, a + b + c, d);
    assert(untouched(d, r));
    lemma_reasons_untouched(after_c, d);
    assert(untouched(d, MetricId::SessionsActiveCount));
    lemma_untouched(after_c, d, MetricId::SessionsActiveCount, Seq::empty());
    let out = apply_ops(reg, session_section(sessions, expose));
    assert forall|x: Seq<char>|
        #[trigger] out((MetricId::TranscodeReasonSessions, seq![x])) == if occurrences(
            all_reasons(sessions),
            x,
        ) > 0 {
            Some(Sample::Number(occurrences(all_reasons(sessions), x) as int))
        } else {
            None
        } by {
        assert(reason_count(after_b, x) == 0);
        assert(reason_count(out, x) == occurrences(all_reasons(sessions), x));
        match out((MetricId::TranscodeReasonSessions, seq![x])) {
            _ => {},
        }
    }
    reveal_with_fuel(apply_ops, 5);
    assert(d.len() == 4);
    assert(apply_ops(after_c, d) == apply_op(
        apply_op(apply_op(apply_op(after_c, d[0]), d[1]), d[2]),
        d[3],
    )) by {
        assert(d.drop_last() =~= seq![d[0], d[1], d[2]]);
        assert(d.drop_last().drop_last() =~= seq![d[0], d[1]]);
        assert(d.drop_last().drop_last().drop_last() =~= seq![d[0]]);
        assert(d.drop_last().drop_last().drop_last().drop_last() =~= Seq::<OpView>::empty());
    }
    assert(seq!["DirectPlay"@] != seq!["Transcode"@]) by {
        assert(seq!["DirectPlay"@][0] != seq!["Transcode"@][0]) by {
            assert("DirectPlay"@[0] != "Transcode"@[0]);
        }
    }
    assert(seq!["DirectPlay"@] != seq!["DirectStream"@]) by {
        assert(seq!["DirectPlay"@][0] != seq!["DirectStream"@][0]) by {
            assert("DirectPlay"@.len() != "DirectStream"@.len());
        }
    }
    assert(seq!["Transcode"@] != seq!["DirectStream"@]) by {
        assert(seq!["Transcode"@][0] != seq!["DirectStream"@][0]) by {
            assert("Transcode"@[0] != "DirectStream"@[0]);
        }
    }
}

proof fn lemma_all_updates_concat(a: Seq<Session>, b: Seq<Session>, expose: bool)
    ensures
        all_session_updates(a + b, expose) == all_session_updates(a, expose) + all_session_updates(
            b,
            expose,
        ),
    decreases b.len(),
{
    if b.len() == 0 {
        assert(a + b =~= a);
        assert(all_session_updates(a, expose) + all_session_updates(b, expose) =~= all_session_updates(a, expose));
    } else {
        lemma_all_updates_concat(a, b.drop_last(), expose);
        assert((a + b).drop_last() =~= a + b.drop_last());
        assert((a + b).last() == b.last());
        let piece = if is_active(b.last()) {
            session_updates(b.last(), expose)
        } else {
            Seq::empty()
        };
        assert(all_session_updates(a + b, expose) =~= all_session_updates(a, expose)
            + all_session_updates(b.drop_last(), expose) + piece);
    }
}

proof fn lemma_count_concat(a: Seq<Session>, b: Seq<Session>, p: spec_fn(Session) -> bool)
    ensures
        count_sessions(a + b, p) == count_sessions(a, p) + count_sessions(b, p),
    decreases b.len(),
{
    if b.len() == 0 {
        assert(a + b =~= a);
    } else {
        lemma_count_concat(a, b.drop_last(), p);
        assert((a + b).drop_last() =~= a + b.drop_last());
    }
}

/// Sessions that play nothing are not counted and produce no series: adding
/// one anywhere leaves the session section of a cycle unchanged.
pub proof fn lemma_idle_session_ignored(before: Seq<Session>, idle: Session, after: Seq<Session>, expose: bool)
    requires
        !is_active(idle),
    ensures
        session_section(before + seq![idle] + after, expose) == session_section(before + after, expose),
{
    let one = seq![idle];
    lemma_all_updates_concat(before + one, after, expose);
    lemma_all_updates_concat(before, one, expose);
    lemma_all_updates_concat(before, after, expose);
    assert(one.drop_last() =~= Seq::<Session>::empty());
    assert(one.last() == idle);
    assert(all_session_updates(one.drop_last(), expose) == Seq::<OpView>::empty());
    assert(all_session_updates(one, expose) =~= Seq::<OpView>::empty());
    assert(count_sessions(one.drop_last(), active_pred()) == 0);
    assert(count_sessions(one, active_pred()) == 0);
    assert(count_sessions(one.drop_last(), hw_pred()) == 0);
    assert(count_sessions(one, hw_pred()) == 0);
    assert(count_sessions(one.drop_last(), method_pred("DirectPlay"@)) == 0);
    assert(count_sessions(one, method_pred("DirectPlay"@)) == 0);
    assert(count_sessions(one.drop_last(), method_pred("Transcode"@)) == 0);
    assert(count_sessions(one, method_pred("Transcode"@)) == 0);
    assert(count_sessions(one.drop_last(), method_pred("DirectStream"@)) == 0);
    assert(count_sessions(one, method_pred("DirectStream"@)) == 0);
    assert(all_session_updates(before + one, expose) =~= all_session_updates(before, expose));
    lemma_count_concat(before + one, after, active_pred());
    lemma_count_concat(before, one, active_pred());
    lemma_count_concat(before, after, active_pred());
    lemma_count_concat(before + one, after, hw_pred());
    lemma_count_concat(before, one, hw_pred());
    lemma_count_concat(before, after, hw_pred());
    lemma_count_concat(before + one, after, method_pred("DirectPlay"@));
    lemma_count_concat(before, one, method_pred("DirectPlay"@));
    lemma_count_concat(before, after, method_pred("DirectPlay"@));
    lemma_count_concat(before + one, after, method_pred("Transcode"@));
    lemma_count_concat(before, one, method_pred("Transcode"@));
    lemma_count_concat(before, after, method_pred("Transcode"@));
    lemma_count_concat(before + one, after, method_pred("DirectStream"@));
    lemma_count_concat(before, one, method_pred("DirectStream"@));
    lemma_count_concat(before, after, method_pred("DirectStream"@));
}

/// When the server does not answer the probe, the exporter reports itself
/// down (`up` 0) with stale metrics (`metrics_stale` 1) and every other
/// series keeps its last value.
pub proof fn lemma_unreachable_keeps_last_values(reg: Registry, k: (MetricId, Seq<Seq<char>>))
    ensures
        apply_ops(reg, unreachable_updates())((MetricId::Up, Seq::empty())) == Some(
            Sample::Number(0),
        ),
        apply_ops(reg, unreachable_updates())((MetricId::MetricsStale, Seq::empty())) == Some(
            Sample::Number(1),
        ),
        k.0 != MetricId::Up && k.0 != MetricId::MetricsStale ==> apply_ops(
            reg,
            unreachable_updates(),
        )(k) == reg(k),
{
    reveal_with_fuel(apply_ops, 4);
    let u = unreachable_updates();
    assert(u.drop_last() =~= seq![u[0], u[1]]);
    assert(u.drop_last().drop_last() =~= seq![u[0]]);
    assert(u.drop_last().drop_last().drop_last() =~= Seq::<OpView>::empty());
}

/// The aggregate item count is the sum of the per-type counts (saturating
/// at `u64::MAX`), not the server's own total.
pub proof fn lemma_items_count_is_sum(reg: Registry, c: ItemCounts)
    ensures
        apply_ops(reg, item_count_section(c))((MetricId::ItemsCount, Seq::empty())) == Some(
            Sample::Number(
                if items_total(c) <= u64::MAX {
                    items_total(c) as int
                } else {
                    u64::MAX as int
                },
            ),
        ),
{
}

/// An update reads a series only to write that same series, so the value a
/// list of updates leaves in a series depends only on the series' value
/// before.
pub proof fn lemma_pointwise(r1: Registry, r2: Registry, ops: Seq<OpView>, k: (MetricId, Seq<Seq<char>>))
    requires
        r1(k) == r2(k),
    ensures
        apply_ops(r1, ops)(k) == apply_ops(r2, ops)(k),
    decreases ops.len(),
{
    if ops.len() > 0 {
        lemma_pointwise(r1, r2, ops.drop_last(), k);
    }
}

/// A failed or successful fetch of the other data does not disturb the item
/// counts: in a cycle in which the breaker let a fetch through, the per-type
/// series and the aggregate that the cycle leaves depend on the item-count
/// fetch alone, whatever the other fetches returned and whatever the
/// registry held before.
pub proof fn lemma_item_counts_independent(
    reg1: Registry,
    reg2: Registry,
    sessions1: Result<Vec<Session>, CollectorError>,
    sessions2: Result<Vec<Session>, CollectorError>,
    libraries1: Result<Vec<LibraryWithCount>, CollectorError>,
    libraries2: Result<Vec<LibraryWithCount>, CollectorError>,
    system1: Result<SystemInfo, CollectorError>,
    system2: Result<SystemInfo, CollectorError>,
    counts: Result<ItemCounts, CollectorError>,
    expose1: bool,
    expose2: bool,
    k: (MetricId, Seq<Seq<char>>),
)
    requires
        k.0 == MetricId::ItemsByType || k == (MetricId::ItemsCount, Seq::<Seq<char>>::empty()),
        !all_refused(sessions1, libraries1, counts, system1),
        !all_refused(sessions2, libraries2, counts, system2),
    ensures
        apply_ops(reg1, cycle_updates(sessions1, libraries1, counts, system1, expose1))(k)
            == apply_ops(reg2, cycle_updates(sessions2, libraries2, counts, system2, expose2))(k),
{
    let c = section_or(counts, |c: ItemCounts| item_count_section(c), item_count_resets());
    assert forall|r: Registry, sessions: Result<Vec<Session>, CollectorError>, libraries: Result<Vec<LibraryWithCount>, CollectorError>, system: Result<SystemInfo, CollectorError>, expose: bool|
        #![trigger apply_ops(r, refreshed_updates(sessions, libraries, counts, system, expose))]
        apply_ops(r, refreshed_updates(sessions, libraries, counts, system, expose))(k) == apply_ops(
            apply_ops(apply_ops(r, refreshed_updates(sessions, libraries, counts, system, expose).take(
                (refreshed_updates(sessions, libraries, counts, system, expose).len() - c.len() - section_or(
                    system,
                    |i: SystemInfo| system_section(i),
                    seq![OpView::Reset(MetricId::ServerInfo)],
                ).len()) as int,
            )), c.take(2)),
            c.skip(2),
        )(k) by {
        let y = section_or(
            system,
            |i: SystemInfo| system_section(i),
            seq![OpView::Reset(MetricId::ServerInfo)],
        );
        let all = refreshed_updates(sessions, libraries, counts, system, expose);
        let front = all.take((all.len() - c.len() - y.len()) as int);
        assert(all =~= front + c + y);
        assert(c =~= c.take(2) + c.skip(2));
        lemma_apply_concat(r, front + c, y);
        lemma_apply_concat(r, front, c);
        lemma_apply_concat(apply_ops(r, front), c.take(2), c.skip(2));
        assert forall|i: int| 0 <= i < y.len() implies !writes(#[trigger] y[i], k) by {}
        lemma_series_untouched(apply_ops(r, front + c), y, k);
    }
    let y1 = section_or(system1, |i: SystemInfo| system_section(i), seq![OpView::Reset(MetricId::ServerInfo)]);
    let y2 = section_or(system2, |i: SystemInfo| system_section(i), seq![OpView::Reset(MetricId::ServerInfo)]);
    let all1 = refreshed_updates(sessions1, libraries1, counts, system1, expose1);
    let all2 = refreshed_updates(sessions2, libraries2, counts, system2, expose2);
    let m1 = apply_ops(apply_ops(reg1, all1.take((all1.len() - c.len() - y1.len()) as int)), c.take(2));
    let m2 = apply_ops(apply_ops(reg2, all2.take((all2.len() - c.len() - y2.len()) as int)), c.take(2));
    reveal_with_fuel(apply_ops, 3);
    assert(c.take(2).drop_last() =~= seq![c[0]]);
    assert(c.take(2).drop_last().drop_last() =~= Seq::<OpView>::empty());
    assert(m1(k) == m2(k));
    lemma_pointwise(m1, m2, c.skip(2), k);
}

/// The number of labels each metric is declared with.
pub open spec fn label_arity(m: MetricId) -> nat {
    match m {
        MetricId::Up => 0,
        MetricId::MetricsStale => 0,
        MetricId::ServerInfo => 3,
        MetricId::SessionsActive => 4,
        MetricId::SessionPaused => 3,
        MetricId::SessionsActiveCount => 0,
        MetricId::TranscodesActive => 2,
        MetricId::TranscodeHwAccelerated => 0,
        MetricId::TranscodeReasonSessions => 1,
        MetricId::StreamBitrate => 2,
        MetricId::StreamDirect => 2,
        MetricId::TranscodeCompletion => 1,
        MetricId::PlayMethodSessions => 1,
        MetricId::SessionPlayPositionSeconds => 2,
        MetricId::SessionRemoteAddress => 2,
        MetricId::LibraryItems => 2,
        MetricId::ItemsByType => 1,
        MetricId::ItemsCount => 0,
    }
}

/// An update that writes a series names one value per label of its metric.
pub open spec fn op_well_labelled(op: OpView) -> bool {
    match op {
        OpView::Assign(m, l, _) => l.len() == label_arity(m),
        OpView::Inc(m, l) => l.len() == label_arity(m),
        _ => true,
    }
}

pub open spec fn well_labelled(ops: Seq<OpView>) -> bool {
    forall|i: int| 0 <= i < ops.len() ==> op_well_labelled(#[trigger] ops[i])
}

proof fn lemma_well_labelled_concat(a: Seq<OpView>, b: Seq<OpView>)
    requires
        well_labelled(a),
        well_labelled(b),
    ensures
        well_labelled(a + b),
{
    assert forall|i: int| 0 <= i < (a + b).len() implies op_well_labelled(#[trigger] (a + b)[i]) by {
        if i >= a.len() {
            assert((a + b)[i] == b[i - a.len()]);
        }
    }
}

proof fn lemma_transcode_well_labelled(user: Seq<char>, t: TranscodingInfo)
    ensures
        well_labelled(transcode_updates(user, t)),
{
    let head = seq![
        OpView::Inc(
            MetricId::TranscodesActive,
            seq![crate::collector::codec_label(t.video_codec), crate::collector::codec_label(t.audio_codec)],
        ),
    ];
    assert(well_labelled(head));
    assert(well_labelled(completion_piece(user, t)));
    assert(well_labelled(reasons_piece(t))) by {
        if let Some(v) = t.transcode_reasons {
            assert forall|i: int| 0 <= i < reason_updates(v@).len() implies op_well_labelled(
                #[trigger] reason_updates(v@)[i],
            ) by {
                assert(reason_updates(v@)[i] == reason_update(v@[i]));
            }
        }
    }
    assert(well_labelled(direct_piece(user, t))) by {
        let p = direct_piece(user, t);
        assert forall|i: int| 0 <= i < p.len() implies op_well_labelled(#[trigger] p[i]) by {}
    }
    lemma_well_labelled_concat(head, completion_piece(user, t));
    lemma_well_labelled_concat(head + completion_piece(user, t), reasons_piece(t));
    lemma_well_labelled_concat(
        head + completion_piece(user, t) + reasons_piece(t),
        direct_piece(user, t),
    );
}

proof fn lemma_session_well_labelled(s: Session, expose: bool)
    ensures
        well_labelled(session_updates(s, expose)),
{
    assert(well_labelled(session_head(s)));
    assert(well_labelled(position_piece(s)));
    assert(well_labelled(remote_piece(s, expose)));
    assert(well_labelled(bitrate_piece(s)));
    assert(well_labelled(stream_piece(s))) by {
        if play_method_label(s) == "Transcode"@ {
            if let Some(t) = s.transcoding_info {
                lemma_transcode_well_labelled(crate::collector::label(s.user_name), t);
            }
        }
    }
    lemma_well_labelled_concat(session_head(s), position_piece(s));
    lemma_well_labelled_concat(session_head(s) + position_piece(s), remote_piece(s, expose));
    lemma_well_labelled_concat(
        session_head(s) + position_piece(s) + remote_piece(s, expose),
        bitrate_piece(s),
    );
    lemma_well_labelled_concat(
        session_head(s) + position_piece(s) + remote_piece(s, expose) + bitrate_piece(s),
        stream_piece(s),
    );
}

proof fn lemma_all_sessions_well_labelled(sessions: Seq<Session>, expose: bool)
    ensures
        well_labelled(all_session_updates(sessions, expose)),
    decreases sessions.len(),
{
    if sessions.len() > 0 {
        lemma_all_sessions_well_labelled(sessions.drop_last(), expose);
        let piece = if is_active(sessions.last()) {
            session_updates(sessions.last(), expose)
        } else {
            Seq::<OpView>::empty()
        };
        if is_active(sessions.last()) {
            lemma_session_well_labelled(sessions.last(), expose);
        }
        lemma_well_labelled_concat(all_session_updates(sessions.drop_last(), expose), piece);
    }
}

proof fn lemma_section_well_labelled<T>(r: Result<T, CollectorError>, ok: spec_fn(T) -> Seq<OpView>, failed: Seq<OpView>)
    requires
        well_labelled(failed),
        r matches Ok(v) ==> well_labelled(ok(v)),
    ensures
        well_labelled(section_or(r, ok, failed)),
        well_labelled(error_update(r)),
{
}

/// Every update that the exporter plans names exactly one value per label
/// of its metric, whatever the probe and the fetches returned, so that the
/// registry accepts each of them.
pub proof fn lemma_updates_well_labelled(
    sessions: Result<Vec<Session>, CollectorError>,
    libraries: Result<Vec<LibraryWithCount>, CollectorError>,
    counts: Result<ItemCounts, CollectorError>,
    system: Result<SystemInfo, CollectorError>,
    expose: bool,
)
    ensures
        well_labelled(reachable_updates()),
        well_labelled(unreachable_updates()),
        well_labelled(cycle_updates(sessions, libraries, counts, system, expose)),
{
    let fs = |v: Vec<Session>| session_section(v@, expose);
    let fl = |v: Vec<LibraryWithCount>| library_section(v@);
    let fc = |c: ItemCounts| item_count_section(c);
    let fy = |i: SystemInfo| system_section(i);
    assert(well_labelled(session_resets()));
    if let Ok(v) = sessions {
        let tail = seq![
            OpView::Assign(
                MetricId::TranscodeHwAccelerated,
                Seq::empty(),
                MetricValue::Count(count_sessions(v@, hw_pred()) as u64),
            ),
            OpView::Assign(
                MetricId::PlayMethodSessions,
                seq!["DirectPlay"@],
                MetricValue::Count(count_sessions(v@, method_pred("DirectPlay"@)) as u64),
            ),
            OpView::Assign(
                MetricId::PlayMethodSessions,
                seq!["Transcode"@],
                MetricValue::Count(count_sessions(v@, method_pred("Transcode"@)) as u64),
            ),
            OpView::Assign(
                MetricId::PlayMethodSessions,
                seq!["DirectStream"@],
                MetricValue::Count(count_sessions(v@, method_pred("DirectStream"@)) as u64),
            ),
        ];
        let count = seq![
            OpView::Assign(
                MetricId::SessionsActiveCount,
                Seq::empty(),
                MetricValue::Count(count_sessions(v@, active_pred()) as u64),
            ),
        ];
        assert(well_labelled(tail));
        assert(well_labelled(count));
        lemma_all_sessions_well_labelled(v@, expose);
        lemma_well_labelled_concat(session_resets(), count);
        lemma_well_labelled_concat(session_resets() + count, all_session_updates(v@, expose));
        lemma_well_labelled_concat(
            session_resets() + count + all_session_updates(v@, expose),
            tail,
        );
        assert(session_section(v@, expose) == session_resets() + count + all_session_updates(
            v@,
            expose,
        ) + tail);
    }
    if let Ok(v) = libraries {
        let per = v@.map_values(|l: LibraryWithCount| library_update(l));
        assert forall|i: int| 0 <= i < per.len() implies op_well_labelled(#[trigger] per[i]) by {
            assert(per[i] == library_update(v@[i]));
        }
        lemma_well_labelled_concat(seq![OpView::Reset(MetricId::LibraryItems)], per);
    }
    assert(well_labelled(item_count_resets()));
    if let Ok(c) = counts {
        let s = item_count_section(c);
        assert forall|i: int| 0 <= i < s.len() implies op_well_labelled(#[trigger] s[i]) by {}
    }
    if let Ok(i) = system {
        assert(well_labelled(system_section(i)));
    }
    assert(well_labelled(seq![OpView::Reset(MetricId::LibraryItems)]));
    assert(well_labelled(seq![OpView::Reset(MetricId::ServerInfo)]));
    lemma_section_well_labelled(sessions, fs, session_resets());
    lemma_section_well_labelled(libraries, fl, seq![OpView::Reset(MetricId::LibraryItems)]);
    lemma_section_well_labelled(counts, fc, item_count_resets());
    lemma_section_well_labelled(system, fy, seq![OpView::Reset(MetricId::ServerInfo)]);
    let e1 = error_update(sessions);
    let e2 = error_update(libraries);
    let e3 = error_update(counts);
    let e4 = error_update(system);
    let s1 = section_or(sessions, fs, session_resets());
    let s2 = section_or(libraries, fl, seq![OpView::Reset(MetricId::LibraryItems)]);
    let s3 = section_or(counts, fc, item_count_resets());
    let s4 = section_or(system, fy, seq![OpView::Reset(MetricId::ServerInfo)]);
    lemma_well_labelled_concat(e1, e2);
    lemma_well_labelled_concat(e1 + e2, e3);
    lemma_well_labelled_concat(e1 + e2 + e3, e4);
    lemma_well_labelled_concat(e1 + e2 + e3 + e4, s1);
    lemma_well_labelled_concat(e1 + e2 + e3 + e4 + s1, s2);
    lemma_well_labelled_concat(e1 + e2 + e3 + e4 + s1 + s2, s3);
    lemma_well_labelled_concat(e1 + e2 + e3 + e4 + s1 + s2 + s3, s4);
    if all_refused(sessions, libraries, counts, system) {
        assert(well_labelled(stale_updates()));
        lemma_well_labelled_concat(e1 + e2 + e3 + e4, stale_updates());
    } else {
        assert(cycle_updates(sessions, libraries, counts, system, expose) == e1 + e2 + e3 + e4
            + s1 + s2 + s3 + s4);
    }
}

/// An update that, applied to any registry, fixes the value of a series:
/// a reset of its metric, or an assignment to it.
pub open spec fn clears(op: OpView, k: (MetricId, Seq<Seq<char>>)) -> bool {
    match op {
        OpView::Reset(m) => m == k.0,
        OpView::Assign(m, l, _) => m == k.0 && l == k.1,
        _ => false,
    }
}

/// After a list of updates one of which fixes a series, the series' value
/// no longer depends on the registry the list started from.
proof fn lemma_cleared(reg1: Registry, reg2: Registry, ops: Seq<OpView>, k: (MetricId, Seq<Seq<char>>), i: int)
    requires
        0 <= i < ops.len(),
        clears(ops[i], k),
    ensures
        apply_ops(reg1, ops)(k) == apply_ops(reg2, ops)(k),
    decreases ops.len(),
{
    if i < ops.len() - 1 {
        assert(ops.drop_last()[i] == ops[i]);
        lemma_cleared(reg1, reg2, ops.drop_last(), k, i);
    }
}

proof fn lemma_middle_cleared(
    reg1: Registry,
    reg2: Registry,
    a: Seq<OpView>,
    s: Seq<OpView>,
    c: Seq<OpView>,
    k: (MetricId, Seq<Seq<char>>),
    j: int,
)
    requires
        0 <= j < s.len(),
        clears(s[j], k),
    ensures
        apply_ops(reg1, a + s + c)(k) == apply_ops(reg2, a + s + c)(k),
{
    lemma_apply_concat(reg1, a + s, c);
    lemma_apply_concat(reg2, a + s, c);
    lemma_apply_concat(reg1, a, s);
    lemma_apply_concat(reg2, a, s);
    lemma_cleared(apply_ops(reg1, a), apply_ops(reg2, a), s, k, j);
    lemma_pointwise(apply_ops(reg1, a + s), apply_ops(reg2, a + s), c, k);
}

/// The position of the update in [`session_resets`] that fixes each session
/// metric's series.
pub open spec fn session_reset_index(m: MetricId) -> int {
    match m {
        MetricId::SessionsActive => 0,
        MetricId::SessionPaused => 1,
        MetricId::SessionsActiveCount => 2,
        MetricId::TranscodesActive => 3,
        MetricId::TranscodeHwAccelerated => 4,
        MetricId::TranscodeReasonSessions => 5,
        MetricId::StreamBitrate => 6,
        MetricId::StreamDirect => 7,
        MetricId::TranscodeCompletion => 8,
        MetricId::PlayMethodSessions => 9,
        MetricId::SessionPlayPositionSeconds => 10,
        MetricId::SessionRemoteAddress => 11,
        _ => -1,
    }
}

/// A cycle in which the server answered the probe and the breaker let a
/// fetch through rebuilds every series it manages, whether each fetch
/// succeeded or failed: what it leaves in any
/// series other than `up` and `metrics_stale` does not depend on what earlier
/// cycles left, so the label sets of ended sessions, removed libraries or a
/// former server version never linger.
pub proof fn lemma_cycle_rebuilds_series(
    reg1: Registry,
    reg2: Registry,
    sessions: Result<Vec<Session>, CollectorError>,
    libraries: Result<Vec<LibraryWithCount>, CollectorError>,
    counts: Result<ItemCounts, CollectorError>,
    system: Result<SystemInfo, CollectorError>,
    expose: bool,
    k: (MetricId, Seq<Seq<char>>),
)
    requires
        k.0 != MetricId::Up,
        k.0 != MetricId::MetricsStale,
        k.1.len() == label_arity(k.0),
        !all_refused(sessions, libraries, counts, system),
    ensures
        apply_ops(reg1, cycle_updates(sessions, libraries, counts, system, expose))(k) == apply_ops(
            reg2,
            cycle_updates(sessions, libraries, counts, system, expose),
        )(k),
{
    let e = error_update(sessions) + error_update(libraries) + error_update(counts) + error_update(
        system,
    );
    let s1 = section_or(sessions, |v: Vec<Session>| session_section(v@, expose), session_resets());
    let s2 = section_or(
        libraries,
        |v: Vec<LibraryWithCount>| library_section(v@),
        seq![OpView::Reset(MetricId::LibraryItems)],
    );
    let s3 = section_or(counts, |c: ItemCounts| item_count_section(c), item_count_resets());
    let s4 = section_or(
        system,
        |i: SystemInfo| system_section(i),
        seq![OpView::Reset(MetricId::ServerInfo)],
    );
    let all = cycle_updates(sessions, libraries, counts, system, expose);
    assert(all == e + s1 + s2 + s3 + s4);
    if label_arity(k.0) == 0 {
        assert(k.1 =~= Seq::<Seq<char>>::empty());
    }
    let ix = session_reset_index(k.0);
    if 0 <= ix {
        assert(s1[ix] == session_resets()[ix]);
        assert(clears(s1[ix], k));
        assert(all =~= e + s1 + (s2 + s3 + s4));
        lemma_middle_cleared(reg1, reg2, e, s1, s2 + s3 + s4, k, ix);
    } else if k.0 == MetricId::LibraryItems {
        assert(clears(s2[0], k));
        assert(all =~= (e + s1) + s2 + (s3 + s4));
        lemma_middle_cleared(reg1, reg2, e + s1, s2, s3 + s4, k, 0);
    } else if k.0 == MetricId::ItemsByType || k.0 == MetricId::ItemsCount {
        let j: int = if k.0 == MetricId::ItemsByType {
            0
        } else {
            1
        };
        assert(s3[j] == item_count_resets()[j]);
        assert(clears(s3[j], k));
        lemma_middle_cleared(reg1, reg2, e + s1 + s2, s3, s4, k, j);
    } else {
        assert(k.0 == MetricId::ServerInfo);
        assert(clears(s4[0], k));
        assert(all =~= (e + s1 + s2 + s3) + s4 + Seq::<OpView>::empty());
        lemma_middle_cleared(reg1, reg2, e + s1 + s2 + s3, s4, Seq::<OpView>::empty(), k, 0);
    }
}

/// While the circuit is open, so that the breaker refuses every fetch of a
/// cycle, the exporter serves stale metrics even though the server answered
/// the probe: `up` ends at 0 and `metrics_stale` at 1, and every other series
/// keeps its last value.
pub proof fn lemma_open_breaker_keeps_last_values(reg: Registry, expose: bool, k: (MetricId, Seq<Seq<char>>))
    ensures
        ({
            let refused = Err::<Vec<Session>, CollectorError>(CollectorError::CircuitOpen);
            let ops = reachable_updates() + cycle_updates(
                refused,
                Err(CollectorError::CircuitOpen),
                Err(CollectorError::CircuitOpen),
                Err(CollectorError::CircuitOpen),
                expose,
            );
            &&& apply_ops(reg, ops)((MetricId::Up, Seq::empty())) == Some(Sample::Number(0))
            &&& apply_ops(reg, ops)((MetricId::MetricsStale, Seq::empty())) == Some(
                Sample::Number(1),
            )
            &&& (k.0 != MetricId::Up && k.0 != MetricId::MetricsStale ==> apply_ops(reg, ops)(k)
                == reg(k))
        }),
{
    let refused = Err::<Vec<Session>, CollectorError>(CollectorError::CircuitOpen);
    let cyc = cycle_updates(
        refused,
        Err(CollectorError::CircuitOpen),
        Err(CollectorError::CircuitOpen),
        Err(CollectorError::CircuitOpen),
        expose,
    );
    let ops = reachable_updates() + cyc;
    let pre = ops.take(ops.len() - 2);
    assert(ops =~= pre + stale_updates());
    lemma_apply_concat(reg, pre, stale_updates());
    let mid = apply_ops(reg, pre);
    reveal_with_fuel(apply_ops, 3);
    let st = stale_updates();
    assert(st.drop_last() =~= seq![st[0]]);
    assert(st.drop_last().drop_last() =~= Seq::<OpView>::empty());
    if k.0 != MetricId::Up && k.0 != MetricId::MetricsStale {
        assert forall|i: int| 0 <= i < ops.len() implies !writes(#[trigger] ops[i], k) by {}
        lemma_series_untouched(reg, ops, k);
    }
}

/// The value that an update fixing a series gives it.
pub open spec fn cleared_value(op: OpView) -> Option<Sample> {
    match op {
        OpView::Assign(_, _, v) => Some(sample_of(v)),
        _ => None,
    }
}

proof fn lemma_cleared_value(reg: Registry, ops: Seq<OpView>, k: (MetricId, Seq<Seq<char>>), i: int)
    requires
        0 <= i < ops.len(),
        clears(ops[i], k),
        forall|j: int| i < j < ops.len() ==> !writes(#[trigger] ops[j], k),
    ensures
        apply_ops(reg, ops)(k) == cleared_value(ops[i]),
    decreases ops.len(),
{
    if i < ops.len() - 1 {
        assert(!writes(ops[ops.len() - 1], k));
        assert forall|j: int| i < j < ops.drop_last().len() implies !writes(
            #[trigger] ops.drop_last()[j],
            k,
        ) by {
            assert(ops.drop_last()[j] == ops[j]);
        }
        assert(ops.drop_last()[i] == ops[i]);
        lemma_cleared_value(reg, ops.drop_last(), k, i);
    }
}

proof fn lemma_all_sessions_spare(sessions: Seq<Session>, expose: bool, m: MetricId)
    requires
        spared(m, expose),
    ensures
        untouched(all_session_updates(sessions, expose), m),
    decreases sessions.len(),
{
    if sessions.len() > 0 {
        lemma_all_sessions_spare(sessions.drop_last(), expose, m);
        let last = sessions.last();
        let piece = if is_active(last) {
            session_updates(last, expose)
        } else {
            Seq::<OpView>::empty()
        };
        if is_active(last) {
            lemma_session_update_metrics(last, expose, m);
        }
        lemma_untouched_concat(all_session_updates(sessions.drop_last(), expose), piece, m);
    }
}

/// The updates that follow the resets in a session section.
pub open spec fn session_rest(sessions: Seq<Session>, expose: bool) -> Seq<OpView> {
    session_section(sessions, expose).skip(session_resets().len() as int)
}

proof fn lemma_session_rest(sessions: Seq<Session>, expose: bool, m: MetricId)
    requires
        m != MetricId::SessionsActiveCount,
        m != MetricId::TranscodeHwAccelerated,
        m != MetricId::PlayMethodSessions,
        spared(m, expose),
    ensures
        session_section(sessions, expose) == session_resets() + session_rest(sessions, expose),
        untouched(session_rest(sessions, expose), m),
{
    let count = seq![
        OpView::Assign(
            MetricId::SessionsActiveCount,
            Seq::empty(),
            MetricValue::Count(count_sessions(sessions, active_pred()) as u64),
        ),
    ];
    let all = all_session_updates(sessions, expose);
    let tail = session_section(sessions, expose).skip(
        (session_resets().len() + count.len() + all.len()) as int,
    );
    assert(session_section(sessions, expose) =~= session_resets() + session_rest(sessions, expose));
    assert(session_rest(sessions, expose) =~= count + all + tail);
    lemma_all_sessions_spare(sessions, expose, m);
    assert(untouched(count, m));
    assert(untouched(tail, m));
    lemma_untouched_concat(count, all, m);
    lemma_untouched_concat(count + all, tail, m);
}

/// What the session resets leave: no series of a per-session metric, zero
/// active sessions and zero hardware-accelerated transcodes, and every series
/// of the other metrics as it was.
pub proof fn lemma_session_resets_effect(reg: Registry, k: (MetricId, Seq<Seq<char>>))
    ensures
        session_reset_index(k.0) >= 0 && label_arity(k.0) > 0 ==> apply_ops(reg, session_resets())(
            k,
        ) == None::<Sample>,
        apply_ops(reg, session_resets())((MetricId::SessionsActiveCount, Seq::empty())) == Some(
            Sample::Number(0),
        ),
        apply_ops(reg, session_resets())((MetricId::TranscodeHwAccelerated, Seq::empty())) == Some(
            Sample::Number(0),
        ),
        session_reset_index(k.0) < 0 ==> apply_ops(reg, session_resets())(k) == reg(k),
{
    let r = session_resets();
    let ix = session_reset_index(k.0);
    if ix >= 0 && label_arity(k.0) > 0 {
        assert(clears(r[ix], k));
        assert forall|j: int| ix < j < r.len() implies !writes(#[trigger] r[j], k) by {}
        lemma_cleared_value(reg, r, k, ix);
    }
    if ix < 0 {
        assert forall|j: int| 0 <= j < r.len() implies !writes(#[trigger] r[j], k) by {}
        lemma_series_untouched(reg, r, k);
    }
    let a = (MetricId::SessionsActiveCount, Seq::<Seq<char>>::empty());
    assert(clears(r[2], a));
    assert forall|j: int| 2 < j < r.len() implies !writes(#[trigger] r[j], a) by {}
    lemma_cleared_value(reg, r, a, 2);
    let h = (MetricId::TranscodeHwAccelerated, Seq::<Seq<char>>::empty());
    assert(clears(r[4], h));
    assert forall|j: int| 4 < j < r.len() implies !writes(#[trigger] r[j], h) by {}
    lemma_cleared_value(reg, r, h, 4);
}

/// A failed session fetch clears the session series: no per-session series
/// is left, the active-session and hardware-transcode counts read zero, and
/// the series of every other metric are as they were.
pub proof fn lemma_failed_sessions_clear(
    reg: Registry,
    sessions: Result<Vec<Session>, CollectorError>,
    expose: bool,
    k: (MetricId, Seq<Seq<char>>),
)
    requires
        sessions is Err,
    ensures
        ({
            let after = apply_ops(
                reg,
                section_or(
                    sessions,
                    |v: Vec<Session>| session_section(v@, expose),
                    session_resets(),
                ),
            );
            &&& (session_reset_index(k.0) >= 0 && label_arity(k.0) > 0 ==> after(k) == None::<
                Sample,
            >)
            &&& after((MetricId::SessionsActiveCount, Seq::empty())) == Some(Sample::Number(0))
            &&& after((MetricId::TranscodeHwAccelerated, Seq::empty())) == Some(Sample::Number(0))
            &&& (session_reset_index(k.0) < 0 ==> after(k) == reg(k))
        }),
{
    lemma_session_resets_effect(reg, k);
}

/// A cycle's session section leaves no earlier label set behind: every
/// session series it leaves is the same whatever the registry held before,
/// and the series of the metrics outside the session section keep their
/// values.
pub proof fn lemma_session_section_rebuilds(
    reg1: Registry,
    reg2: Registry,
    sessions: Seq<Session>,
    expose: bool,
    k: (MetricId, Seq<Seq<char>>),
)
    requires
        k.1.len() == label_arity(k.0),
    ensures
        session_reset_index(k.0) >= 0 ==> apply_ops(reg1, session_section(sessions, expose))(k)
            == apply_ops(reg2, session_section(sessions, expose))(k),
        session_reset_index(k.0) < 0 ==> apply_ops(reg1, session_section(sessions, expose))(k)
            == reg1(k),
{
    let sec = session_section(sessions, expose);
    let ix = session_reset_index(k.0);
    if label_arity(k.0) == 0 {
        assert(k.1 =~= Seq::<Seq<char>>::empty());
    }
    if ix >= 0 {
        assert(sec[ix] == session_resets()[ix]);
        assert(clears(sec[ix], k));
        lemma_cleared(reg1, reg2, sec, k, ix);
    } else {
        lemma_session_rest(sessions, expose, k.0);
        lemma_apply_concat(reg1, session_resets(), session_rest(sessions, expose));
        lemma_session_resets_effect(reg1, k);
        lemma_untouched(
            apply_ops(reg1, session_resets()),
            session_rest(sessions, expose),
            k.0,
            k.1,
        );
    }
}

/// While the remote-address metric is off, a cycle's session section leaves
/// no remote-address series, whatever the sessions and the registry held.
pub proof fn lemma_remote_address_hidden(reg: Registry, sessions: Seq<Session>, l: Seq<Seq<char>>)
    ensures
        apply_ops(reg, session_section(sessions, false))((MetricId::SessionRemoteAddress, l))
            == None::<Sample>,
{
    let m = MetricId::SessionRemoteAddress;
    lemma_session_rest(sessions, false, m);
    lemma_apply_concat(reg, session_resets(), session_rest(sessions, false));
    let r = session_resets();
    let k = (m, l);
    assert(clears(r[11], k));
    assert forall|j: int| 11 < j < r.len() implies !writes(#[trigger] r[j], k) by {}
    lemma_cleared_value(reg, r, k, 11);
    lemma_untouched(apply_ops(reg, r), session_rest(sessions, false), m, l);
}

/// A session with its client address forgotten.
pub open spec fn without_remote(s: Session) -> Session {
    Session { remote_end_point: None, ..s }
}

proof fn lemma_count_without_remote(sessions: Seq<Session>, p: spec_fn(Session) -> bool)
    requires
        forall|s: Session| #[trigger] p(s) == p(without_remote(s)),
    ensures
        count_sessions(sessions, p) == count_sessions(
            sessions.map_values(|s: Session| without_remote(s)),
            p,
        ),
    decreases sessions.len(),
{
    if sessions.len() > 0 {
        let w = sessions.map_values(|s: Session| without_remote(s));
        assert(w.drop_last() =~= sessions.drop_last().map_values(|s: Session| without_remote(s)));
        lemma_count_without_remote(sessions.drop_last(), p);
        assert(p(sessions.last()) == p(without_remote(sessions.last())));
    }
}

proof fn lemma_updates_without_remote(sessions: Seq<Session>)
    ensures
        all_session_updates(sessions, false) == all_session_updates(
            sessions.map_values(|s: Session| without_remote(s)),
            false,
        ),
    decreases sessions.len(),
{
    if sessions.len() > 0 {
        let w = sessions.map_values(|s: Session| without_remote(s));
        assert(w.drop_last() =~= sessions.drop_last().map_values(|s: Session| without_remote(s)));
        lemma_updates_without_remote(sessions.drop_last());
        let s = sessions.last();
        let ws = without_remote(s);
        assert(w.last() == ws);
        assert(session_head(s) == session_head(ws));
        assert(position_piece(s) == position_piece(ws));
        assert(remote_piece(s, false) == remote_piece(ws, false));
        assert(bitrate_piece(s) == bitrate_piece(ws));
        assert(stream_piece(s) == stream_piece(ws));
        assert(session_updates(s, false) == session_updates(ws, false));
    }
}

/// While the remote-address metric is off, the client addresses of the
/// sessions do not reach the metrics: the session section is the same as for
/// the same sessions with their addresses forgotten.
pub proof fn lemma_remote_address_ignored(sessions: Seq<Session>)
    ensures
        session_section(sessions, false) == session_section(
            sessions.map_values(|s: Session| without_remote(s)),
            false,
        ),
{
    reveal_strlit("DirectPlay");
    reveal_strlit("Transcode");
    reveal_strlit("DirectStream");
    lemma_updates_without_remote(sessions);
    assert forall|s: Session| #[trigger] active_pred()(s) == active_pred()(without_remote(s)) by {}
    assert forall|s: Session| #[trigger] hw_pred()(s) == hw_pred()(without_remote(s)) by {}
    assert forall|s: Session|
        #[trigger] method_pred("DirectPlay"@)(s) == method_pred("DirectPlay"@)(without_remote(s)) by {}
    assert forall|s: Session|
        #[trigger] method_pred("Transcode"@)(s) == method_pred("Transcode"@)(without_remote(s)) by {}
    assert forall|s: Session|
        #[trigger] method_pred("DirectStream"@)(s) == method_pred("DirectStream"@)(
            without_remote(s),
        ) by {}
    lemma_count_without_remote(sessions, active_pred());
    lemma_count_without_remote(sessions, hw_pred());
    lemma_count_without_remote(sessions, method_pred("DirectPlay"@));
    lemma_count_without_remote(sessions, method_pred("Transcode"@));
    lemma_count_without_remote(sessions, method_pred("DirectStream"@));
}

/// The exposed name of each metric.
pub open spec fn metric_name_text(m: MetricId) -> Seq<char> {
    match m {
        MetricId::Up => "jellyfin_up"@,
        MetricId::MetricsStale => "jellyfin_metrics_stale"@,
        MetricId::ServerInfo => "jellyfin_server_info"@,
        MetricId::SessionsActive => "jellyfin_sessions_active"@,
        MetricId::SessionPaused => "jellyfin_session_paused"@,
        MetricId::SessionsActiveCount => "jellyfin_sessions_active_count"@,
        MetricId::TranscodesActive => "jellyfin_transcodes_active"@,
        MetricId::TranscodeHwAccelerated => "jellyfin_transcode_hw_accelerated"@,
        MetricId::TranscodeReasonSessions => "jellyfin_transcode_reason_sessions"@,
        MetricId::StreamBitrate => "jellyfin_stream_bitrate_bps"@,
        MetricId::StreamDirect => "jellyfin_stream_direct"@,
        MetricId::TranscodeCompletion => "jellyfin_transcode_completion_pct"@,
        MetricId::PlayMethodSessions => "jellyfin_play_method_sessions"@,
        MetricId::SessionPlayPositionSeconds => "jellyfin_session_play_position_seconds"@,
        MetricId::SessionRemoteAddress => "jellyfin_session_remote_address"@,
        MetricId::LibraryItems => "jellyfin_library_items"@,
        MetricId::ItemsByType => "jellyfin_items_by_type"@,
        MetricId::ItemsCount => "jellyfin_items_count"@,
    }
}

/// The label names of each metric, in the order of its label values.
pub open spec fn label_names_text(m: MetricId) -> Seq<Seq<char>> {
    match m {
        MetricId::Up => Seq::empty(),
        MetricId::MetricsStale => Seq::empty(),
        MetricId::ServerInfo => seq!["version"@, "os"@, "server_name"@],
        MetricId::SessionsActive => seq!["user"@, "client"@, "play_method"@, "device"@],
        MetricId::SessionPaused => seq!["user"@, "client"@, "device"@],
        MetricId::SessionsActiveCount => Seq::empty(),
        MetricId::TranscodesActive => seq!["video_codec"@, "audio_codec"@],
        MetricId::TranscodeHwAccelerated => Seq::empty(),
        MetricId::TranscodeReasonSessions => seq!["reason"@],
        MetricId::StreamBitrate => seq!["user"@, "media_type"@],
        MetricId::StreamDirect => seq!["user"@, "type"@],
        MetricId::TranscodeCompletion => seq!["user"@],
        MetricId::PlayMethodSessions => seq!["method"@],
        MetricId::SessionPlayPositionSeconds => seq!["user"@, "item_type"@],
        MetricId::SessionRemoteAddress => seq!["user"@, "remote_address"@],
        MetricId::LibraryItems => seq!["library_name"@, "library_type"@],
        MetricId::ItemsByType => seq!["type"@],
        MetricId::ItemsCount => Seq::empty(),
    }
}

/// Every metric declares as many label names as its updates carry values.
pub proof fn lemma_label_names_match_arity(m: MetricId)
    ensures
        label_names_text(m).len() == label_arity(m),
{
}

/// The metric's exposed name.
pub fn metric_name(m: MetricId) -> (n: &'static str)
    ensures
        n@ == metric_name_text(m),
{
    match m {
        MetricId::Up => "jellyfin_up",
        MetricId::MetricsStale => "jellyfin_metrics_stale",
        MetricId::ServerInfo => "jellyfin_server_info",
        MetricId::SessionsActive => "jellyfin_sessions_active",
        MetricId::SessionPaused => "jellyfin_session_paused",
        MetricId::SessionsActiveCount => "jellyfin_sessions_active_count",
        MetricId::TranscodesActive => "jellyfin_transcodes_active",
        MetricId::TranscodeHwAccelerated => "jellyfin_transcode_hw_accelerated",
        MetricId::TranscodeReasonSessions => "jellyfin_transcode_reason_sessions",
        MetricId::StreamBitrate => "jellyfin_stream_bitrate_bps",
        MetricId::StreamDirect => "jellyfin_stream_direct",
        MetricId::TranscodeCompletion => "jellyfin_transcode_completion_pct",
        MetricId::PlayMethodSessions => "jellyfin_play_method_sessions",
        MetricId::SessionPlayPositionSeconds => "jellyfin_session_play_position_seconds",
        MetricId::SessionRemoteAddress => "jellyfin_session_remote_address",
        MetricId::LibraryItems => "jellyfin_library_items",
        MetricId::ItemsByType => "jellyfin_items_by_type",
        MetricId::ItemsCount => "jellyfin_items_count",
    }
}

/// The metric's label names, in the order of its label values.
pub fn metric_labels(m: MetricId) -> (v: Vec<&'static str>)
    ensures
        v@.len() == label_arity(m),
        forall|i: int| 0 <= i < v@.len() ==> (#[trigger] v@[i])@ == label_names_text(m)[i],
{
    match m {
        MetricId::Up => vec![],
        MetricId::MetricsStale => vec![],
        MetricId::ServerInfo => vec!["version", "os", "server_name"],
        MetricId::SessionsActive => vec!["user", "client", "play_method", "device"],
        MetricId::SessionPaused => vec!["user", "client", "device"],
        MetricId::SessionsActiveCount => vec![],
        MetricId::TranscodesActive => vec!["video_codec", "audio_codec"],
        MetricId::TranscodeHwAccelerated => vec![],
        MetricId::TranscodeReasonSessions => vec!["reason"],
        MetricId::StreamBitrate => vec!["user", "media_type"],
        MetricId::StreamDirect => vec!["user", "type"],
        MetricId::TranscodeCompletion => vec!["user"],
        MetricId::PlayMethodSessions => vec!["method"],
        MetricId::SessionPlayPositionSeconds => vec!["user", "item_type"],
        MetricId::SessionRemoteAddress => vec!["user", "remote_address"],
        MetricId::LibraryItems => vec!["library_name", "library_type"],
        MetricId::ItemsByType => vec!["type"],
        MetricId::ItemsCount => vec![],
    }
}

/// Each media type's series carries the count of that type: after the
/// item-count section, `jellyfin_items_by_type{type=T}` holds the count of
/// the field named for `T`, whatever the registry held before.
pub proof fn lemma_items_by_type(reg: Registry, c: ItemCounts)
    ensures
        apply_ops(reg, item_count_section(c))((MetricId::ItemsByType, seq!["Movie"@])) == Some(
            Sample::Number(c.movie_count as int),
        ),
        apply_ops(reg, item_count_section(c))((MetricId::ItemsByType, seq!["Series"@])) == Some(
            Sample::Number(c.series_count as int),
        ),
        apply_ops(reg, item_count_section(c))((MetricId::ItemsByType, seq!["Episode"@])) == Some(
            Sample::Number(c.episode_count as int),
        ),
        apply_ops(reg, item_count_section(c))((MetricId::ItemsByType, seq!["Book"@])) == Some(
            Sample::Number(c.book_count as int),
        ),
        apply_ops(reg, item_count_section(c))((MetricId::ItemsByType, seq!["Song"@])) == Some(
            Sample::Number(c.song_count as int),
        ),
        apply_ops(reg, item_count_section(c))((MetricId::ItemsByType, seq!["Album"@])) == Some(
            Sample::Number(c.album_count as int),
        ),
        apply_ops(reg, item_count_section(c))((MetricId::ItemsByType, seq!["Artist"@])) == Some(
            Sample::Number(c.artist_count as int),
        ),
        apply_ops(reg, item_count_section(c))((MetricId::ItemsByType, seq!["Trailer"@])) == Some(
            Sample::Number(c.trailer_count as int),
        ),
        apply_ops(reg, item_count_section(c))((MetricId::ItemsByType, seq!["MusicVideo"@])) == Some(
            Sample::Number(c.music_video_count as int),
        ),
        apply_ops(reg, item_count_section(c))((MetricId::ItemsByType, seq!["BoxSet"@])) == Some(
            Sample::Number(c.box_set_count as int),
        ),
{
    reveal_strlit("Movie");
    reveal_strlit("Series");
    reveal_strlit("Episode");
    reveal_strlit("Book");
    reveal_strlit("Song");
    reveal_strlit("Album");
    reveal_strlit("Artist");
    reveal_strlit("Trailer");
    reveal_strlit("MusicVideo");
    reveal_strlit("BoxSet");
    assert("Movie"@.len() == 5 && "Movie"@[0] == 'M');
    assert("Series"@.len() == 6 && "Series"@[0] == 'S');
    assert("Episode"@.len() == 7 && "Episode"@[0] == 'E');
    assert("Book"@.len() == 4 && "Book"@[0] == 'B');
    assert("Song"@.len() == 4 && "Song"@[0] == 'S');
    assert("Album"@.len() == 5 && "Album"@[0] == 'A');
    assert("Artist"@.len() == 6 && "Artist"@[0] == 'A');
    assert("Trailer"@.len() == 7 && "Trailer"@[0] == 'T');
    assert("MusicVideo"@.len() == 10 && "MusicVideo"@[0] == 'M');
    assert("BoxSet"@.len() == 6 && "BoxSet"@[0] == 'B');
    let sec = item_count_section(c);
    let k0 = (MetricId::ItemsByType, seq!["Movie"@]);
    assert(clears(sec[2], k0));
    assert forall|j: int| 2 < j < sec.len() implies !writes(#[trigger] sec[j], k0) by {
        if let OpView::Assign(_, l, _) = sec[j] {
            if l == k0.1 {
                assert(l[0] == k0.1[0]);
            }
        }
    }
    lemma_cleared_value(reg, sec, k0, 2);
    let k1 = (MetricId::ItemsByType, seq!["Series"@]);
    assert(clears(sec[3], k1));
    assert forall|j: int| 3 < j < sec.len() implies !writes(#[trigger] sec[j], k1) by {
        if let OpView::Assign(_, l, _) = sec[j] {
            if l == k1.1 {
                assert(l[0] == k1.1[0]);
            }
        }
    }
    lemma_cleared_value(reg, sec, k1, 3);
    let k2 = (MetricId::ItemsByType, seq!["Episode"@]);
    assert(clears(sec[4], k2));
    assert forall|j: int| 4 < j < sec.len() implies !writes(#[trigger] sec[j], k2) by {
        if let OpView::Assign(_, l, _) = sec[j] {
            if l == k2.1 {
                assert(l[0] == k2.1[0]);
            }
        }
    }
    lemma_cleared_value(reg, sec, k2, 4);
    let k3 = (MetricId::ItemsByType, seq!["Book"@]);
    assert(clears(sec[5], k3));
    assert forall|j: int| 5 < j < sec.len() implies !writes(#[trigger] sec[j], k3) by {
        if let OpView::Assign(_, l, _) = sec[j] {
            if l == k3.1 {
                assert(l[0] == k3.1[0]);
            }
        }
    }
    lemma_cleared_value(reg, sec, k3, 5);
    let k4 = (MetricId::ItemsByType, seq!["Song"@]);
    assert(clears(sec[6], k4));
    assert forall|j: int| 6 < j < sec.len() implies !writes(#[trigger] sec[j], k4) by {
        if let OpView::Assign(_, l, _) = sec[j] {
            if l == k4.1 {
                assert(l[0] == k4.1[0]);
            }
        }
    }
    lemma_cleared_value(reg, sec, k4, 6);
    let k5 = (MetricId::ItemsByType, seq!["Album"@]);
    assert(clears(sec[7], k5));
    assert forall|j: int| 7 < j < sec.len() implies !writes(#[trigger] sec[j], k5) by {
        if let OpView::Assign(_, l, _) = sec[j] {
            if l == k5.1 {
                assert(l[0] == k5.1[0]);
            }
        }
    }
    lemma_cleared_value(reg, sec, k5, 7);
    let k6 = (MetricId::ItemsByType, seq!["Artist"@]);
    assert(clears(sec[8], k6));
    assert forall|j: int| 8 < j < sec.len() implies !writes(#[trigger] sec[j], k6) by {
        if let OpView::Assign(_, l, _) = sec[j] {
            if l == k6.1 {
                assert(l[0] == k6.1[0]);
            }
        }
    }
    lemma_cleared_value(reg, sec, k6, 8);
    let k7 = (MetricId::ItemsByType, seq!["Trailer"@]);
    assert(clears(sec[9], k7));
    assert forall|j: int| 9 < j < sec.len() implies !writes(#[trigger] sec[j], k7) by {
        if let OpView::Assign(_, l, _) = sec[j] {
            if l == k7.1 {
                assert(l[0] == k7.1[0]);
            }
        }
    }
    lemma_cleared_value(reg, sec, k7, 9);
    let k8 = (MetricId::ItemsByType, seq!["MusicVideo"@]);
    assert(clears(sec[10], k8));
    assert forall|j: int| 10 < j < sec.len() implies !writes(#[trigger] sec[j], k8) by {
        if let OpView::Assign(_, l, _) = sec[j] {
            if l == k8.1 {
                assert(l[0] == k8.1[0]);
            }
        }
    }
    lemma_cleared_value(reg, sec, k8, 10);
    let k9 = (MetricId::ItemsByType, seq!["BoxSet"@]);
    assert(clears(sec[11], k9));
    assert forall|j: int| 11 < j < sec.len() implies !writes(#[trigger] sec[j], k9) by {
        if let OpView::Assign(_, l, _) = sec[j] {
            if l == k9.1 {
                assert(l[0] == k9.1[0]);
            }
        }
    }
    lemma_cleared_value(reg, sec, k9, 11);
}

proof fn lemma_stream_piece_spares(s: Session, m: MetricId)
    requires
        m != MetricId::TranscodesActive,
        m != MetricId::TranscodeCompletion,
        m != MetricId::TranscodeReasonSessions,
        m != MetricId::StreamDirect,
    ensures
        untouched(stream_piece(s), m),
{
    let user = label(s.user_name);
    if play_method_label(s) == "Transcode"@ {
        if let Some(t) = s.transcoding_info {
            let inc = seq![
                OpView::Inc(
                    MetricId::TranscodesActive,
                    seq![crate::collector::codec_label(t.video_codec), crate::collector::codec_label(t.audio_codec)],
                ),
            ];
            assert(untouched(inc, m));
            assert(untouched(completion_piece(user, t), m));
            match t.transcode_reasons {
                Some(v) => lemma_reason_updates_only_reasons(v@, m),
                None => {},
            }
            assert(untouched(reasons_piece(t), m));
            assert(untouched(direct_piece(user, t), m));
            lemma_untouched_concat(inc, completion_piece(user, t), m);
            lemma_untouched_concat(inc + completion_piece(user, t), reasons_piece(t), m);
            lemma_untouched_concat(
                inc + completion_piece(user, t) + reasons_piece(t),
                direct_piece(user, t),
                m,
            );
        }
    }
}

/// The stream bitrate written for an active session follows a fallback
/// chain: the transcoder's bitrate when it reports one; otherwise the
/// playing item's own bitrate, whatever its media streams hold; only when
/// neither is known, the sum of the media streams' bitrates. The series is
/// keyed by the user and the lowercased media type.
pub proof fn lemma_bitrate_fallback(reg: Registry, s: Session, expose: bool)
    requires
        is_active(s),
    ensures
        ({
            let item = s.now_playing_item->Some_0;
            let transcoded = match s.transcoding_info {
                Some(t) => t.bitrate,
                None => None,
            };
            let after = apply_ops(reg, session_updates(s, expose))(
                (MetricId::StreamBitrate, seq![label(s.user_name), media_type_label(item)]),
            );
            &&& (transcoded is Some && transcoded->Some_0 > 0 ==> after == Some(
                Sample::Number(transcoded->Some_0 as int),
            ))
            &&& (transcoded is None && item.bitrate is Some && item.bitrate->Some_0 > 0 ==> after
                == Some(Sample::Number(item.bitrate->Some_0 as int)))
            &&& (transcoded is None && item.bitrate is None && item.media_streams is Some && 0
                < streams_total(item.media_streams->Some_0@) <= u64::MAX ==> after == Some(
                Sample::Number(streams_total(item.media_streams->Some_0@) as int),
            ))
        }),
{
    let k = (MetricId::StreamBitrate, seq![label(s.user_name), media_type_label(s.now_playing_item->Some_0)]);
    let pre = session_head(s) + position_piece(s) + remote_piece(s, expose);
    assert(session_updates(s, expose) == pre + bitrate_piece(s) + stream_piece(s));
    lemma_apply_concat(reg, pre + bitrate_piece(s), stream_piece(s));
    lemma_apply_concat(reg, pre, bitrate_piece(s));
    lemma_stream_piece_spares(s, MetricId::StreamBitrate);
    lemma_untouched(apply_ops(reg, pre + bitrate_piece(s)), stream_piece(s), k.0, k.1);
    if session_bitrate(s) > 0 {
        let b = bitrate_piece(s);
        assert(b.drop_last() =~= Seq::<OpView>::empty());
    }
}

/// An update that sets a series, as opposed to counting a scrape error.
pub open spec fn not_scrape(op: OpView) -> bool {
    !(op is ScrapeError)
}

pub open spec fn no_scrape(ops: Seq<OpView>) -> bool {
    forall|i: int| 0 <= i < ops.len() ==> not_scrape(#[trigger] ops[i])
}

proof fn lemma_no_scrape_concat(a: Seq<OpView>, b: Seq<OpView>)
    requires
        no_scrape(a),
        no_scrape(b),
    ensures
        no_scrape(a + b),
{
    assert forall|i: int| 0 <= i < (a + b).len() implies not_scrape(#[trigger] (a + b)[i]) by {
        if i >= a.len() {
            assert((a + b)[i] == b[i - a.len()]);
        }
    }
}

proof fn lemma_transcode_no_scrape(user: Seq<char>, t: TranscodingInfo)
    ensures
        no_scrape(transcode_updates(user, t)),
{
    let head = seq![
        OpView::Inc(
            MetricId::TranscodesActive,
            seq![crate::collector::codec_label(t.video_codec), crate::collector::codec_label(t.audio_codec)],
        ),
    ];
    assert(no_scrape(head));
    assert(no_scrape(completion_piece(user, t)));
    assert(no_scrape(reasons_piece(t))) by {
        if let Some(v) = t.transcode_reasons {
            assert forall|i: int| 0 <= i < reason_updates(v@).len() implies not_scrape(
                #[trigger] reason_updates(v@)[i],
            ) by {
                assert(reason_updates(v@)[i] == reason_update(v@[i]));
            }
        }
    }
    assert(no_scrape(direct_piece(user, t))) by {
        let p = direct_piece(user, t);
        assert forall|i: int| 0 <= i < p.len() implies not_scrape(#[trigger] p[i]) by {}
    }
    lemma_no_scrape_concat(head, completion_piece(user, t));
    lemma_no_scrape_concat(head + completion_piece(user, t), reasons_piece(t));
    lemma_no_scrape_concat(
        head + completion_piece(user, t) + reasons_piece(t),
        direct_piece(user, t),
    );
}

proof fn lemma_session_no_scrape(s: Session, expose: bool)
    ensures
        no_scrape(session_updates(s, expose)),
{
    assert(no_scrape(session_head(s)));
    assert(no_scrape(position_piece(s)));
    assert(no_scrape(remote_piece(s, expose)));
    assert(no_scrape(bitrate_piece(s)));
    assert(no_scrape(stream_piece(s))) by {
        if play_method_label(s) == "Transcode"@ {
            if let Some(t) = s.transcoding_info {
                lemma_transcode_no_scrape(crate::collector::label(s.user_name), t);
            }
        }
    }
    lemma_no_scrape_concat(session_head(s), position_piece(s));
    lemma_no_scrape_concat(session_head(s) + position_piece(s), remote_piece(s, expose));
    lemma_no_scrape_concat(
        session_head(s) + position_piece(s) + remote_piece(s, expose),
        bitrate_piece(s),
    );
    lemma_no_scrape_concat(
        session_head(s) + position_piece(s) + remote_piece(s, expose) + bitrate_piece(s),
        stream_piece(s),
    );
}

proof fn lemma_all_sessions_no_scrape(sessions: Seq<Session>, expose: bool)
    ensures
        no_scrape(all_session_updates(sessions, expose)),
    decreases sessions.len(),
{
    if sessions.len() > 0 {
        lemma_all_sessions_no_scrape(sessions.drop_last(), expose);
        let piece = if is_active(sessions.last()) {
            session_updates(sessions.last(), expose)
        } else {
            Seq::<OpView>::empty()
        };
        if is_active(sessions.last()) {
            lemma_session_no_scrape(sessions.last(), expose);
        }
        lemma_no_scrape_concat(all_session_updates(sessions.drop_last(), expose), piece);
    }
}

proof fn lemma_sections_no_scrape(
    sessions: Result<Vec<Session>, CollectorError>,
    libraries: Result<Vec<LibraryWithCount>, CollectorError>,
    counts: Result<ItemCounts, CollectorError>,
    system: Result<SystemInfo, CollectorError>,
    expose: bool,
)
    ensures
        no_scrape(section_or(sessions, |v: Vec<Session>| session_section(v@, expose), session_resets())),
        no_scrape(section_or(libraries, |v: Vec<LibraryWithCount>| library_section(v@), seq![OpView::Reset(MetricId::LibraryItems)])),
        no_scrape(section_or(counts, |c: ItemCounts| item_count_section(c), item_count_resets())),
        no_scrape(section_or(system, |i: SystemInfo| system_section(i), seq![OpView::Reset(MetricId::ServerInfo)])),
        no_scrape(stale_updates()),
{
    let fs = |v: Vec<Session>| session_section(v@, expose);
    let fl = |v: Vec<LibraryWithCount>| library_section(v@);
    let fc = |c: ItemCounts| item_count_section(c);
    let fy = |i: SystemInfo| system_section(i);
    assert(no_scrape(session_resets()));
    if let Ok(v) = sessions {
        let tail = seq![
            OpView::Assign(
                MetricId::TranscodeHwAccelerated,
                Seq::empty(),
                MetricValue::Count(count_sessions(v@, hw_pred()) as u64),
            ),
            OpView::Assign(
                MetricId::PlayMethodSessions,
                seq!["DirectPlay"@],
                MetricValue::Count(count_sessions(v@, method_pred("DirectPlay"@)) as u64),
            ),
            OpView::Assign(
                MetricId::PlayMethodSessions,
                seq!["Transcode"@],
                MetricValue::Count(count_sessions(v@, method_pred("Transcode"@)) as u64),
            ),
            OpView::Assign(
                MetricId::PlayMethodSessions,
                seq!["DirectStream"@],
                MetricValue::Count(count_sessions(v@, method_pred("DirectStream"@)) as u64),
            ),
        ];
        let count = seq![
            OpView::Assign(
                MetricId::SessionsActiveCount,
                Seq::empty(),
                MetricValue::Count(count_sessions(v@, active_pred()) as u64),
            ),
        ];
        assert(no_scrape(tail));
        assert(no_scrape(count));
        lemma_all_sessions_no_scrape(v@, expose);
        lemma_no_scrape_concat(session_resets(), count);
        lemma_no_scrape_concat(session_resets() + count, all_session_updates(v@, expose));
        lemma_no_scrape_concat(
            session_resets() + count + all_session_updates(v@, expose),
            tail,
        );
        assert(session_section(v@, expose) == session_resets() + count + all_session_updates(
            v@,
            expose,
        ) + tail);
    }
    if let Ok(v) = libraries {
        let per = v@.map_values(|l: LibraryWithCount| library_update(l));
        assert forall|i: int| 0 <= i < per.len() implies not_scrape(#[trigger] per[i]) by {
            assert(per[i] == library_update(v@[i]));
        }
        lemma_no_scrape_concat(seq![OpView::Reset(MetricId::LibraryItems)], per);
    }
    assert(no_scrape(item_count_resets()));
    if let Ok(c) = counts {
        let s = item_count_section(c);
        assert forall|i: int| 0 <= i < s.len() implies not_scrape(#[trigger] s[i]) by {}
    }
    if let Ok(i) = system {
        assert(no_scrape(system_section(i)));
    }
    assert(no_scrape(seq![OpView::Reset(MetricId::LibraryItems)]));
    assert(no_scrape(seq![OpView::Reset(MetricId::ServerInfo)]));
                    assert(no_scrape(stale_updates()));
}

/// The kinds of the scrape errors that a list of updates counts, in order.
pub open spec fn scrape_kinds(ops: Seq<OpView>) -> Seq<Seq<char>>
    decreases ops.len(),
{
    if ops.len() == 0 {
        Seq::empty()
    } else {
        scrape_kinds(ops.drop_last()) + match ops.last() {
            OpView::ScrapeError(k) => seq![k],
            _ => Seq::empty(),
        }
    }
}

proof fn lemma_scrape_kinds_concat(a: Seq<OpView>, b: Seq<OpView>)
    ensures
        scrape_kinds(a + b) == scrape_kinds(a) + scrape_kinds(b),
    decreases b.len(),
{
    if b.len() == 0 {
        assert(a + b =~= a);
        assert(scrape_kinds(a) + scrape_kinds(b) =~= scrape_kinds(a));
    } else {
        lemma_scrape_kinds_concat(a, b.drop_last());
        assert((a + b).drop_last() =~= a + b.drop_last());
        assert((a + b).last() == b.last());
        assert(scrape_kinds(a + b) =~= scrape_kinds(a) + scrape_kinds(b));
    }
}

proof fn lemma_scrape_kinds_none(ops: Seq<OpView>)
    requires
        no_scrape(ops),
    ensures
        scrape_kinds(ops) == Seq::<Seq<char>>::empty(),
    decreases ops.len(),
{
    if ops.len() > 0 {
        assert(not_scrape(ops[ops.len() - 1]));
        assert forall|i: int| 0 <= i < ops.drop_last().len() implies not_scrape(
            #[trigger] ops.drop_last()[i],
        ) by {
            assert(ops.drop_last()[i] == ops[i]);
        }
        lemma_scrape_kinds_none(ops.drop_last());
        assert(scrape_kinds(ops) =~= Seq::<Seq<char>>::empty());
    }
}

/// The kind under which a failed fetch is counted, as one entry, or
/// nothing for a successful fetch.
pub open spec fn failure_kinds<T>(r: Result<T, CollectorError>) -> Seq<Seq<char>> {
    match r {
        Ok(_) => Seq::empty(),
        Err(CollectorError::CircuitOpen) => seq!["circuit_open"@],
        Err(CollectorError::Api(ClientError::Http(_))) => seq!["http"@],
        Err(CollectorError::Api(ClientError::Timeout)) => seq!["timeout"@],
        Err(CollectorError::Api(ClientError::Deserialization(_))) => seq!["parse"@],
    }
}

/// A cycle counts every failed fetch exactly once, under the kind of its
/// failure (`circuit_open` for a refusal, `http`, `timeout` or `parse` for a
/// failed call), in the order sessions, libraries, item counts, system
/// information, and counts nothing else; so the number of scrape-error
/// updates is the number of failed fetches.
pub proof fn lemma_scrape_errors_counted(
    sessions: Result<Vec<Session>, CollectorError>,
    libraries: Result<Vec<LibraryWithCount>, CollectorError>,
    counts: Result<ItemCounts, CollectorError>,
    system: Result<SystemInfo, CollectorError>,
    expose: bool,
)
    ensures
        scrape_kinds(cycle_updates(sessions, libraries, counts, system, expose)) == failure_kinds(
            sessions,
        ) + failure_kinds(libraries) + failure_kinds(counts) + failure_kinds(system),
        scrape_kinds(cycle_updates(sessions, libraries, counts, system, expose)).len() == (if sessions is Err {
            1int
        } else {
            0int
        }) + (if libraries is Err {
            1int
        } else {
            0int
        }) + (if counts is Err {
            1int
        } else {
            0int
        }) + (if system is Err {
            1int
        } else {
            0int
        }),
{
    lemma_sections_no_scrape(sessions, libraries, counts, system, expose);
    let fs = |v: Vec<Session>| session_section(v@, expose);
    let fl = |v: Vec<LibraryWithCount>| library_section(v@);
    let fc = |c: ItemCounts| item_count_section(c);
    let fy = |i: SystemInfo| system_section(i);
    let e1 = error_update(sessions);
    let e2 = error_update(libraries);
    let e3 = error_update(counts);
    let e4 = error_update(system);
    let s1 = section_or(sessions, fs, session_resets());
    let s2 = section_or(libraries, fl, seq![OpView::Reset(MetricId::LibraryItems)]);
    let s3 = section_or(counts, fc, item_count_resets());
    let s4 = section_or(system, fy, seq![OpView::Reset(MetricId::ServerInfo)]);
    reveal_with_fuel(scrape_kinds, 2);
    assert(scrape_kinds(e1) =~= failure_kinds(sessions)) by {
        if sessions is Err {
            assert(e1.drop_last() =~= Seq::<OpView>::empty());
        }
    }
    assert(scrape_kinds(e2) =~= failure_kinds(libraries)) by {
        if libraries is Err {
            assert(e2.drop_last() =~= Seq::<OpView>::empty());
        }
    }
    assert(scrape_kinds(e3) =~= failure_kinds(counts)) by {
        if counts is Err {
            assert(e3.drop_last() =~= Seq::<OpView>::empty());
        }
    }
    assert(scrape_kinds(e4) =~= failure_kinds(system)) by {
        if system is Err {
            assert(e4.drop_last() =~= Seq::<OpView>::empty());
        }
    }
    lemma_scrape_kinds_concat(e1, e2);
    lemma_scrape_kinds_concat(e1 + e2, e3);
    lemma_scrape_kinds_concat(e1 + e2 + e3, e4);
    let e = e1 + e2 + e3 + e4;
    let f = failure_kinds(sessions) + failure_kinds(libraries) + failure_kinds(counts)
        + failure_kinds(system);
    assert(scrape_kinds(e) == f);
    if all_refused(sessions, libraries, counts, system) {
        lemma_scrape_kinds_concat(e, stale_updates());
        lemma_scrape_kinds_none(stale_updates());
        assert(scrape_kinds(e + stale_updates()) =~= f);
    } else {
        lemma_scrape_kinds_none(s1);
        lemma_scrape_kinds_none(s2);
        lemma_scrape_kinds_none(s3);
        lemma_scrape_kinds_none(s4);
        lemma_scrape_kinds_concat(e, s1);
        lemma_scrape_kinds_concat(e + s1, s2);
        lemma_scrape_kinds_concat(e + s1 + s2, s3);
        lemma_scrape_kinds_concat(e + s1 + s2 + s3, s4);
        assert(cycle_updates(sessions, libraries, counts, system, expose) == e + s1 + s2 + s3 + s4);
        assert(scrape_kinds(e + s1 + s2 + s3 + s4) =~= f);
    }
}

/// The series an active session sets for itself: it is listed as active
/// under its user, client, play method and device (in that label order);
/// its paused series reads 1 exactly when the play state says it is paused
/// (0 when the state or the flag is missing); and a session that is not
/// transcoding has both its video and its audio marked direct.
pub proof fn lemma_session_own_series(reg: Registry, s: Session, expose: bool)
    requires
        is_active(s),
    ensures
        ({
            let user = label(s.user_name);
            let client = label(s.client);
            let device = label(s.device_name);
            let after = apply_ops(reg, session_updates(s, expose));
            let is_paused = match s.play_state {
                Some(ps) => ps.is_paused == Some(true),
                None => false,
            };
            &&& after(
                (MetricId::SessionsActive, seq![user, client, play_method_label(s), device]),
            ) == Some(Sample::Number(1))
            &&& after((MetricId::SessionPaused, seq![user, client, device])) == Some(
                Sample::Number(
                    if is_paused {
                        1
                    } else {
                        0
                    },
                ),
            )
            &&& (play_method_label(s) != "Transcode"@ ==> after(
                (MetricId::StreamDirect, seq![user, "video"@]),
            ) == Some(Sample::Number(1)) && after((MetricId::StreamDirect, seq![user, "audio"@]))
                == Some(Sample::Number(1)))
        }),
{
    reveal_strlit("video");
    reveal_strlit("audio");
    let user = label(s.user_name);
    let head = session_head(s);
    let mid = position_piece(s) + remote_piece(s, expose) + bitrate_piece(s);
    assert(session_updates(s, expose) =~= head + mid + stream_piece(s));
    lemma_apply_concat(reg, head + mid, stream_piece(s));
    lemma_apply_concat(reg, head, mid);
    reveal_with_fuel(apply_ops, 3);
    assert(head.drop_last() =~= seq![head[0]]);
    assert(head.drop_last().drop_last() =~= Seq::<OpView>::empty());
    let ka = (MetricId::SessionsActive, seq![user, label(s.client), play_method_label(s), label(s.device_name)]);
    let kp = (MetricId::SessionPaused, seq![user, label(s.client), label(s.device_name)]);
    assert(untouched(mid, MetricId::SessionsActive));
    assert(untouched(mid, MetricId::SessionPaused));
    lemma_untouched(apply_ops(reg, head), mid, ka.0, ka.1);
    lemma_untouched(apply_ops(reg, head), mid, kp.0, kp.1);
    lemma_stream_piece_spares(s, MetricId::SessionsActive);
    lemma_stream_piece_spares(s, MetricId::SessionPaused);
    lemma_untouched(apply_ops(reg, head + mid), stream_piece(s), ka.0, ka.1);
    lemma_untouched(apply_ops(reg, head + mid), stream_piece(s), kp.0, kp.1);
    if play_method_label(s) != "Transcode"@ {
        let st = stream_piece(s);
        assert(st.drop_last() =~= seq![st[0]]);
        assert(st.drop_last().drop_last() =~= Seq::<OpView>::empty());
        assert(seq![user, "video"@] != seq![user, "audio"@]) by {
            assert(seq![user, "video"@][1][0] != seq![user, "audio"@][1][0]);
        }
    }
}

/// The server-information section leaves exactly one series: the server's
/// version, operating system and name (in that label order, sanitized)
/// with the value 1; no other label set survives.
pub proof fn lemma_server_info_series(reg: Registry, info: SystemInfo, l: Seq<Seq<char>>)
    ensures
        ({
            let key = seq![
                sanitized(Some(info.version@)),
                sanitized(Some(info.operating_system@)),
                sanitized(Some(info.server_name@)),
            ];
            let after = apply_ops(reg, system_section(info));
            &&& after((MetricId::ServerInfo, key)) == Some(Sample::Number(1))
            &&& (l != key ==> after((MetricId::ServerInfo, l)) == None::<Sample>)
        }),
{
    reveal_with_fuel(apply_ops, 3);
    let sec = system_section(info);
    assert(sec.drop_last() =~= seq![sec[0]]);
    assert(sec.drop_last().drop_last() =~= Seq::<OpView>::empty());
}

/// The library labels of a library: its sanitized name and type.
pub open spec fn library_labels(l: LibraryWithCount) -> Seq<Seq<char>> {
    seq![sanitized(Some(l.name@)), sanitized(Some(l.collection_type@))]
}

/// The library section sets each library's series, labelled with its name
/// and type (in that order), to its item count, unless a later library
/// carries the same labels; and it leaves no series whose labels no library
/// carries.
pub proof fn lemma_library_series(reg: Registry, v: Seq<LibraryWithCount>, i: int, l: Seq<Seq<char>>)
    requires
        0 <= i < v.len(),
        forall|j: int| i < j < v.len() ==> library_labels(#[trigger] v[j]) != library_labels(v[i]),
    ensures
        apply_ops(reg, library_section(v))((MetricId::LibraryItems, library_labels(v[i])))
            == Some(Sample::Number(v[i].item_count as int)),
        (forall|j: int| 0 <= j < v.len() ==> library_labels(#[trigger] v[j]) != l) ==> apply_ops(
            reg,
            library_section(v),
        )((MetricId::LibraryItems, l)) == None::<Sample>,
{
    let sec = library_section(v);
    let per = v.map_values(|x: LibraryWithCount| library_update(x));
    assert(sec == seq![OpView::Reset(MetricId::LibraryItems)] + per);
    assert forall|j: int| 0 <= j < v.len() implies sec[j + 1] == library_update(#[trigger] v[j]) by {
        assert(sec[j + 1] == per[j]);
    }
    let k = (MetricId::LibraryItems, library_labels(v[i]));
    assert(sec[i + 1] == library_update(v[i]));
    assert(clears(sec[i + 1], k));
    assert forall|j: int| i + 1 < j < sec.len() implies !writes(#[trigger] sec[j], k) by {
        assert(sec[j] == library_update(v[j - 1]));
    }
    lemma_cleared_value(reg, sec, k, i + 1);
    if forall|j: int| 0 <= j < v.len() ==> library_labels(#[trigger] v[j]) != l {
        let k2 = (MetricId::LibraryItems, l);
        assert(clears(sec[0], k2));
        assert forall|j: int| 0 < j < sec.len() implies !writes(#[trigger] sec[j], k2) by {
            assert(sec[j] == library_update(v[j - 1]));
        }
        lemma_cleared_value(reg, sec, k2, 0);
    }
}

} // verus!

//! The laws of the state machine, proved once over the abstract
//! transitions: the machine's invariant survives every operation, the
//! loaded item is never also queued, the event log stays chronological and
//! legal, the queue's length is exactly accounted for, and `play` is
//! idempotent.

use crate::player::{history_legal, legal_at, paused, played, BackendState, EventType, EventV,
    PlayerV};
use crate::source::{Handle, SourceV};
use vstd::prelude::*;

verus! {

/// Pushing an event keeps every `played`/`paused` witness, and a pushed
/// `Play`/`Pause` becomes one.
proof fn lemma_witness_push(h: Seq<EventV>, e: EventV, s: SourceV)
    ensures
        played(h, s) ==> played(h.push(e), s),
        paused(h, s) ==> paused(h.push(e), s),
        e == (EventV { ty: EventType::Play, src: s }) ==> played(h.push(e), s),
        e == (EventV { ty: EventType::Pause, src: s }) ==> paused(h.push(e), s),
{
    if played(h, s) {
        let j = choose|j: int|
            0 <= j < h.len() && #[trigger] h[j] == (EventV { ty: EventType::Play, src: s });
        assert(h.push(e)[j] == h[j]);
    }
    if paused(h, s) {
        let j = choose|j: int|
            0 <= j < h.len() && #[trigger] h[j] == (EventV { ty: EventType::Pause, src: s });
        assert(h.push(e)[j] == h[j]);
    }
    if e == (EventV { ty: EventType::Play, src: s }) {
        assert(h.push(e)[h.len() as int] == e);
    }
    if e == (EventV { ty: EventType::Pause, src: s }) {
        assert(h.push(e)[h.len() as int] == e);
    }
}

/// An event justified by the history may be appended: the history stays
/// legal.
proof fn lemma_legal_push(h: Seq<EventV>, e: EventV)
    requires
        history_legal(h),
        e.ty == EventType::Pause ==> played(h, e.src),
        e.ty == EventType::Resume ==> paused(h, e.src),
        e.ty == EventType::Stop ==> played(h, e.src),
    ensures
        history_legal(h.push(e)),
{
    let h2 = h.push(e);
    assert forall|i: int| 0 <= i < h2.len() implies #[trigger] legal_at(h2, i) by {
        if i < h.len() {
            assert(legal_at(h, i));
            assert(h2.take(i) =~= h.take(i));
            assert(h2[i] == h[i]);
        } else {
            assert(h2.take(i) =~= h);
            assert(h2[i] == e);
        }
    }
}

/// Emitting a justified event keeps the log pieces of the invariant: the
/// pending events stay the history's suffix and the history stays legal.
proof fn lemma_emit_log(m: PlayerV, e: EventV)
    requires
        m.events.len() <= m.history.len(),
        m.events == m.history.skip(m.history.len() - m.events.len()),
        history_legal(m.history),
        e.ty == EventType::Pause ==> played(m.history, e.src),
        e.ty == EventType::Resume ==> paused(m.history, e.src),
        e.ty == EventType::Stop ==> played(m.history, e.src),
    ensures
        m.emit(e).events.len() <= m.emit(e).history.len(),
        m.emit(e).events == m.emit(e).history.skip(
            m.emit(e).history.len() - m.emit(e).events.len(),
        ),
        history_legal(m.emit(e).history),
{
    lemma_legal_push(m.history, e);
    let d = m.history.len() - m.events.len();
    assert(m.history.push(e).skip(d) =~= m.history.skip(d).push(e));
}

/// The machine starts well-formed.
pub proof fn lemma_init_wf()
    ensures
        PlayerV::init().wf(),
{
    assert(PlayerV::init().events =~= PlayerV::init().history.skip(0));
}

/// Promotion preserves the invariant whenever nothing is loaded.
proof fn lemma_start_wf(m: PlayerV, s: SourceV, o: Option<Handle>)
    requires
        m.wf(),
        m.current is None,
    ensures
        m.start_playing_spec(s, o).wf(),
{
    match o {
        Some(h) => {
            let m1 = PlayerV {
                current: Some(crate::player::LoadedMusicV { src: s, media: h }),
                backend: BackendState::Playing,
                cache: m.cache.insert(s, h),
                ..m
            };
            let e = EventV { ty: EventType::Play, src: s };
            lemma_emit_log(m1, e);
            lemma_witness_push(m.history, e, s);
        },
        None => {
            assert(m.start_playing_spec(s, o) =~~= m);
        },
    }
}

/// Halting the current item preserves the invariant and leaves nothing
/// loaded.
proof fn lemma_halt_wf(m: PlayerV)
    requires
        m.wf(),
    ensures
        m.halt_current_spec().wf(),
        m.halt_current_spec().current is None,
        m.halt_current_spec().cache == m.cache,
        m.halt_current_spec().queue == m.queue,
{
    match m.current {
        Some(mm) => {
            let m1 = PlayerV { current: None, backend: BackendState::Stopped, ..m };
            let e = EventV { ty: EventType::Stop, src: mm.src };
            lemma_emit_log(m1, e);
        },
        None => {},
    }
}

/// `queue` preserves the invariant.
pub proof fn lemma_queue_wf(m: PlayerV, s: SourceV, o: Option<Handle>)
    requires
        m.wf(),
    ensures
        m.queue_spec(s, o).wf(),
{
    if m.current is None {
        lemma_start_wf(m, s, o);
    }
}

/// `skip` preserves the invariant, whatever the load outcome.
pub proof fn lemma_skip_wf(m: PlayerV, o: Option<Handle>)
    requires
        m.wf(),
    ensures
        m.skip_spec(o).wf(),
{
    let m1 = PlayerV {
        current: None,
        backend: if m.backend == BackendState::Playing || m.backend == BackendState::Paused {
            BackendState::Stopped
        } else {
            m.backend
        },
        ..m
    };
    assert(m1.wf());
    if m1.queue.len() > 0 {
        let m2 = PlayerV { queue: m1.queue.drop_first(), ..m1 };
        assert(m2.wf());
        lemma_start_wf(m2, m1.queue[0], o);
    }
}

/// `play_now` preserves the invariant.
pub proof fn lemma_play_now_wf(m: PlayerV, s: SourceV, o: Option<Handle>)
    requires
        m.wf(),
    ensures
        m.play_now_spec(s, o).wf(),
{
    lemma_halt_wf(m);
    lemma_start_wf(m.halt_current_spec(), s, o);
}

/// `play` preserves the invariant.
pub proof fn lemma_play_wf(m: PlayerV, o: Option<Handle>)
    requires
        m.wf(),
    ensures
        m.play_spec(o).wf(),
{
    if m.backend != BackendState::Playing {
        match m.current {
            Some(mm) => {
                let ty = if m.backend == BackendState::Paused {
                    EventType::Resume
                } else {
                    EventType::Play
                };
                let m1 = PlayerV { backend: BackendState::Playing, ..m };
                let e = EventV { ty, src: mm.src };
                lemma_emit_log(m1, e);
                lemma_witness_push(m.history, e, mm.src);
            },
            None => {
                lemma_skip_wf(m, o);
            },
        }
    }
}

/// `pause` preserves the invariant.
pub proof fn lemma_pause_wf(m: PlayerV)
    requires
        m.wf(),
    ensures
        m.pause_spec().wf(),
{
    match m.current {
        Some(mm) => {
            if m.backend == BackendState::Playing {
                let m1 = PlayerV { backend: BackendState::Paused, ..m };
                let e = EventV { ty: EventType::Pause, src: mm.src };
                lemma_emit_log(m1, e);
                lemma_witness_push(m.history, e, mm.src);
            }
        },
        None => {},
    }
}

/// `stop` preserves the invariant.
pub proof fn lemma_stop_wf(m: PlayerV)
    requires
        m.wf(),
    ensures
        m.stop_spec().wf(),
{
    lemma_halt_wf(m);
}

/// `toggle_playing` preserves the invariant.
pub proof fn lemma_toggle_wf(m: PlayerV, o: Option<Handle>)
    requires
        m.wf(),
    ensures
        m.toggle_spec(o).wf(),
{
    if m.backend != BackendState::Playing {
        lemma_play_wf(m, o);
    } else {
        lemma_pause_wf(m);
    }
}

/// Recording an end-of-track signal preserves the invariant.
pub proof fn lemma_notify_wf(m: PlayerV)
    requires
        m.wf(),
    ensures
        m.notify_spec().wf(),
{
}

/// `poll` preserves the invariant, whatever the load outcome of the
/// advance it may perform.
pub proof fn lemma_poll_wf(m: PlayerV, o: Option<Handle>)
    requires
        m.wf(),
    ensures
        m.poll_spec(o).0.wf(),
{
    if m.ended {
        let m1 = PlayerV { ended: false, ..m };
        assert(m1.wf());
        lemma_skip_wf(m1, o);
    }
    let a = m.poll_advance_spec(o);
    assert(a.wf());
    if a.events.len() > 0 {
        let d = a.history.len() - a.events.len();
        assert(a.events.drop_first() =~= a.history.skip(d + 1));
    }
}

/// At most one item is ever loaded — the machine holds an `Option` — and,
/// as long as no source is queued twice, the loaded item is never also in
/// the queue: the queued sources are pairwise distinct and the current
/// item is not among them.
pub open spec fn current_not_queued(m: PlayerV) -> bool {
    &&& (forall|i: int, j: int| 0 <= i < j < m.queue.len() ==> m.queue[i] != m.queue[j])
    &&& (m.current matches Some(c) ==> !m.queue.contains(c.src))
}

/// The machine starts with nothing queued and nothing loaded.
pub proof fn lemma_init_not_queued()
    ensures
        current_not_queued(PlayerV::init()),
{
}

/// Promotion keeps the queue distinct and the new item out of it, as long
/// as the promoted source is not queued.
proof fn lemma_start_not_queued(m: PlayerV, s: SourceV, o: Option<Handle>)
    requires
        current_not_queued(m),
        !m.queue.contains(s),
    ensures
        current_not_queued(m.start_playing_spec(s, o)),
{
}

/// `queue` keeps the loaded item out of the queue, as long as the queued
/// source is fresh: neither already queued nor the current item.
pub proof fn lemma_queue_not_queued(m: PlayerV, s: SourceV, o: Option<Handle>)
    requires
        current_not_queued(m),
        !m.queue.contains(s),
        m.current matches Some(c) ==> c.src != s,
    ensures
        current_not_queued(m.queue_spec(s, o)),
{
    if m.current is Some {
        let q2 = m.queue.push(s);
        assert forall|i: int, j: int| 0 <= i < j < q2.len() implies q2[i] != q2[j] by {
            if j < m.queue.len() {
            } else {
                assert(q2[j] == s);
                assert(!m.queue.contains(s));
                assert(q2[i] == m.queue[i]);
            }
        }
        if m.current is Some {
            let c = m.current->Some_0;
            assert forall|i: int| 0 <= i < q2.len() implies q2[i] != c.src by {
                if i < m.queue.len() {
                    assert(!m.queue.contains(c.src));
                    assert(m.queue[i] != c.src);
                }
            }
            assert(!q2.contains(c.src));
        }
    } else {
        lemma_start_not_queued(m, s, o);
    }
}

/// `skip` keeps the queue distinct and the freshly promoted head out of
/// the remaining tail.
pub proof fn lemma_skip_not_queued(m: PlayerV, o: Option<Handle>)
    requires
        current_not_queued(m),
    ensures
        current_not_queued(m.skip_spec(o)),
{
    if m.queue.len() > 0 {
        let tail = m.queue.drop_first();
        assert forall|i: int, j: int| 0 <= i < j < tail.len() implies tail[i] != tail[j] by {
            assert(tail[i] == m.queue[i + 1]);
            assert(tail[j] == m.queue[j + 1]);
        }
        assert(!tail.contains(m.queue[0])) by {
            if tail.contains(m.queue[0]) {
                let i = choose|i: int| 0 <= i < tail.len() && tail[i] == m.queue[0];
                assert(m.queue[i + 1] == m.queue[0]);
            }
        }
        let m1 = PlayerV {
            current: None,
            backend: if m.backend == BackendState::Playing || m.backend
                == BackendState::Paused {
                BackendState::Stopped
            } else {
                m.backend
            },
            ..m
        };
        let m2 = PlayerV { queue: tail, ..m1 };
        lemma_start_not_queued(m2, m.queue[0], o);
    }
}

/// `play_now` keeps the queue distinct and the preempting source out of
/// it, as long as that source is not queued.
pub proof fn lemma_play_now_not_queued(m: PlayerV, s: SourceV, o: Option<Handle>)
    requires
        current_not_queued(m),
        !m.queue.contains(s),
    ensures
        current_not_queued(m.play_now_spec(s, o)),
{
    lemma_start_not_queued(m.halt_current_spec(), s, o);
}

/// `play`, `pause`, `stop`, `toggle_playing`, `poll` and the end-of-track
/// note never put the loaded item into the queue.
pub proof fn lemma_others_not_queued(m: PlayerV, o: Option<Handle>)
    requires
        current_not_queued(m),
    ensures
        current_not_queued(m.play_spec(o)),
        current_not_queued(m.pause_spec()),
        current_not_queued(m.stop_spec()),
        current_not_queued(m.toggle_spec(o)),
        current_not_queued(m.poll_spec(o).0),
        current_not_queued(m.notify_spec()),
{
    lemma_skip_not_queued(m, o);
    if m.ended {
        lemma_skip_not_queued(PlayerV { ended: false, ..m }, o);
    }
}

/// The queue's length is exactly accounted for: `queue` grows it by one
/// exactly when something is already loaded, promotion and the pulls of
/// `skip` and `play` consume exactly the head, `stop` discards it whole,
/// and nothing else touches it.
pub proof fn lemma_queue_accounting(m: PlayerV, s: SourceV, o: Option<Handle>)
    ensures
        m.current is Some ==> m.queue_spec(s, o).queue.len() == m.queue.len() + 1,
        m.current is None ==> m.queue_spec(s, o).queue.len() == m.queue.len(),
        m.queue.len() > 0 ==> m.skip_spec(o).queue.len() == m.queue.len() - 1,
        m.queue.len() == 0 ==> m.skip_spec(o).queue.len() == 0,
        m.stop_spec().queue.len() == 0,
        m.pause_spec().queue.len() == m.queue.len(),
        m.play_now_spec(s, o).queue.len() == m.queue.len(),
        m.needs_load() ==> m.play_spec(o).queue.len() == m.queue.len() - 1,
        !m.needs_load() ==> m.play_spec(o).queue.len() == m.queue.len(),
        m.notify_spec().queue.len() == m.queue.len(),
        m.ended && m.queue.len() > 0 ==> m.poll_spec(o).0.queue.len() == m.queue.len() - 1,
        !(m.ended && m.queue.len() > 0) ==> m.poll_spec(o).0.queue.len() == m.queue.len(),
{
}

/// Events drain oldest-first: the pending log is the undrained suffix of
/// the chronological history, and — absent a pending end-of-track advance
/// — `poll` hands out its head, leaving the rest in order.
pub proof fn lemma_poll_oldest_first(m: PlayerV, o: Option<Handle>)
    requires
        m.wf(),
        !m.ended,
    ensures
        m.poll_spec(o).1 == (if m.events.len() > 0 {
            Some(m.events[0])
        } else {
            None::<EventV>
        }),
        m.events.len() > 0 ==> m.poll_spec(o).0.events == m.events.drop_first(),
        m.events.len() > 0 ==> m.events[0] == m.history[m.history.len() - m.events.len()],
{
    if m.events.len() > 0 {
        let d = m.history.len() - m.events.len();
        assert(m.events[0] == m.history.skip(d)[0]);
    }
}

/// What any well-formed machine's log shows: every pending event stands in
/// the history, in order, and the history never shows an illegal order —
/// no `Resume` without an earlier `Pause` for the same source, no `Pause`
/// or `Stop` without an earlier `Play` for it.
pub proof fn lemma_log_chronological(m: PlayerV)
    requires
        m.wf(),
    ensures
        m.events == m.history.skip(m.history.len() - m.events.len()),
        history_legal(m.history),
{
}

/// `play` is idempotent: calling it twice in a row, with nothing changed
/// in between and the first call's load — if one was even needed —
/// succeeding, emits at most one event, and the second call changes
/// nothing at all.
pub proof fn lemma_play_idempotent(m: PlayerV, o1: Option<Handle>, o2: Option<Handle>)
    requires
        m.wf(),
        m.needs_load() ==> o1 is Some,
    ensures
        m.play_spec(o1).play_spec(o2) == m.play_spec(o1),
        m.play_spec(o1).events.len() <= m.events.len() + 1,
{
    let m1 = m.play_spec(o1);
    if m.backend == BackendState::Playing {
    } else if m.current is Some {
    } else if m.queue.len() > 0 {
    } else {
        assert(m1.play_spec(o2) =~~= m1);
    }
}

} // verus!

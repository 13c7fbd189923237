//! The playback state machine: the queue, the currently loaded item, the
//! modelled backend state, and the ordered log of playback events.
//!
//! Every operation is specified by a transition function on the machine's
//! abstract state (`PlayerV`).  The backend's load step is handed in as a
//! closure from a source to an optional handle; the state machine decides
//! everything else, including the fallback to idle when a load fails.

use crate::laws::{lemma_init_wf, lemma_notify_wf, lemma_pause_wf, lemma_play_now_wf,
    lemma_play_wf, lemma_poll_wf, lemma_queue_wf, lemma_skip_wf, lemma_stop_wf, lemma_toggle_wf};
use crate::source::{Handle, LoadError, Loader, Source, SourceV};
use std::collections::VecDeque;
use vstd::prelude::*;

verus! {

/// The kind of a playback state transition.
#[derive(PartialEq, Eq, Structural, Clone, Copy, Debug)]
pub enum EventType {
    Play,
    Pause,
    Resume,
    Stop,
}

/// The playback state the backend is in, as the machine has driven it.
#[derive(PartialEq, Eq, Structural, Clone, Copy, Debug)]
pub enum BackendState {
    NothingSpecial,
    Playing,
    Paused,
    Stopped,
}

/// A record of one state transition: what happened, and to which source.
#[derive(Debug)]
pub struct Event {
    pub ty: EventType,
    pub src: Source,
}

/// Spec-level shape of an event.
#[verifier::ext_equal]
pub struct EventV {
    pub ty: EventType,
    pub src: SourceV,
}

impl View for Event {
    type V = EventV;

    open spec fn view(&self) -> EventV {
        EventV { ty: self.ty, src: self.src@ }
    }
}

impl DeepView for Event {
    type V = EventV;

    open spec fn deep_view(&self) -> EventV {
        self.view()
    }
}

impl Clone for Event {
    fn clone(&self) -> (r: Event)
        ensures
            r == *self,
    {
        Event { ty: self.ty, src: self.src.clone() }
    }
}

impl PartialEq for Event {
    fn eq(&self, other: &Event) -> (r: bool) {
        self.ty == other.ty && self.src == other.src
    }
}

impl vstd::std_specs::cmp::PartialEqSpecImpl for Event {
    open spec fn obeys_eq_spec() -> bool {
        true
    }

    open spec fn eq_spec(&self, other: &Event) -> bool {
        self@ == other@
    }
}

impl Event {
    /// Pair an event type with the source it concerns.
    pub fn new(ty: EventType, src: Source) -> (e: Event)
        ensures
            e.ty == ty,
            e.src == src,
    {
        Event { ty, src }
    }
}

/// Spec-level shape of the currently loaded item.
#[verifier::ext_equal]
pub struct LoadedMusicV {
    pub src: SourceV,
    pub media: Handle,
}

/// The currently loaded item: a source paired with the handle the backend
/// prepared for it.  At most one exists at any time, owned by the player.
#[derive(Debug)]
pub struct LoadedMusic {
    pub src: Source,
    pub media: Handle,
}

impl View for LoadedMusic {
    type V = LoadedMusicV;

    open spec fn view(&self) -> LoadedMusicV {
        LoadedMusicV { src: self.src@, media: self.media }
    }
}

impl LoadedMusic {
    /// Resolve `source` through the loader — consulting `f` only on a cache
    /// miss — and pair it with the handle.
    pub fn new<F: FnOnce(Source) -> Option<Handle>>(
        loader: &mut Loader,
        source: Source,
        f: F,
    ) -> (r: Result<LoadedMusic, LoadError>)
        requires
            call_requires(f, (source,)),
        ensures
            match r {
                Ok(m) => {
                    &&& m.src == source
                    &&& final(loader).cache() == old(loader).cache().insert(source@, m.media)
                    &&& (if old(loader).cache().contains_key(source@) {
                        m.media == old(loader).cache()[source@] && *final(loader) == *old(loader)
                    } else {
                        call_ensures(f, (source,), Some(m.media))
                    })
                },
                Err(e) => {
                    &&& *final(loader) == *old(loader)
                    &&& e.src == source
                    &&& !old(loader).cache().contains_key(source@)
                    &&& call_ensures(f, (source,), None::<Handle>)
                },
            },
    {
        let kept = source.clone();
        match loader.get_media(source, f) {
            Ok(h) => {
                proof {
                    if old(loader).cache().contains_key(kept@) {
                        assert(old(loader).cache().insert(kept@, h) =~= old(loader).cache());
                    }
                }
                Ok(LoadedMusic { src: kept, media: h })
            },
            Err(e) => Err(e),
        }
    }
}

/// The abstract state of the player, over which every operation is
/// specified.
#[verifier::ext_equal]
pub struct PlayerV {
    /// The currently loaded item, if any — there is never more than one.
    pub current: Option<LoadedMusicV>,
    /// Sources awaiting promotion, oldest first.
    pub queue: Seq<SourceV>,
    /// The playback state the machine has driven the backend into.
    pub backend: BackendState,
    /// What the loader has cached.
    pub cache: Map<SourceV, Handle>,
    /// Events emitted and not yet drained, oldest first.
    pub events: Seq<EventV>,
    /// Every event ever emitted, in order; `events` is its suffix.
    pub history: Seq<EventV>,
    /// Whether the backend has signalled end-of-track since the last poll.
    pub ended: bool,
}

/// Whether `h` holds a `Play` event for `s`.
pub open spec fn played(h: Seq<EventV>, s: SourceV) -> bool {
    exists|j: int| 0 <= j < h.len() && #[trigger] h[j] == (EventV { ty: EventType::Play, src: s })
}

/// Whether `h` holds a `Pause` event for `s`.
pub open spec fn paused(h: Seq<EventV>, s: SourceV) -> bool {
    exists|j: int|
        0 <= j < h.len() && #[trigger] h[j] == (EventV { ty: EventType::Pause, src: s })
}

/// An event is legal at its position when the history before it justifies
/// it: a pause or stop needs the source to have been played, a resume needs
/// it to have been paused.
pub open spec fn legal_at(h: Seq<EventV>, i: int) -> bool {
    match h[i].ty {
        EventType::Play => true,
        EventType::Pause => played(h.take(i), h[i].src),
        EventType::Resume => paused(h.take(i), h[i].src),
        EventType::Stop => played(h.take(i), h[i].src),
    }
}

/// Every event in the history is justified by what precedes it: no `Resume`
/// without an earlier `Pause` for the same source, no `Pause` or `Stop`
/// without an earlier `Play` for it.
pub open spec fn history_legal(h: Seq<EventV>) -> bool {
    forall|i: int| 0 <= i < h.len() ==> #[trigger] legal_at(h, i)
}

impl PlayerV {
    /// The machine as it starts: nothing loaded, nothing queued, nothing
    /// emitted, backend untouched.
    pub open spec fn init() -> PlayerV {
        PlayerV {
            current: None,
            queue: Seq::empty(),
            backend: BackendState::NothingSpecial,
            cache: Map::empty(),
            events: Seq::empty(),
            history: Seq::empty(),
            ended: false,
        }
    }

    /// Append an event to the pending log and to the history.
    pub open spec fn emit(self, e: EventV) -> PlayerV {
        PlayerV { events: self.events.push(e), history: self.history.push(e), ..self }
    }

    /// Promotion of `s` to the current item.  With a handle the item is
    /// loaded, the backend plays it, the handle is cached and `Play` is
    /// emitted; without one the machine falls back to idle, leaving no
    /// phantom current item.
    pub open spec fn start_playing_spec(self, s: SourceV, o: Option<Handle>) -> PlayerV {
        match o {
            Some(h) => PlayerV {
                current: Some(LoadedMusicV { src: s, media: h }),
                backend: BackendState::Playing,
                cache: self.cache.insert(s, h),
                ..self
            }.emit(EventV { ty: EventType::Play, src: s }),
            None => PlayerV { current: None, ..self },
        }
    }

    /// Appending to the queue, nothing else.
    pub open spec fn enqueue_spec(self, s: SourceV) -> PlayerV {
        PlayerV { queue: self.queue.push(s), ..self }
    }

    /// `queue`: promote immediately when nothing is loaded, else append.
    pub open spec fn queue_spec(self, s: SourceV, o: Option<Handle>) -> PlayerV {
        if self.current is Some {
            self.enqueue_spec(s)
        } else {
            self.start_playing_spec(s, o)
        }
    }

    /// Halting whatever is current: emits `Stop` for it and stops the
    /// backend.  A no-op when nothing is loaded.
    pub open spec fn halt_current_spec(self) -> PlayerV {
        match self.current {
            Some(m) => PlayerV { current: None, backend: BackendState::Stopped, ..self }.emit(
                EventV { ty: EventType::Stop, src: m.src },
            ),
            None => self,
        }
    }

    /// `play_now`: preempt the current item — with a `Stop` for it — and
    /// promote `s`.
    pub open spec fn play_now_spec(self, s: SourceV, o: Option<Handle>) -> PlayerV {
        self.halt_current_spec().start_playing_spec(s, o)
    }

    /// `skip`: drop the current item — halting the backend silently,
    /// without a `Stop` event for it — and promote the queue's head.  With
    /// an empty queue the machine settles into idle.
    pub open spec fn skip_spec(self, o: Option<Handle>) -> PlayerV {
        let m = PlayerV {
            current: None,
            backend: if self.backend == BackendState::Playing || self.backend
                == BackendState::Paused {
                BackendState::Stopped
            } else {
                self.backend
            },
            ..self
        };
        if m.queue.len() > 0 {
            PlayerV { queue: m.queue.drop_first(), ..m }.start_playing_spec(m.queue[0], o)
        } else {
            m
        }
    }

    /// `pause`: pause the current item and emit `Pause`; a no-op when
    /// nothing is loaded or it is not playing.
    pub open spec fn pause_spec(self) -> PlayerV {
        match self.current {
            Some(m) => if self.backend == BackendState::Playing {
                PlayerV { backend: BackendState::Paused, ..self }.emit(
                    EventV { ty: EventType::Pause, src: m.src },
                )
            } else {
                self
            },
            None => self,
        }
    }

    /// Whether `play` would have to load something: nothing is playing,
    /// nothing is loaded, and the queue has a head to promote.
    pub open spec fn needs_load(self) -> bool {
        self.backend != BackendState::Playing && self.current is None && self.queue.len() > 0
    }

    /// `play`: resume or restart the current item — `Resume` from a pause,
    /// `Play` otherwise — pull the next queued item when nothing is loaded,
    /// and do nothing when already playing.
    pub open spec fn play_spec(self, o: Option<Handle>) -> PlayerV {
        if self.backend == BackendState::Playing {
            self
        } else {
            match self.current {
                Some(m) => {
                    let ty = if self.backend == BackendState::Paused {
                        EventType::Resume
                    } else {
                        EventType::Play
                    };
                    PlayerV { backend: BackendState::Playing, ..self }.emit(
                        EventV { ty, src: m.src },
                    )
                },
                None => self.skip_spec(o),
            }
        }
    }

    /// `stop`: emit `Stop` for the current item, clear it, and discard the
    /// whole queue.  A hard reset, unlike `skip`.
    pub open spec fn stop_spec(self) -> PlayerV {
        PlayerV { queue: Seq::empty(), ..self.halt_current_spec() }
    }

    /// `toggle_playing`: `play` when not playing, else `pause`.
    pub open spec fn toggle_spec(self, o: Option<Handle>) -> PlayerV {
        if self.backend != BackendState::Playing {
            self.play_spec(o)
        } else {
            self.pause_spec()
        }
    }

    /// Recording an end-of-track signal from the backend.
    pub open spec fn notify_spec(self) -> PlayerV {
        PlayerV { ended: true, ..self }
    }

    /// The queue advance a `poll` performs: when an end-of-track signal is
    /// pending, reset it and skip; otherwise nothing.
    pub open spec fn poll_advance_spec(self, o: Option<Handle>) -> PlayerV {
        if self.ended {
            PlayerV { ended: false, ..self }.skip_spec(o)
        } else {
            self
        }
    }

    /// `poll`: advance past a pending end-of-track signal, then hand out
    /// the oldest pending event, if any.
    pub open spec fn poll_spec(self, o: Option<Handle>) -> (PlayerV, Option<EventV>) {
        let m = self.poll_advance_spec(o);
        if m.events.len() > 0 {
            (PlayerV { events: m.events.drop_first(), ..m }, Some(m.events[0]))
        } else {
            (m, None)
        }
    }

    /// Well-formedness of the machine, preserved by every operation:
    /// the pending events are exactly the undrained suffix of the history,
    /// the history is legal, an item is loaded exactly while the backend is
    /// playing or paused, and the loaded item's past justifies the events
    /// that may yet be emitted for it.
    pub open spec fn wf(self) -> bool {
        &&& self.events.len() <= self.history.len()
        &&& self.events == self.history.skip(self.history.len() - self.events.len())
        &&& history_legal(self.history)
        &&& (self.current is Some <==> (self.backend == BackendState::Playing || self.backend
            == BackendState::Paused))
        &&& (self.current matches Some(m) ==> played(self.history, m.src))
        &&& (self.backend == BackendState::Paused ==> (self.current matches Some(m) ==> paused(
            self.history,
            m.src,
        )))
    }
}

/// What resolution hands back for a source whose view is `sv`: a cached
/// source is answered from the cache; otherwise the outcome is one the
/// load step `f` admits for some source of that view.
pub open spec fn resolves_from<F: FnOnce(Source) -> Option<Handle>>(
    m: PlayerV,
    f: F,
    sv: SourceV,
    o: Option<Handle>,
) -> bool {
    if m.cache.contains_key(sv) {
        o == Some(m.cache[sv])
    } else {
        exists|s0: Source| s0@ == sv && call_ensures(f, (s0,), o)
    }
}

/// How a promoting operation reports its load outcome: success is `Ok`,
/// and a failed load is an error naming the source that failed.
pub open spec fn load_reported(o: Option<Handle>, r: Result<(), LoadError>, sv: SourceV) -> bool {
    match o {
        Some(_) => r == Ok::<(), LoadError>(()),
        None => r matches Err(e) && e.src@ == sv,
    }
}

/// How `poll` reports an event: the returned event, if any, is exactly the
/// one the transition hands out.
pub open spec fn event_reported(r: Option<Event>, ev: Option<EventV>) -> bool {
    match r {
        Some(e) => ev == Some(e@),
        None => ev is None,
    }
}

/// The player: owns the queue, the current item, the loader's cache and
/// the event log, and decides every transition.  The real backend is a
/// collaborator: its load step comes in as a closure, and the caller drives
/// its play/pause/stop calls from the drained events.
pub struct Player {
    current: Option<LoadedMusic>,
    queue: VecDeque<Source>,
    backend: BackendState,
    pub loader: Loader,
    pub events: Vec<Event>,
    ended: bool,
    history: Ghost<Seq<EventV>>,
}

impl View for Player {
    type V = PlayerV;

    closed spec fn view(&self) -> PlayerV {
        PlayerV {
            current: match self.current {
                Some(m) => Some(LoadedMusicV { src: m.src@, media: m.media }),
                None => None,
            },
            queue: self.queue.deep_view(),
            backend: self.backend,
            cache: self.loader.cache(),
            events: self.events.deep_view(),
            history: self.history@,
            ended: self.ended,
        }
    }
}

impl Player {
    /// A fresh, idle player with an empty queue and an empty cache.
    pub fn new() -> (r: Player)
        ensures
            r@ == PlayerV::init(),
            r@.wf(),
    {
        let r = Player {
            current: None,
            queue: VecDeque::new(),
            backend: BackendState::NothingSpecial,
            loader: Loader::new(),
            events: Vec::new(),
            ended: false,
            history: Ghost(Seq::empty()),
        };
        proof {
            assert(r@ =~~= PlayerV::init());
            lemma_init_wf();
        }
        r
    }

    /// How many sources wait in the queue behind the current item.
    pub fn get_queue_left(&self) -> (n: usize)
        ensures
            n == self@.queue.len(),
    {
        self.queue.len()
    }

    /// Whether the machine has driven the backend into its playing state.
    pub fn is_playing(&self) -> (r: bool)
        ensures
            r == (self@.backend == BackendState::Playing),
    {
        self.backend == BackendState::Playing
    }

    /// The currently loaded item, if any.
    pub fn now_playing(&self) -> (r: &Option<LoadedMusic>)
        ensures
            (*r is Some <==> self@.current is Some),
            *r matches Some(m) ==> self@.current == Some(
                LoadedMusicV { src: m.src@, media: m.media },
            ),
    {
        &self.current
    }

    /// Append an event to the pending log and the history.
    fn push_event(&mut self, e: Event)
        ensures
            final(self)@ == old(self)@.emit(e@),
    {
        let ghost pre = self@;
        let ghost ev = e@;
        self.events.push(e);
        self.history = Ghost(self.history@.push(ev));
        proof {
            assert(self@ =~~= pre.emit(ev));
        }
    }

    /// Promote `source` to the current item: resolve it through the loader
    /// — consulting `f` only on a cache miss — and on success play it and
    /// emit `Play`; on failure settle into idle and report the error.
    fn start_playing<F: FnOnce(Source) -> Option<Handle>>(&mut self, source: Source, f: F) -> (r:
        Result<(), LoadError>)
        requires
            call_requires(f, (source,)),
        ensures
            exists|o: Option<Handle>|
                {
                    &&& resolves_from(old(self)@, f, source@, o)
                    &&& load_reported(o, r, source@)
                    &&& final(self)@ == old(self)@.start_playing_spec(source@, o)
                },
    {
        let ghost pre = self@;
        let ghost sv = source@;
        match LoadedMusic::new(&mut self.loader, source, f) {
            Ok(m) => {
                let ghost h = m.media;
                let ev_src = m.src.clone();
                self.backend = BackendState::Playing;
                self.current = Some(m);
                self.push_event(Event { ty: EventType::Play, src: ev_src });
                proof {
                    if pre.cache.contains_key(sv) {
                        assert(pre.cache.insert(sv, h) =~= pre.cache);
                    }
                    assert(resolves_from(pre, f, sv, Some(h)));
                    assert(load_reported(Some(h), Ok::<(), LoadError>(()), sv));
                    assert(self@ =~~= pre.start_playing_spec(sv, Some(h)));
                }
                Ok(())
            },
            Err(e) => {
                self.current = None;
                proof {
                    let s0 = e.src;
                    assert(s0@ == sv && call_ensures(f, (s0,), None::<Handle>));
                    assert(resolves_from(pre, f, sv, None::<Handle>));
                    assert(load_reported(None::<Handle>, Err::<(), LoadError>(e), sv));
                    assert(self@ =~~= pre.start_playing_spec(sv, None::<Handle>));
                }
                Err(e)
            },
        }
    }

    /// Queue a source: when nothing is loaded it is promoted at once —
    /// resolving it, playing it and emitting `Play`, or reporting the
    /// failed load — otherwise it is appended to the queue and nothing is
    /// emitted.
    pub fn queue<F: FnOnce(Source) -> Option<Handle>>(&mut self, source: Source, f: F) -> (r:
        Result<(), LoadError>)
        requires
            call_requires(f, (source,)),
        ensures
            old(self)@.current is Some ==> r == Ok::<(), LoadError>(()) && final(self)@ == old(
                self,
            )@.enqueue_spec(source@),
            old(self)@.current is None ==> exists|o: Option<Handle>|
                {
                    &&& resolves_from(old(self)@, f, source@, o)
                    &&& load_reported(o, r, source@)
                    &&& final(self)@ == old(self)@.start_playing_spec(source@, o)
                },
            old(self)@.wf() ==> final(self)@.wf(),
    {
        let ghost pre = self@;
        let ghost sv = source@;
        if self.current.is_none() {
            let r = self.start_playing(source, f);
            proof {
                if pre.wf() {
                    let o = choose|o: Option<Handle>|
                        {
                            &&& resolves_from(pre, f, sv, o)
                            &&& load_reported(o, r, sv)
                            &&& self@ == pre.start_playing_spec(sv, o)
                        };
                    lemma_queue_wf(pre, sv, o);
                }
            }
            r
        } else {
            self.queue.push_back(source);
            proof {
                assert(self@ =~~= pre.enqueue_spec(sv));
                if pre.wf() {
                    lemma_queue_wf(pre, sv, None::<Handle>);
                }
            }
            Ok(())
        }
    }

    /// Pause the current item and emit `Pause` for it; a no-op when
    /// nothing is loaded or it is not playing.
    pub fn pause(&mut self)
        ensures
            final(self)@ == old(self)@.pause_spec(),
            old(self)@.wf() ==> final(self)@.wf(),
    {
        let ghost pre = self@;
        proof {
            if pre.wf() {
                lemma_pause_wf(pre);
            }
        }
        if self.backend == BackendState::Playing {
            let cs = match &self.current {
                Some(m) => Some(m.src.clone()),
                None => None,
            };
            if let Some(c) = cs {
                self.backend = BackendState::Paused;
                self.push_event(Event { ty: EventType::Pause, src: c });
                proof {
                    assert(self@ =~~= pre.pause_spec());
                }
            } else {
                proof {
                    assert(self@ =~~= pre.pause_spec());
                }
            }
        } else {
            proof {
                assert(self@ =~~= pre.pause_spec());
            }
        }
    }

    /// Stop playback altogether: emit `Stop` for the current item if there
    /// is one, clear it, stop the backend and discard the whole queue.
    pub fn stop(&mut self)
        ensures
            final(self)@ == old(self)@.stop_spec(),
            old(self)@.wf() ==> final(self)@.wf(),
    {
        let ghost pre = self@;
        proof {
            if pre.wf() {
                lemma_stop_wf(pre);
            }
        }
        let cs = match &self.current {
            Some(m) => Some(m.src.clone()),
            None => None,
        };
        if let Some(c) = cs {
            self.push_event(Event { ty: EventType::Stop, src: c });
            self.backend = BackendState::Stopped;
            self.current = None;
        }
        self.queue.clear();
        proof {
            assert(self@ =~~= pre.stop_spec());
        }
    }

    /// Preempt whatever is current: emit `Stop` for it and halt the
    /// backend, then promote `new` exactly as an immediate queue would.
    /// The preempted item is discarded, not re-queued.
    pub fn play_now<F: FnOnce(Source) -> Option<Handle>>(&mut self, new: Source, f: F) -> (r:
        Result<(), LoadError>)
        requires
            call_requires(f, (new,)),
        ensures
            exists|o: Option<Handle>|
                {
                    &&& resolves_from(old(self)@, f, new@, o)
                    &&& load_reported(o, r, new@)
                    &&& final(self)@ == old(self)@.play_now_spec(new@, o)
                },
            old(self)@.wf() ==> final(self)@.wf(),
    {
        let ghost pre = self@;
        let ghost sv = new@;
        let cs = match &self.current {
            Some(m) => Some(m.src.clone()),
            None => None,
        };
        if let Some(c) = cs {
            self.push_event(Event { ty: EventType::Stop, src: c });
            self.backend = BackendState::Stopped;
            self.current = None;
        }
        proof {
            assert(self@ =~~= pre.halt_current_spec());
        }
        let ghost mid = self@;
        let r = self.start_playing(new, f);
        proof {
            let o = choose|o: Option<Handle>|
                {
                    &&& resolves_from(mid, f, sv, o)
                    &&& load_reported(o, r, sv)
                    &&& self@ == mid.start_playing_spec(sv, o)
                };
            assert(resolves_from(pre, f, sv, o));
            assert(self@ == pre.play_now_spec(sv, o));
            if pre.wf() {
                lemma_play_now_wf(pre, sv, o);
            }
        }
        r
    }

    /// Drop the current item — without a `Stop` for it, unlike `stop` —
    /// and promote the queue's head.  With an empty queue the machine
    /// settles into idle, halting the backend silently if it was audible.
    pub fn skip<F: FnOnce(Source) -> Option<Handle>>(&mut self, f: F) -> (r: Result<
        (),
        LoadError,
    >)
        requires
            forall|s: Source| #[trigger] call_requires(f, (s,)),
        ensures
            old(self)@.queue.len() == 0 ==> r == Ok::<(), LoadError>(()) && final(self)@ == old(
                self,
            )@.skip_spec(None::<Handle>),
            old(self)@.queue.len() > 0 ==> exists|o: Option<Handle>|
                {
                    &&& resolves_from(old(self)@, f, old(self)@.queue[0], o)
                    &&& load_reported(o, r, old(self)@.queue[0])
                    &&& final(self)@ == old(self)@.skip_spec(o)
                },
            old(self)@.wf() ==> final(self)@.wf(),
    {
        let ghost pre = self@;
        self.current = None;
        if self.backend == BackendState::Playing || self.backend == BackendState::Paused {
            self.backend = BackendState::Stopped;
        }
        let ghost halted = self@;
        match self.queue.pop_front() {
            Some(next) => {
                let ghost nv = next@;
                let ghost mid = self@;
                proof {
                    assert(mid =~~= (PlayerV { queue: halted.queue.drop_first(), ..halted }));
                    assert(nv == pre.queue[0]);
                }
                let r = self.play_now(next, f);
                proof {
                    let o = choose|o: Option<Handle>|
                        {
                            &&& resolves_from(mid, f, nv, o)
                            &&& load_reported(o, r, nv)
                            &&& self@ == mid.play_now_spec(nv, o)
                        };
                    assert(resolves_from(pre, f, pre.queue[0], o));
                    assert(self@ == pre.skip_spec(o));
                    if pre.wf() {
                        lemma_skip_wf(pre, o);
                    }
                }
                r
            },
            None => {
                proof {
                    assert(self@ =~~= pre.skip_spec(None::<Handle>));
                    if pre.wf() {
                        lemma_skip_wf(pre, None::<Handle>);
                    }
                }
                Ok(())
            },
        }
    }

    /// Resume or restart playback: `Resume` from a pause, `Play` from a
    /// stop; pull the next queued item when nothing is loaded; do nothing
    /// when already playing.
    pub fn play<F: FnOnce(Source) -> Option<Handle>>(&mut self, f: F) -> (r: Result<
        (),
        LoadError,
    >)
        requires
            forall|s: Source| #[trigger] call_requires(f, (s,)),
        ensures
            !old(self)@.needs_load() ==> r == Ok::<(), LoadError>(()) && final(self)@ == old(
                self,
            )@.play_spec(None::<Handle>),
            old(self)@.needs_load() ==> exists|o: Option<Handle>|
                {
                    &&& resolves_from(old(self)@, f, old(self)@.queue[0], o)
                    &&& load_reported(o, r, old(self)@.queue[0])
                    &&& final(self)@ == old(self)@.play_spec(o)
                },
            old(self)@.wf() ==> final(self)@.wf(),
    {
        let ghost pre = self@;
        if self.backend == BackendState::Playing {
            proof {
                assert(self@ == pre.play_spec(None::<Handle>));
                if pre.wf() {
                    lemma_play_wf(pre, None::<Handle>);
                }
            }
            Ok(())
        } else {
            let cs = match &self.current {
                Some(m) => Some(m.src.clone()),
                None => None,
            };
            match cs {
                Some(c) => {
                    let ty = if self.backend == BackendState::Paused {
                        EventType::Resume
                    } else {
                        EventType::Play
                    };
                    self.backend = BackendState::Playing;
                    self.push_event(Event { ty, src: c });
                    proof {
                        assert(self@ =~~= pre.play_spec(None::<Handle>));
                        if pre.wf() {
                            lemma_play_wf(pre, None::<Handle>);
                        }
                    }
                    Ok(())
                },
                None => {
                    let r = self.skip(f);
                    proof {
                        if pre.queue.len() > 0 {
                            let o = choose|o: Option<Handle>|
                                {
                                    &&& resolves_from(pre, f, pre.queue[0], o)
                                    &&& load_reported(o, r, pre.queue[0])
                                    &&& self@ == pre.skip_spec(o)
                                };
                            assert(self@ == pre.play_spec(o));
                            if pre.wf() {
                                lemma_play_wf(pre, o);
                            }
                        } else {
                            assert(self@ == pre.play_spec(None::<Handle>));
                            if pre.wf() {
                                lemma_play_wf(pre, None::<Handle>);
                            }
                        }
                    }
                    r
                },
            }
        }
    }

    /// `play` when not playing, else `pause`: one button for both.
    pub fn toggle_playing<F: FnOnce(Source) -> Option<Handle>>(&mut self, f: F) -> (r: Result<
        (),
        LoadError,
    >)
        requires
            forall|s: Source| #[trigger] call_requires(f, (s,)),
        ensures
            !old(self)@.needs_load() ==> r == Ok::<(), LoadError>(()) && final(self)@ == old(
                self,
            )@.toggle_spec(None::<Handle>),
            old(self)@.needs_load() ==> exists|o: Option<Handle>|
                {
                    &&& resolves_from(old(self)@, f, old(self)@.queue[0], o)
                    &&& load_reported(o, r, old(self)@.queue[0])
                    &&& final(self)@ == old(self)@.toggle_spec(o)
                },
            old(self)@.wf() ==> final(self)@.wf(),
    {
        let ghost pre = self@;
        if !self.is_playing() {
            let r = self.play(f);
            proof {
                if pre.needs_load() {
                    let o = choose|o: Option<Handle>|
                        {
                            &&& resolves_from(pre, f, pre.queue[0], o)
                            &&& load_reported(o, r, pre.queue[0])
                            &&& self@ == pre.play_spec(o)
                        };
                    assert(self@ == pre.toggle_spec(o));
                    if pre.wf() {
                        lemma_toggle_wf(pre, o);
                    }
                } else {
                    assert(self@ == pre.toggle_spec(None::<Handle>));
                    if pre.wf() {
                        lemma_toggle_wf(pre, None::<Handle>);
                    }
                }
            }
            r
        } else {
            self.pause();
            proof {
                assert(self@ == pre.toggle_spec(None::<Handle>));
                if pre.wf() {
                    lemma_toggle_wf(pre, None::<Handle>);
                }
            }
            Ok(())
        }
    }

    /// Drain one event: first, if the backend signalled end-of-track since
    /// the last poll, reset the signal and advance the queue as `skip`
    /// does; then hand out the oldest pending event, if any.  A load
    /// failure during the advance leaves the machine idle; the error is
    /// not reported here, the queue simply does not advance into a
    /// phantom item.
    pub fn poll<F: FnOnce(Source) -> Option<Handle>>(&mut self, f: F) -> (r: Option<Event>)
        requires
            forall|s: Source| #[trigger] call_requires(f, (s,)),
        ensures
            !(old(self)@.ended && old(self)@.queue.len() > 0) ==> final(self)@ == old(
                self,
            )@.poll_spec(None::<Handle>).0 && event_reported(r, old(self)@.poll_spec(
                None::<Handle>,
            ).1),
            old(self)@.ended && old(self)@.queue.len() > 0 ==> exists|o: Option<Handle>|
                {
                    &&& resolves_from(old(self)@, f, old(self)@.queue[0], o)
                    &&& final(self)@ == old(self)@.poll_spec(o).0
                    &&& event_reported(r, old(self)@.poll_spec(o).1)
                },
            old(self)@.wf() ==> final(self)@.wf(),
    {
        let ghost pre = self@;
        let ghost owit: Option<Handle> = None;
        if self.ended {
            self.ended = false;
            let ghost mid = self@;
            proof {
                assert(mid =~~= (PlayerV { ended: false, ..pre }));
            }
            let _skipped = self.skip(f);
            proof {
                if mid.queue.len() > 0 {
                    owit = choose|o: Option<Handle>|
                        {
                            &&& resolves_from(mid, f, mid.queue[0], o)
                            &&& load_reported(o, _skipped, mid.queue[0])
                            &&& self@ == mid.skip_spec(o)
                        };
                    assert(resolves_from(pre, f, pre.queue[0], owit));
                }
                assert(self@ == pre.poll_advance_spec(owit));
            }
        } else {
            proof {
                assert(self@ == pre.poll_advance_spec(owit));
            }
        }
        let ghost adv = self@;
        let r = if self.events.len() > 0 {
            let e = self.events.remove(0);
            Some(e)
        } else {
            None
        };
        proof {
            if adv.events.len() > 0 {
                assert(self@ =~~= (PlayerV { events: adv.events.drop_first(), ..adv }));
            }
            assert(self@ == pre.poll_spec(owit).0);
            assert(event_reported(r, pre.poll_spec(owit).1));
            if pre.wf() {
                lemma_poll_wf(pre, owit);
            }
        }
        r
    }

    /// Record that the backend reached the end of the current track.  The
    /// signal is coalesced: observed and reset by the next `poll`.
    pub fn notify_end_reached(&mut self)
        ensures
            final(self)@ == old(self)@.notify_spec(),
            old(self)@.wf() ==> final(self)@.wf(),
    {
        let ghost pre = self@;
        self.ended = true;
        proof {
            assert(self@ =~~= pre.notify_spec());
            if pre.wf() {
                lemma_notify_wf(pre);
            }
        }
    }
}

} // verus!

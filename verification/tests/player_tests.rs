use moosack::{Event, EventType, Handle, Player, Source};

fn file(p: &str) -> Source {
    Source::File(p.to_string())
}

fn ok_loader(id: u64) -> impl FnOnce(Source) -> Option<Handle> {
    move |_s: Source| Some(Handle { id })
}

fn no_loader() -> impl FnOnce(Source) -> Option<Handle> {
    |_s: Source| None
}

#[test]
fn scenario_immediate_promotion() {
    let mut p = Player::new();
    let r = p.queue(file("a.mp3"), ok_loader(1));
    assert!(r.is_ok());
    assert!(p.is_playing());
    assert_eq!(p.get_queue_left(), 0);
    match p.now_playing() {
        Some(m) => assert_eq!(m.src, file("a.mp3")),
        None => panic!("nothing loaded after queueing on an empty machine"),
    }
    assert_eq!(p.events.len(), 1);
    assert_eq!(p.events[0], Event::new(EventType::Play, file("a.mp3")));
}

#[test]
fn scenario_deferred_queueing() {
    let mut p = Player::new();
    p.queue(file("a.mp3"), ok_loader(1)).unwrap();
    p.queue(file("b.mp3"), ok_loader(2)).unwrap();
    match p.now_playing() {
        Some(m) => assert_eq!(m.src, file("a.mp3")),
        None => panic!("current item lost by deferred queueing"),
    }
    assert_eq!(p.get_queue_left(), 1);
    assert_eq!(p.events.len(), 1);
}

#[test]
fn scenario_skip_emits_no_stop() {
    let mut p = Player::new();
    p.queue(file("a.mp3"), ok_loader(1)).unwrap();
    p.queue(file("b.mp3"), ok_loader(2)).unwrap();
    p.skip(ok_loader(3)).unwrap();
    match p.now_playing() {
        Some(m) => assert_eq!(m.src, file("b.mp3")),
        None => panic!("skip did not promote the queue head"),
    }
    assert_eq!(p.get_queue_left(), 0);
    let tys: Vec<EventType> = p.events.iter().map(|e| e.ty).collect();
    assert_eq!(tys, vec![EventType::Play, EventType::Play]);
    assert_eq!(p.events[1].src, file("b.mp3"));
}

#[test]
fn scenario_pause_then_play_resumes() {
    let mut p = Player::new();
    p.queue(file("b.mp3"), ok_loader(1)).unwrap();
    p.pause();
    assert!(!p.is_playing());
    p.play(ok_loader(2)).unwrap();
    assert!(p.is_playing());
    let n = p.events.len();
    assert_eq!(p.events[n - 2], Event::new(EventType::Pause, file("b.mp3")));
    assert_eq!(p.events[n - 1], Event::new(EventType::Resume, file("b.mp3")));
}

#[test]
fn scenario_stop_discards_queue() {
    let mut p = Player::new();
    p.queue(file("b.mp3"), ok_loader(1)).unwrap();
    p.queue(file("c.mp3"), ok_loader(2)).unwrap();
    p.stop();
    assert!(p.now_playing().is_none());
    assert_eq!(p.get_queue_left(), 0);
    assert!(!p.is_playing());
    let last = p.events.last().unwrap();
    assert_eq!(*last, Event::new(EventType::Stop, file("b.mp3")));
}

#[test]
fn scenario_end_of_track_advances_on_poll() {
    let mut p = Player::new();
    p.queue(file("b.mp3"), ok_loader(1)).unwrap();
    p.queue(file("c.mp3"), ok_loader(2)).unwrap();
    while p.poll(ok_loader(9)).is_some() {}
    p.notify_end_reached();
    let e = p.poll(ok_loader(3));
    assert_eq!(e, Some(Event::new(EventType::Play, file("c.mp3"))));
    match p.now_playing() {
        Some(m) => assert_eq!(m.src, file("c.mp3")),
        None => panic!("end-of-track advance promoted nothing"),
    }
    assert_eq!(p.get_queue_left(), 0);
}

#[test]
fn end_of_track_while_idle_is_ignored() {
    let mut p = Player::new();
    p.notify_end_reached();
    assert_eq!(p.poll(ok_loader(1)), None);
    assert!(p.now_playing().is_none());
    assert!(!p.is_playing());
    p.queue(file("a.mp3"), ok_loader(2)).unwrap();
    let e = p.poll(ok_loader(3));
    assert_eq!(e, Some(Event::new(EventType::Play, file("a.mp3"))));
    assert!(p.is_playing());
}

#[test]
fn play_twice_emits_one_event() {
    let mut p = Player::new();
    p.queue(file("a.mp3"), ok_loader(1)).unwrap();
    p.pause();
    let before = p.events.len();
    p.play(ok_loader(2)).unwrap();
    assert_eq!(p.events.len(), before + 1);
    p.play(ok_loader(3)).unwrap();
    assert_eq!(p.events.len(), before + 1);
    assert!(p.is_playing());
}

#[test]
fn play_on_empty_machine_is_a_no_op() {
    let mut p = Player::new();
    p.play(ok_loader(1)).unwrap();
    assert!(p.events.is_empty());
    assert!(!p.is_playing());
    assert!(p.now_playing().is_none());
}

#[test]
fn play_pulls_the_queue_when_nothing_is_loaded() {
    let mut p = Player::new();
    p.queue(file("a.mp3"), ok_loader(1)).unwrap();
    p.skip(ok_loader(2)).unwrap();
    assert!(p.now_playing().is_none());
    p.queue(file("b.mp3"), ok_loader(3)).unwrap();
    match p.now_playing() {
        Some(m) => assert_eq!(m.src, file("b.mp3")),
        None => panic!("queueing on an idle machine promoted nothing"),
    }
}

#[test]
fn toggle_alternates_pause_and_resume() {
    let mut p = Player::new();
    p.queue(file("a.mp3"), ok_loader(1)).unwrap();
    p.toggle_playing(ok_loader(2)).unwrap();
    assert!(!p.is_playing());
    p.toggle_playing(ok_loader(3)).unwrap();
    assert!(p.is_playing());
    let tys: Vec<EventType> = p.events.iter().map(|e| e.ty).collect();
    assert_eq!(tys, vec![EventType::Play, EventType::Pause, EventType::Resume]);
}

#[test]
fn poll_drains_oldest_first() {
    let mut p = Player::new();
    p.queue(file("a.mp3"), ok_loader(1)).unwrap();
    p.pause();
    p.play(ok_loader(2)).unwrap();
    p.stop();
    let mut drained = Vec::new();
    while let Some(e) = p.poll(ok_loader(9)) {
        drained.push(e);
    }
    assert_eq!(
        drained,
        vec![
            Event::new(EventType::Play, file("a.mp3")),
            Event::new(EventType::Pause, file("a.mp3")),
            Event::new(EventType::Resume, file("a.mp3")),
            Event::new(EventType::Stop, file("a.mp3")),
        ]
    );
    assert_eq!(p.poll(ok_loader(9)), None);
}

#[test]
fn play_now_preempts_with_stop() {
    let mut p = Player::new();
    p.queue(file("a.mp3"), ok_loader(1)).unwrap();
    p.play_now(file("b.mp3"), ok_loader(2)).unwrap();
    let tys: Vec<EventType> = p.events.iter().map(|e| e.ty).collect();
    assert_eq!(tys, vec![EventType::Play, EventType::Stop, EventType::Play]);
    assert_eq!(p.events[1].src, file("a.mp3"));
    assert_eq!(p.events[2].src, file("b.mp3"));
    match p.now_playing() {
        Some(m) => assert_eq!(m.src, file("b.mp3")),
        None => panic!("play_now promoted nothing"),
    }
}

#[test]
fn immediate_load_failure_reports_and_stays_idle() {
    let mut p = Player::new();
    let r = p.queue(file("missing.mp3"), no_loader());
    match r {
        Ok(()) => panic!("a failed load was reported as success"),
        Err(e) => assert_eq!(e.src, file("missing.mp3")),
    }
    assert!(p.now_playing().is_none());
    assert!(!p.is_playing());
    assert_eq!(p.get_queue_left(), 0);
    assert!(p.events.is_empty());
}

#[test]
fn deferred_load_failure_surfaces_at_skip() {
    let mut p = Player::new();
    p.queue(file("a.mp3"), ok_loader(1)).unwrap();
    p.queue(file("broken.mp3"), ok_loader(2)).unwrap();
    let r = p.skip(no_loader());
    match r {
        Ok(()) => panic!("a failed deferred load was reported as success"),
        Err(e) => assert_eq!(e.src, file("broken.mp3")),
    }
    assert!(p.now_playing().is_none());
    assert!(!p.is_playing());
    assert_eq!(p.get_queue_left(), 0);
    assert_eq!(p.events.len(), 1);
}

#[test]
fn queue_length_is_accounted_for() {
    let mut p = Player::new();
    assert_eq!(p.get_queue_left(), 0);
    p.queue(file("a.mp3"), ok_loader(1)).unwrap();
    assert_eq!(p.get_queue_left(), 0);
    p.queue(file("b.mp3"), ok_loader(2)).unwrap();
    assert_eq!(p.get_queue_left(), 1);
    p.queue(file("c.mp3"), ok_loader(3)).unwrap();
    assert_eq!(p.get_queue_left(), 2);
    p.skip(ok_loader(4)).unwrap();
    assert_eq!(p.get_queue_left(), 1);
    p.stop();
    assert_eq!(p.get_queue_left(), 0);
}

#[test]
fn cached_source_needs_no_second_load() {
    let mut p = Player::new();
    p.queue(file("a.mp3"), ok_loader(7)).unwrap();
    p.stop();
    p.queue(file("a.mp3"), no_loader()).unwrap();
    match p.now_playing() {
        Some(m) => {
            assert_eq!(m.src, file("a.mp3"));
            assert_eq!(m.media, Handle { id: 7 });
        },
        None => panic!("a cached source failed to promote"),
    }
}

#[test]
fn pause_when_idle_is_a_no_op() {
    let mut p = Player::new();
    p.pause();
    assert!(p.events.is_empty());
    assert!(!p.is_playing());
    p.queue(file("a.mp3"), ok_loader(1)).unwrap();
    p.pause();
    p.pause();
    let tys: Vec<EventType> = p.events.iter().map(|e| e.ty).collect();
    assert_eq!(tys, vec![EventType::Play, EventType::Pause]);
}

#[test]
fn poll_swallows_a_failed_advance() {
    let mut p = Player::new();
    p.queue(file("a.mp3"), ok_loader(1)).unwrap();
    p.queue(file("broken.mp3"), ok_loader(2)).unwrap();
    while p.poll(ok_loader(9)).is_some() {}
    p.notify_end_reached();
    assert_eq!(p.poll(no_loader()), None);
    assert!(p.now_playing().is_none());
    assert!(!p.is_playing());
    assert_eq!(p.get_queue_left(), 0);
}

#[test]
fn toggle_on_an_empty_machine_changes_nothing() {
    let mut p = Player::new();
    p.toggle_playing(ok_loader(1)).unwrap();
    assert!(p.events.is_empty());
    assert!(!p.is_playing());
    assert_eq!(p.get_queue_left(), 0);
}

#[test]
fn play_now_failure_falls_back_to_idle() {
    let mut p = Player::new();
    p.queue(file("a.mp3"), ok_loader(1)).unwrap();
    let r = p.play_now(file("broken.mp3"), no_loader());
    match r {
        Ok(()) => panic!("a failed preemption was reported as success"),
        Err(e) => assert_eq!(e.src, file("broken.mp3")),
    }
    assert!(p.now_playing().is_none());
    assert!(!p.is_playing());
    let last = p.events.last().unwrap();
    assert_eq!(*last, Event::new(EventType::Stop, file("a.mp3")));
}

#[test]
fn url_sources_queue_like_files() {
    let mut p = Player::new();
    let u = Source::Url("http://radio.example/stream.mp3".to_string());
    p.queue(u.clone(), ok_loader(1)).unwrap();
    match p.now_playing() {
        Some(m) => assert_eq!(m.src, u),
        None => panic!("a URL source failed to promote"),
    }
    assert_eq!(p.events[0], Event::new(EventType::Play, u));
}

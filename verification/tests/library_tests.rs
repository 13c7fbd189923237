use moosack::{is_music, is_playlist, Config, Handle, LoadError, Loader, Signal, Source, Src};
use std::cell::Cell;
use std::rc::Rc;

#[test]
fn music_extensions_are_recognised() {
    assert!(is_music("song.mp3"));
    assert!(is_music("album/track.flac"));
    assert!(is_music("/home/u/Music/a.ogg"));
    assert!(is_music("LOUD.MP3"));
    assert!(is_music("mixed.FlAc"));
}

#[test]
fn non_music_paths_are_rejected() {
    assert!(!is_music("notes.txt"));
    assert!(!is_music("noextension"));
    assert!(!is_music(".hidden"));
    assert!(!is_music("trailingdot."));
    assert!(!is_music("dir.mp3/readme"));
    assert!(!is_music(""));
}

#[test]
fn playlist_extensions_are_recognised() {
    assert!(is_playlist("list.m3u"));
    assert!(is_playlist("set.XSPF"));
    assert!(!is_playlist("song.mp3"));
    assert!(!is_music("list.m3u"));
}

#[test]
fn config_prefers_the_loaded_file() {
    let loaded = Config { libraries: vec!["/data/music".to_string()] };
    let c = Config::new(Some(loaded), Some("/home/u/Music".to_string()));
    assert_eq!(c.libraries, vec!["/data/music".to_string()]);
}

#[test]
fn config_falls_back_to_the_default_directory() {
    let c = Config::new(None, Some("/home/u/Music".to_string()));
    assert_eq!(c.libraries, vec!["/home/u/Music".to_string()]);
    let none = Config::new(None, None);
    assert!(none.libraries.is_empty());
}

#[test]
fn scan_keeps_music_in_order() {
    let c = Config::new(None, None);
    let entries = vec![
        "a.mp3".to_string(),
        "b.txt".to_string(),
        "c.flac".to_string(),
        "d".to_string(),
        "e.OGG".to_string(),
    ];
    let items = c.scan(&entries);
    assert_eq!(
        items,
        vec!["a.mp3".to_string(), "c.flac".to_string(), "e.OGG".to_string()]
    );
}

#[test]
fn loader_caches_by_source_value() {
    let mut l = Loader::new();
    let a = Source::File("a.mp3".to_string());
    let h1 = l.get_media(a.clone(), |_s: Source| Some(Handle { id: 1 })).unwrap();
    let h2 = l.get_media(a, |_s: Source| Some(Handle { id: 2 })).unwrap();
    assert_eq!(h1, Handle { id: 1 });
    assert_eq!(h2, Handle { id: 1 });
}

#[test]
fn loader_load_reports_the_failing_source() {
    let l = Loader::new();
    let u = Source::Url("http://nowhere/x.mp3".to_string());
    let r: Result<Handle, LoadError> = l.load(u.clone(), |_s: Source| None);
    match r {
        Ok(_) => panic!("a refused load was reported as success"),
        Err(e) => assert_eq!(e.src, u),
    }
}

#[test]
fn loader_failure_is_not_cached() {
    let mut l = Loader::new();
    let a = Source::File("late.mp3".to_string());
    assert!(l.get_media(a.clone(), |_s: Source| None).is_err());
    let h = l.get_media(a, |_s: Source| Some(Handle { id: 5 })).unwrap();
    assert_eq!(h, Handle { id: 5 });
}

#[test]
fn source_conversions_keep_the_value() {
    let s = Source::Url("http://radio/x".to_string());
    let b = s.as_src();
    let s2 = b.to_source();
    assert_eq!(s, s2);
    let f = Src::File("a.mp3");
    assert_eq!(f.to_source(), Source::File("a.mp3".to_string()));
    assert!(Source::File("a".to_string()) != Source::Url("a".to_string()));
}

#[test]
fn signal_invokes_each_listener_per_invoke() {
    let count = Rc::new(Cell::new(0u32));
    let c = count.clone();
    let mut s = Signal::new();
    s.bind(move |v: u32| c.set(c.get() + v));
    s.invoke(5);
    s.invoke(7);
    assert_eq!(count.get(), 12);
}

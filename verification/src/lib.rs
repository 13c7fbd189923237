//! A personal audio player's core: a play queue and playback state machine.
//!
//! The crate keeps the queue, the currently loaded item and the ordered log
//! of playback events, and decides what plays next.  Everything that touches
//! the outside world — the real media backend, the GUI, the filesystem — is a
//! collaborator: the backend's load step is handed in as a closure, and the
//! caller drives the real backend from the event log.

use vstd::prelude::*;

pub mod config;
pub mod laws;
pub mod player;
pub mod signal;
pub mod source;

pub use config::Config;
pub use player::{BackendState, Event, EventType, LoadedMusic, Player};
pub use signal::Signal;
pub use source::{Handle, LoadError, Loader, Source, Src};

use vstd::string::StringSliceAdditionalSpecFns;

verus! {

/// The lowercase image of a byte: the ASCII letters `A`–`Z` map to
/// `a`–`z`, everything else stays.
pub open spec fn ascii_lower(b: u8) -> u8 {
    if 65 <= b && b <= 90 {
        (b + 32) as u8
    } else {
        b
    }
}

/// A byte sequence, lowercased byte by byte.
pub open spec fn lower_bytes(s: Seq<u8>) -> Seq<u8> {
    s.map_values(|b: u8| ascii_lower(b))
}

/// The final component of a path: what follows the last `/`, or the whole
/// path when it has none.
pub open spec fn file_name_of(p: Seq<u8>) -> Seq<u8>
    decreases p.len(),
{
    if p.len() == 0 {
        Seq::empty()
    } else if p.last() == 47u8 {
        Seq::empty()
    } else {
        file_name_of(p.drop_last()).push(p.last())
    }
}

/// The extension of a file name: what follows its last dot.  A name
/// without a dot has none, and a leading dot — a hidden file — does not
/// begin one.
pub open spec fn ext_of(name: Seq<u8>) -> Option<Seq<u8>>
    decreases name.len(),
{
    if name.len() == 0 {
        None
    } else if name.last() == 46u8 {
        if name.len() == 1 {
            None
        } else {
            Some(Seq::empty())
        }
    } else {
        match ext_of(name.drop_last()) {
            Some(e) => Some(e.push(name.last())),
            None => None,
        }
    }
}

/// The file extensions the playback backend accepts as music, lowercased.
pub open spec fn is_music_ext(e: Seq<u8>) -> bool {
    ||| e == "aac".spec_bytes()
    ||| e == "ac3".spec_bytes()
    ||| e == "dta".spec_bytes()
    ||| e == "flac".spec_bytes()
    ||| e == "m4a".spec_bytes()
    ||| e == "m4p".spec_bytes()
    ||| e == "mka".spec_bytes()
    ||| e == "mod".spec_bytes()
    ||| e == "mp1".spec_bytes()
    ||| e == "mp2".spec_bytes()
    ||| e == "mp3".spec_bytes()
    ||| e == "ogg".spec_bytes()
    ||| e == "oma".spec_bytes()
    ||| e == "pls".spec_bytes()
    ||| e == "raw".spec_bytes()
    ||| e == "spx".spec_bytes()
    ||| e == "wav".spec_bytes()
    ||| e == "wma".spec_bytes()
}

/// The file extensions recognised as playlists, lowercased.
pub open spec fn is_playlist_ext(e: Seq<u8>) -> bool {
    ||| e == "b4s".spec_bytes()
    ||| e == "cue".spec_bytes()
    ||| e == "m3u".spec_bytes()
    ||| e == "xspf".spec_bytes()
}

/// Whether a path — given as its UTF-8 bytes — names a music file: its
/// file name has an extension and that extension, lowercased, is one the
/// backend accepts.
pub open spec fn is_music_bytes(p: Seq<u8>) -> bool {
    match ext_of(file_name_of(p)) {
        Some(e) => is_music_ext(lower_bytes(e)),
        None => false,
    }
}

/// Whether a path — given as its UTF-8 bytes — names a playlist.
pub open spec fn is_playlist_bytes(p: Seq<u8>) -> bool {
    match ext_of(file_name_of(p)) {
        Some(e) => is_playlist_ext(lower_bytes(e)),
        None => false,
    }
}

/// The file name is the suffix that follows the last `/`: whenever no `/`
/// occurs at or after position `k`, and `k` is 0 or sits right after one,
/// the file name is the suffix from `k`.
proof fn lemma_file_name(p: Seq<u8>, k: int)
    requires
        0 <= k <= p.len(),
        forall|i: int| k <= i < p.len() ==> p[i] != 47u8,
        k > 0 ==> p[k - 1] == 47u8,
    ensures
        file_name_of(p) == p.subrange(k, p.len() as int),
    decreases p.len(),
{
    if p.len() == 0 {
        assert(p.subrange(0, 0) =~= Seq::<u8>::empty());
    } else if p.last() == 47u8 {
        assert(k == p.len());
        assert(p.subrange(k, p.len() as int) =~= Seq::<u8>::empty());
    } else {
        assert(k < p.len());
        lemma_file_name(p.drop_last(), k);
        assert(p.drop_last().subrange(k, p.drop_last().len() as int) =~= p.subrange(
            k,
            p.len() - 1,
        ));
        assert(p.subrange(k, p.len() - 1).push(p.last()) =~= p.subrange(k, p.len() as int));
    }
}

/// The extension begins after the last dot: whenever `name[d]` is a dot
/// and no dot follows it, the extension is the suffix after `d` — unless
/// the dot leads the name, which makes it a hidden file without one.
proof fn lemma_ext_at(name: Seq<u8>, d: int)
    requires
        0 <= d < name.len(),
        name[d] == 46u8,
        forall|i: int| d < i < name.len() ==> name[i] != 46u8,
    ensures
        ext_of(name) == if d == 0 {
            None::<Seq<u8>>
        } else {
            Some(name.subrange(d + 1, name.len() as int))
        },
    decreases name.len(),
{
    if name.last() == 46u8 {
        assert(d == name.len() - 1);
        if d != 0 {
            assert(name.subrange(d + 1, name.len() as int) =~= Seq::<u8>::empty());
        }
    } else {
        assert(d < name.len() - 1);
        lemma_ext_at(name.drop_last(), d);
        if d != 0 {
            assert(name.drop_last().subrange(d + 1, name.drop_last().len() as int) =~= name
                .subrange(d + 1, name.len() - 1));
            assert(name.subrange(d + 1, name.len() - 1).push(name.last()) =~= name.subrange(
                d + 1,
                name.len() as int,
            ));
        }
    }
}

/// A name without any dot has no extension.
proof fn lemma_ext_none(name: Seq<u8>)
    requires
        forall|i: int| 0 <= i < name.len() ==> name[i] != 46u8,
    ensures
        ext_of(name) is None,
    decreases name.len(),
{
    if name.len() > 0 {
        lemma_ext_none(name.drop_last());
    }
}

/// Whether the bytes from `start` on, lowercased, are exactly `lit`'s
/// bytes.
fn ext_eq(b: &[u8], start: usize, lit: &str) -> (r: bool)
    requires
        start <= b@.len(),
    ensures
        r == (lower_bytes(b@.skip(start as int)) == lit.spec_bytes()),
{
    let lb = lit.as_bytes();
    let n = b.len();
    let m = lb.len();
    proof {
        assert(lower_bytes(b@.skip(start as int)).len() == b@.len() - start);
    }
    if n - start != m {
        return false;
    }
    let mut i: usize = 0;
    while i < m
        invariant
            0 <= i <= m,
            m == lb@.len(),
            lb@ == lit.spec_bytes(),
            n == b@.len(),
            start + m == n,
            forall|j: int| 0 <= j < i ==> lower_bytes(b@.skip(start as int))[j] == lb@[j],
        decreases m - i,
    {
        let c = b[start + i];
        let lc = if c >= 65 && c <= 90 {
            c + 32
        } else {
            c
        };
        proof {
            assert(b@.skip(start as int)[i as int] == b@[start + i]);
            assert(lower_bytes(b@.skip(start as int))[i as int] == ascii_lower(b@[start + i]));
        }
        if lc != lb[i] {
            proof {
                assert(lower_bytes(b@.skip(start as int))[i as int] != lit.spec_bytes()[i as int]);
            }
            return false;
        }
        i = i + 1;
    }
    proof {
        assert(lower_bytes(b@.skip(start as int)) =~= lit.spec_bytes());
    }
    true
}

/// Find where the path's file name starts: right after the last `/`.
fn name_start(b: &[u8]) -> (k: usize)
    ensures
        k <= b@.len(),
        file_name_of(b@) == b@.subrange(k as int, b@.len() as int),
    {
    let n = b.len();
    let mut k: usize = n;
    while k > 0 && b[k - 1] != 47
        invariant
            k <= n,
            n == b@.len(),
            forall|i: int| k <= i < n ==> b@[i] != 47u8,
        decreases k,
    {
        k = k - 1;
    }
    proof {
        lemma_file_name(b@, k as int);
    }
    k
}

/// Find where the file name's extension starts, given that the name is
/// the suffix from `k`: the position after the name's last dot, or `None`
/// when the name has no extension.
fn ext_start(b: &[u8], k: usize) -> (r: Option<usize>)
    requires
        k <= b@.len(),
        file_name_of(b@) == b@.subrange(k as int, b@.len() as int),
    ensures
        match r {
            Some(d) => {
                &&& k < d <= b@.len()
                &&& ext_of(file_name_of(b@)) == Some(b@.subrange(d as int, b@.len() as int))
            },
            None => ext_of(file_name_of(b@)) is None,
        },
{
    let n = b.len();
    let ghost name = b@.subrange(k as int, n as int);
    let mut d: usize = n;
    while d > k && b[d - 1] != 46
        invariant
            k <= d <= n,
            n == b@.len(),
            forall|i: int| d <= i < n ==> b@[i] != 46u8,
        decreases d,
    {
        d = d - 1;
    }
    if d == k {
        proof {
            assert forall|i: int| 0 <= i < name.len() implies name[i] != 46u8 by {
                assert(name[i] == b@[i + k]);
            }
            lemma_ext_none(name);
        }
        None
    } else if d == k + 1 {
        proof {
            assert(name[0] == b@[k as int]);
            assert forall|i: int| 0 < i < name.len() implies name[i] != 46u8 by {
                assert(name[i] == b@[i + k]);
            }
            lemma_ext_at(name, 0);
        }
        None
    } else {
        proof {
            let dd = d - 1 - k;
            assert(name[dd] == b@[d - 1]);
            assert forall|i: int| dd < i < name.len() implies name[i] != 46u8 by {
                assert(name[i] == b@[i + k]);
            }
            lemma_ext_at(name, dd);
            assert(name.subrange(dd + 1, name.len() as int) =~= b@.subrange(
                d as int,
                n as int,
            ));
        }
        Some(d)
    }
}

/// Whether `path` names a music file: its file name's extension,
/// lowercased, is one the playback backend accepts.
pub fn is_music(path: &str) -> (r: bool)
    ensures
        r == is_music_bytes(path.spec_bytes()),
{
    let b = path.as_bytes();
    let k = name_start(b);
    match ext_start(b, k) {
        Some(d) => ext_eq(b, d, "aac") || ext_eq(b, d, "ac3") || ext_eq(b, d, "dta") || ext_eq(
            b,
            d,
            "flac",
        ) || ext_eq(b, d, "m4a") || ext_eq(b, d, "m4p") || ext_eq(b, d, "mka") || ext_eq(
            b,
            d,
            "mod",
        ) || ext_eq(b, d, "mp1") || ext_eq(b, d, "mp2") || ext_eq(b, d, "mp3") || ext_eq(
            b,
            d,
            "ogg",
        ) || ext_eq(b, d, "oma") || ext_eq(b, d, "pls") || ext_eq(b, d, "raw") || ext_eq(
            b,
            d,
            "spx",
        ) || ext_eq(b, d, "wav") || ext_eq(b, d, "wma"),
        None => false,
    }
}

/// Whether `path` names a playlist file, by the same extension rule.
pub fn is_playlist(path: &str) -> (r: bool)
    ensures
        r == is_playlist_bytes(path.spec_bytes()),
{
    let b = path.as_bytes();
    let k = name_start(b);
    match ext_start(b, k) {
        Some(d) => ext_eq(b, d, "b4s") || ext_eq(b, d, "cue") || ext_eq(b, d, "m3u") || ext_eq(
            b,
            d,
            "xspf",
        ),
        None => false,
    }
}

} // verus!

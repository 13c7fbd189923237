//! The player's configuration: which directories hold the user's music,
//! and which of their files the player accepts.
//!
//! Reading and writing the configuration file, probing the home directory
//! and walking the library directories are the caller's business; the
//! decisions — what the configuration is when the file is absent, and
//! which directory entries count as music — are made here.

use crate::is_music_bytes;
use vstd::prelude::*;
use vstd::utf8::encode_utf8;

verus! {

/// The configuration: the directories that hold the user's music.
pub struct Config {
    pub libraries: Vec<String>,
}

/// The entries the player accepts as music, in their given order: those
/// whose file extension, lowercased, the backend recognises.
pub open spec fn music_of(entries: Seq<String>) -> Seq<String>
    decreases entries.len(),
{
    if entries.len() == 0 {
        Seq::empty()
    } else {
        let rest = music_of(entries.drop_last());
        if is_music_bytes(encode_utf8(entries.last()@)) {
            rest.push(entries.last())
        } else {
            rest
        }
    }
}

impl Config {
    /// Build the configuration: what was loaded from the configuration
    /// file, if it could be; otherwise the default music directory, if the
    /// caller found one; otherwise no libraries at all.
    pub fn new(loaded: Option<Config>, fallback: Option<String>) -> (c: Config)
        ensures
            match loaded {
                Some(l) => c == l,
                None => match fallback {
                    Some(d) => c.libraries@ == seq![d],
                    None => c.libraries@.len() == 0,
                },
            },
    {
        match loaded {
            Some(c) => c,
            None => match fallback {
                Some(d) => {
                    let ghost dv = d;
                    let mut libraries: Vec<String> = Vec::new();
                    libraries.push(d);
                    proof {
                        assert(libraries@ =~= seq![dv]);
                    }
                    Config { libraries }
                },
                None => Config { libraries: Vec::new() },
            },
        }
    }

    /// Sift a directory listing of the libraries: keep, in order, exactly
    /// the entries whose extension marks them as music.
    pub fn scan(&self, entries: &Vec<String>) -> (items: Vec<String>)
        ensures
            items@ == music_of(entries@),
    {
        let mut items: Vec<String> = Vec::new();
        let mut i: usize = 0;
        while i < entries.len()
            invariant
                0 <= i <= entries@.len(),
                items@ == music_of(entries@.take(i as int)),
            decreases entries@.len() - i,
        {
            proof {
                assert(entries@.take(i + 1).drop_last() =~= entries@.take(i as int));
                assert(entries@.take(i + 1).last() == entries@[i as int]);
            }
            if crate::is_music(entries[i].as_str()) {
                items.push(entries[i].clone());
            }
            i = i + 1;
        }
        proof {
            assert(entries@.take(entries@.len() as int) =~= entries@);
        }
        items
    }
}

} // verus!

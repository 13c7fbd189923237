//! Sources — the identifiers of playable items — and the loader that
//! resolves a source into a backend handle, caching the result.

use vstd::prelude::*;

verus! {

/// Spec-level shape of a source: the variant plus the text it carries.
pub enum SourceV {
    File(Seq<char>),
    Url(Seq<char>),
}

/// A playable item, identified by value: a path on the local filesystem or
/// a URL.  Pure data; equality is by variant and payload.
#[derive(Debug, Hash)]
pub enum Source {
    File(String),
    Url(String),
}

/// A borrowed source, convenient for callers that hold only a `&str`.
#[derive(Clone, Copy, Debug, Hash)]
pub enum Src<'a> {
    File(&'a str),
    Url(&'a str),
}

impl View for Source {
    type V = SourceV;

    open spec fn view(&self) -> SourceV {
        match self {
            Source::File(p) => SourceV::File(p@),
            Source::Url(u) => SourceV::Url(u@),
        }
    }
}

impl DeepView for Source {
    type V = SourceV;

    open spec fn deep_view(&self) -> SourceV {
        self.view()
    }
}

impl<'a> View for Src<'a> {
    type V = SourceV;

    open spec fn view(&self) -> SourceV {
        match self {
            Src::File(p) => SourceV::File(p@),
            Src::Url(u) => SourceV::Url(u@),
        }
    }
}

impl Clone for Source {
    fn clone(&self) -> (r: Source)
        ensures
            r == *self,
    {
        match self {
            Source::File(p) => Source::File(p.clone()),
            Source::Url(u) => Source::Url(u.clone()),
        }
    }
}

impl PartialEq for Source {
    fn eq(&self, other: &Source) -> (r: bool) {
        match (self, other) {
            (Source::File(a), Source::File(b)) => *a == *b,
            (Source::Url(a), Source::Url(b)) => *a == *b,
            _ => false,
        }
    }
}

impl vstd::std_specs::cmp::PartialEqSpecImpl for Source {
    open spec fn obeys_eq_spec() -> bool {
        true
    }

    open spec fn eq_spec(&self, other: &Source) -> bool {
        self@ == other@
    }
}

/// A handle: the player's token for a media object that the backend has
/// prepared.  The backend collaborator keys its own prepared objects by the
/// token's value; the core never looks inside what it stands for.
#[derive(PartialEq, Eq, Structural, Clone, Copy, Debug)]
pub struct Handle {
    pub id: u64,
}

/// Resolution of a source failed: the resource is missing, unreadable or
/// unreachable.  Carries the offending source so the caller can report it.
#[derive(Debug)]
pub struct LoadError {
    pub src: Source,
}

impl Clone for LoadError {
    fn clone(&self) -> (r: LoadError)
        ensures
            r == *self,
    {
        LoadError { src: self.src.clone() }
    }
}

impl Source {
    /// Borrow this source as a `Src`.
    pub fn as_src(&self) -> (r: Src<'_>)
        ensures
            r@ == self@,
    {
        match self {
            Source::File(p) => Src::File(p.as_str()),
            Source::Url(u) => Src::Url(u.as_str()),
        }
    }
}

impl<'a> Src<'a> {
    /// Copy this borrowed source into an owned `Source`.
    pub fn to_source(&self) -> (r: Source)
        ensures
            r@ == self@,
    {
        match *self {
            Src::File(p) => Source::File(p.to_owned()),
            Src::Url(u) => Source::Url(u.to_owned()),
        }
    }
}

/// First-match lookup of a source among cache entries.
spec fn lookup(s: Seq<(Source, Handle)>, k: SourceV) -> Option<Handle>
    decreases s.len(),
{
    if s.len() == 0 {
        None
    } else if s[0].0@ == k {
        Some(s[0].1)
    } else {
        lookup(s.drop_first(), k)
    }
}

/// Appending an entry leaves every already-cached source as it was and
/// caches the new one if it was absent.
proof fn lemma_lookup_push(s: Seq<(Source, Handle)>, p: (Source, Handle), k: SourceV)
    ensures
        lookup(s.push(p), k) == if lookup(s, k) is Some {
            lookup(s, k)
        } else if p.0@ == k {
            Some(p.1)
        } else {
            None::<Handle>
        },
    decreases s.len(),
{
    if s.len() == 0 {
        assert(s.push(p)[0] == p);
        assert(s.push(p).drop_first() =~= Seq::<(Source, Handle)>::empty());
        assert(lookup(s.push(p).drop_first(), k) is None);
    } else {
        assert(s.push(p)[0] == s[0]);
        assert(s.push(p).drop_first() =~= s.drop_first().push(p));
        lemma_lookup_push(s.drop_first(), p, k);
    }
}

/// A source loader: resolves sources into backend handles and caches the
/// result, so resolving the same source again costs nothing.
///
/// The actual resolution — the step that may do I/O and may fail — is handed
/// in by the caller as a closure from the source to an optional handle, and
/// is consulted only on a cache miss.
pub struct Loader {
    entries: Vec<(Source, Handle)>,
}

impl Loader {
    /// What the loader has cached: a map from resolved sources to their
    /// handles.
    pub closed spec fn cache(&self) -> Map<SourceV, Handle> {
        Map::new(
            |k: SourceV| lookup(self.entries@, k) is Some,
            |k: SourceV| lookup(self.entries@, k)->Some_0,
        )
    }

    /// Create a new loader, with an empty cache.
    pub fn new() -> (r: Loader)
        ensures
            r.cache() == Map::<SourceV, Handle>::empty(),
    {
        let r = Loader { entries: Vec::new() };
        proof {
            assert(r.cache() =~= Map::<SourceV, Handle>::empty());
        }
        r
    }

    /// Look a source up in the cache.
    fn find(&self, source: &Source) -> (r: Option<Handle>)
        ensures
            r == lookup(self.entries@, source@),
    {
        let n = self.entries.len();
        let mut i: usize = 0;
        proof {
            assert(self.entries@.skip(0) =~= self.entries@);
        }
        while i < n
            invariant
                0 <= i <= n,
                n == self.entries@.len(),
                lookup(self.entries@, source@) == lookup(self.entries@.skip(i as int), source@),
            decreases n - i,
        {
            let hit = self.entries[i].0 == *source;
            proof {
                assert(self.entries@.skip(i as int)[0] == self.entries@[i as int]);
                assert(self.entries@.skip(i as int).drop_first() =~= self.entries@.skip(
                    i as int + 1,
                ));
            }
            if hit {
                return Some(self.entries[i].1);
            }
            i = i + 1;
        }
        proof {
            assert(self.entries@.skip(n as int) =~= Seq::<(Source, Handle)>::empty());
        }
        None
    }

    /// Raw resolution of a source, without the cache: asks the backend —
    /// the `f` handed in — for a handle, and turns a refusal into a
    /// `LoadError` that names the source.
    pub fn load<F: FnOnce(Source) -> Option<Handle>>(&self, source: Source, f: F) -> (r: Result<
        Handle,
        LoadError,
    >)
        requires
            call_requires(f, (source,)),
        ensures
            match r {
                Ok(h) => call_ensures(f, (source,), Some(h)),
                Err(e) => call_ensures(f, (source,), None::<Handle>) && e.src == source,
            },
    {
        let kept = source.clone();
        match f(source) {
            Some(h) => Ok(h),
            None => Err(LoadError { src: kept }),
        }
    }

    /// Resolve a source to a handle.  A cached source is answered from the
    /// cache, without consulting `f` again; otherwise `f` resolves it, and
    /// a successful resolution is cached.
    pub fn get_media<F: FnOnce(Source) -> Option<Handle>>(
        &mut self,
        source: Source,
        f: F,
    ) -> (r: Result<Handle, LoadError>)
        requires
            call_requires(f, (source,)),
        ensures
            old(self).cache().contains_key(source@) ==> {
                &&& *final(self) == *old(self)
                &&& r == Ok::<Handle, LoadError>(old(self).cache()[source@])
            },
            !old(self).cache().contains_key(source@) ==> match r {
                Ok(h) => call_ensures(f, (source,), Some(h)) && final(self).cache() == old(
                    self,
                ).cache().insert(source@, h),
                Err(e) => call_ensures(f, (source,), None::<Handle>) && *final(self) == *old(self)
                    && e.src == source,
            },
    {
        match self.find(&source) {
            Some(h) => Ok(h),
            None => {
                let key = source.clone();
                match self.load(source, f) {
                    Ok(h) => {
                        self.entries.push((key, h));
                        proof {
                            assert forall|k: SourceV|
                                #[trigger] lookup(self.entries@, k) == if lookup(
                                    old(self).entries@,
                                    k,
                                ) is Some {
                                    lookup(old(self).entries@, k)
                                } else if k == source@ {
                                    Some(h)
                                } else {
                                    None::<Handle>
                                } by {
                                assert(self.entries@ =~= old(self).entries@.push((key, h)));
                                lemma_lookup_push(old(self).entries@, (key, h), k);
                            }
                            assert(self.cache() =~= old(self).cache().insert(source@, h));
                        }
                        Ok(h)
                    },
                    Err(e) => Err(e),
                }
            },
        }
    }
}

} // verus!

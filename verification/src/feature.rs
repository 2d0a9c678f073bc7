//! Capability resolution: a cache built from the host-supplied array of
//! capability descriptors, and typed resolution out of it.
//!
//! Resolving a capability removes its entry from the cache, so a capability
//! with mutable semantics can never be resolved twice and aliased by two
//! typed views at once. Every resolution carries a threading class, and a
//! capability that disallows the caller's class cannot be resolved at all.

use crate::table::spec_assoc_map;
use vstd::prelude::*;

verus! {

/// The threading context a resolution request is made under. Some
/// capabilities are only safe outside the real-time audio context.
#[derive(Clone, Copy, PartialEq, Eq, Structural, Debug)]
pub enum ThreadingClass {
    /// The non-real-time instantiation phase.
    Instantiation,
    /// The real-time audio phase.
    Audio,
    /// Any other host context.
    Other,
}

/// A required capability was absent from the host-supplied array.
#[derive(Debug)]
pub struct MissingFeatureError {
    /// The URI of the capability that was missing.
    pub uri: String,
}

/// One capability descriptor, as supplied by the host: a URI naming the
/// capability and the address of its opaque data.
pub struct FeatureDescriptor {
    /// The URI naming the capability.
    pub uri: String,
    /// The host's opaque data address for it.
    pub data: usize,
}

/// A host capability with a fixed URI, resolvable from an opaque data address
/// under a threading class it allows.
pub trait Feature: Sized {
    /// The URI that identifies this capability.
    spec fn spec_uri() -> Seq<char>;

    /// The threading classes under which this capability may be resolved.
    /// Resolving it under any other class is a programming-contract
    /// violation, which this crate's contracts rule out up front.
    spec fn spec_allows_class(class: ThreadingClass) -> bool;

    /// What resolving this capability from a given data address yields.
    spec fn spec_from_data(data: usize, class: ThreadingClass) -> Option<Self>;

    /// The URI that identifies this capability.
    fn uri() -> (r: String)
        ensures
            r@ == Self::spec_uri(),
    ;

    /// Whether this capability may be resolved under the given threading
    /// class, so an unverified caller can test the contract before resolving.
    fn allows_class(class: ThreadingClass) -> (r: bool)
        ensures
            r == Self::spec_allows_class(class),
    ;

    /// Converts the host's opaque data address into the capability, under a
    /// threading class the capability allows.
    fn from_feature_data(data: usize, class: ThreadingClass) -> (r: Option<Self>)
        requires
            Self::spec_allows_class(class),
        ensures
            r == Self::spec_from_data(data, class),
    ;
}

/// Adapts a resolved capability to the optionality a caller asked for: a
/// required capability (absence is an error) or an optional one (absence is a
/// valid `None`, never an error).
pub trait FromResolvedFeature<F: Feature>: Sized {
    /// What the adaptation yields; `None` stands for the missing-capability
    /// error.
    spec fn spec_from_resolved(feature: Option<F>) -> Option<Self>;

    /// Adapts the outcome of a resolution.
    fn from_resolved_feature(feature: Option<F>) -> (r: Result<Self, MissingFeatureError>)
        ensures
            match Self::spec_from_resolved(feature) {
                Some(t) => r is Ok && r->Ok_0 == t,
                None => r is Err && r->Err_0.uri@ == F::spec_uri(),
            },
    ;
}

/// A required capability: absence is a missing-capability error.
impl<F: Feature> FromResolvedFeature<F> for F {
    open spec fn spec_from_resolved(feature: Option<F>) -> Option<F> {
        feature
    }

    fn from_resolved_feature(feature: Option<F>) -> (r: Result<F, MissingFeatureError>) {
        match feature {
            Some(f) => Ok(f),
            None => Err(MissingFeatureError { uri: F::uri() }),
        }
    }
}

/// An optional capability: absence is a valid `None`, never an error.
impl<F: Feature> FromResolvedFeature<F> for Option<F> {
    open spec fn spec_from_resolved(feature: Option<F>) -> Option<Option<F>> {
        Some(feature)
    }

    fn from_resolved_feature(feature: Option<F>) -> (r: Result<Option<F>, MissingFeatureError>) {
        Ok(feature)
    }
}

/// The URI/address pairs a run of descriptors carries.
pub open spec fn spec_descs(s: Seq<FeatureDescriptor>) -> Seq<(Seq<char>, usize)> {
    s.map_values(|d: FeatureDescriptor| (d.uri@, d.data))
}

/// Cache for host capabilities, used in the capability discovery stage: a
/// mapping from URI to the host's opaque data address, built once from the
/// host-supplied descriptor array.
pub struct FeatureCache {
    entries: Vec<FeatureDescriptor>,
}

impl FeatureCache {
    /// The cache's entries as URI/address pairs, in the order supplied.
    pub closed spec fn spec_entries(&self) -> Seq<(Seq<char>, usize)> {
        spec_descs(self.entries@)
    }

    /// The mapping the cache holds: if the host supplied several descriptors
    /// under one URI (a host contract violation), the last one wins.
    pub open spec fn as_map(&self) -> Map<Seq<char>, usize> {
        spec_assoc_map(self.spec_entries())
    }

    /// Builds a cache from the descriptors of the host-supplied array, kept
    /// in the order supplied. A host that supplies no array at all hands this
    /// an empty run of descriptors and gets an empty cache, not an error. A
    /// host that supplies several descriptors under one URI violates its own
    /// contract; such duplicates are kept as supplied, every lookup reads the
    /// last of them, and taking the URI removes them all.
    pub fn from_raw(descriptors: Vec<FeatureDescriptor>) -> (r: FeatureCache)
        ensures
            r.spec_entries() == spec_descs(descriptors@),
            r.as_map() == spec_assoc_map(spec_descs(descriptors@)),
    {
        FeatureCache { entries: descriptors }
    }

    /// Whether this cache still holds an entry under the given URI.
    pub fn contains_uri(&self, uri: &String) -> (r: bool)
        ensures
            r == self.as_map().contains_key(uri@),
    {
        let n = self.entries.len();
        let mut i: usize = 0;
        proof {
            assert(self.spec_entries().take(0) =~= Seq::<(Seq<char>, usize)>::empty());
        }
        while i < n
            invariant
                i <= n,
                n == self.spec_entries().len(),
                n == self.entries@.len(),
                !spec_assoc_map(self.spec_entries().take(i as int)).contains_key(uri@),
            decreases n - i,
        {
            proof {
                assert(self.spec_entries().take(i + 1).drop_last() =~= self.spec_entries().take(
                    i as int,
                ));
                assert(self.spec_entries().take(i + 1).last() == self.spec_entries()[i as int]);
            }
            if self.entries[i].uri == *uri {
                proof {
                    crate::table::lemma_assoc_map_present(self.spec_entries(), i as int);
                }
                return true;
            }
            i = i + 1;
        }
        proof {
            assert(self.spec_entries().take(n as int) =~= self.spec_entries());
        }
        false
    }

    /// Whether this cache still holds the capability `F`.
    pub fn contains<F: Feature>(&self) -> (r: bool)
        ensures
            r == self.as_map().contains_key(F::spec_uri()),
    {
        self.contains_uri(&F::uri())
    }

    /// Removes the entry under the given URI, returning its data address;
    /// afterwards the URI is no longer in the cache, so the same capability
    /// cannot be taken twice.
    fn remove_uri(&mut self, uri: &String) -> (r: Option<usize>)
        ensures
            final(self).as_map() == old(self).as_map().remove(uri@),
            match r {
                Some(d) => old(self).as_map().contains_key(uri@) && d == old(self).as_map()[uri@],
                None => !old(self).as_map().contains_key(uri@),
            },
    {
        let ghost orig = self.entries@;
        let mut out: Vec<FeatureDescriptor> = Vec::new();
        let mut found: Option<usize> = None;
        let ghost mut k: int = 0;
        proof {
            assert(spec_descs(orig).take(0) =~= Seq::<(Seq<char>, usize)>::empty());
            assert(spec_descs(out@) =~= Seq::<(Seq<char>, usize)>::empty());
            assert(spec_assoc_map(spec_descs(out@)) =~= spec_assoc_map(
                spec_descs(orig).take(0),
            ).remove(uri@));
            assert(self.entries@ =~= orig.skip(0));
        }
        while self.entries.len() > 0
            invariant
                0 <= k <= orig.len(),
                self.entries@ == orig.skip(k),
                spec_assoc_map(spec_descs(out@)) == spec_assoc_map(
                    spec_descs(orig).take(k),
                ).remove(uri@),
                match found {
                    Some(d) => spec_assoc_map(spec_descs(orig).take(k)).contains_key(uri@)
                        && spec_assoc_map(spec_descs(orig).take(k))[uri@] == d,
                    None => !spec_assoc_map(spec_descs(orig).take(k)).contains_key(uri@),
                },
            decreases self.entries@.len(),
        {
            proof {
                assert(orig.skip(k).len() > 0);
                assert(orig.skip(k)[0] == orig[k]);
                assert(spec_descs(orig).take(k + 1).drop_last() =~= spec_descs(orig).take(k));
                assert(spec_descs(orig).take(k + 1).last() == spec_descs(orig)[k]);
            }
            let e = self.entries.remove(0);
            proof {
                assert(self.entries@ =~= orig.skip(k + 1));
            }
            if e.uri == *uri {
                found = Some(e.data);
                proof {
                    assert(spec_assoc_map(spec_descs(orig).take(k + 1)) =~= spec_assoc_map(
                        spec_descs(orig).take(k),
                    ).insert(uri@, e.data));
                    assert(spec_assoc_map(spec_descs(orig).take(k + 1)).remove(uri@)
                        =~= spec_assoc_map(spec_descs(orig).take(k)).remove(uri@));
                }
            } else {
                let ghost out_prev = out@;
                out.push(e);
                proof {
                    assert(spec_descs(out@).drop_last() =~= spec_descs(out_prev));
                    assert(spec_descs(out@).last() == spec_descs(orig)[k]);
                    assert(spec_assoc_map(spec_descs(out@)) =~= spec_assoc_map(
                        spec_descs(orig).take(k + 1),
                    ).remove(uri@));
                }
            }
            proof {
                k = k + 1;
            }
        }
        proof {
            assert(spec_descs(orig).take(orig.len() as int) =~= spec_descs(orig));
            assert(spec_descs(orig) =~= old(self).spec_entries());
        }
        self.entries = out;
        found
    }

    /// Tries to resolve a typed capability: looks the binding's URI up,
    /// removes it from the cache, converts the opaque address under the given
    /// threading class, and adapts the outcome to the requested optionality.
    /// A required capability that is absent is a missing-capability error; an
    /// optional one resolves to `None`.
    pub fn retrieve_feature<F: Feature, T: FromResolvedFeature<F>>(
        &mut self,
        class: ThreadingClass,
    ) -> (r: Result<T, MissingFeatureError>)
        requires
            F::spec_allows_class(class),
        ensures
            final(self).as_map() == old(self).as_map().remove(F::spec_uri()),
            ({
                let resolved = if old(self).as_map().contains_key(F::spec_uri()) {
                    F::spec_from_data(old(self).as_map()[F::spec_uri()], class)
                } else {
                    None::<F>
                };
                match T::spec_from_resolved(resolved) {
                    Some(t) => r is Ok && r->Ok_0 == t,
                    None => r is Err && r->Err_0.uri@ == F::spec_uri(),
                }
            }),
    {
        let uri = F::uri();
        let data = self.remove_uri(&uri);
        let resolved = match data {
            Some(d) => F::from_feature_data(d, class),
            None => None,
        };
        T::from_resolved_feature(resolved)
    }

    /// A full, independent copy of the remaining URI/address entries, so a
    /// collaborator that inspects the cache cannot starve later consumers.
    pub fn clone_remaining(&self) -> (r: FeatureCache)
        ensures
            r.spec_entries() == self.spec_entries(),
            r.as_map() == self.as_map(),
    {
        let n = self.entries.len();
        let mut out: Vec<FeatureDescriptor> = Vec::new();
        let mut i: usize = 0;
        while i < n
            invariant
                i <= n,
                n == self.entries@.len(),
                spec_descs(out@) == spec_descs(self.entries@).take(i as int),
            decreases n - i,
        {
            let uri = self.entries[i].uri.clone();
            let data = self.entries[i].data;
            let ghost out_prev = out@;
            out.push(FeatureDescriptor { uri, data });
            proof {
                assert(spec_descs(out@).drop_last() =~= spec_descs(out_prev));
                assert(spec_descs(out@).last() == spec_descs(self.entries@)[i as int]);
                assert(spec_descs(self.entries@).take(i + 1).drop_last() =~= spec_descs(
                    self.entries@,
                ).take(i as int));
                assert(spec_descs(self.entries@).take(i + 1).last() == spec_descs(
                    self.entries@,
                )[i as int]);
                assert(spec_descs(out@) =~= spec_descs(self.entries@).take(i + 1));
            }
            i = i + 1;
        }
        proof {
            assert(spec_descs(self.entries@).take(n as int) =~= spec_descs(self.entries@));
        }
        FeatureCache { entries: out }
    }

    /// Hands the remaining entries out as descriptors, each held entry
    /// exactly once, in the order they are held. A URI that a
    /// contract-violating host supplied twice appears once per descriptor
    /// supplied.
    pub fn into_descriptors(self) -> (r: Vec<FeatureDescriptor>)
        ensures
            spec_descs(r@) == self.spec_entries(),
    {
        self.entries
    }
}

/// Cache single-consumption: once a capability's URI has been resolved out of
/// a cache, the cache no longer holds that URI, so resolving the same required
/// capability a second time cannot find it and must report it missing rather
/// than hand out a second, aliasing view.
pub proof fn lemma_cache_single_consumption(m: Map<Seq<char>, usize>, uri: Seq<char>)
    ensures
        !m.remove(uri).contains_key(uri),
{
}

/// A bundle of capabilities resolved together out of one cache.
pub trait FeatureCollection: Sized {
    /// Resolves this bundle from the cache under the given threading class.
    fn from_cache(cache: &mut FeatureCache, class: ThreadingClass) -> Result<
        Self,
        MissingFeatureError,
    >;
}

/// The cache itself is resolvable as a capability: later-stage collaborators
/// get a full, independent copy of the remaining entries, and the source
/// cache keeps every entry, so the consumer cannot starve later consumers.
impl FeatureCollection for FeatureCache {
    fn from_cache(cache: &mut FeatureCache, _class: ThreadingClass) -> (r: Result<
        FeatureCache,
        MissingFeatureError,
    >)
        ensures
            *final(cache) == *old(cache),
            r is Ok,
            r->Ok_0.spec_entries() == old(cache).spec_entries(),
            r->Ok_0.as_map() == old(cache).as_map(),
    {
        Ok(cache.clone_remaining())
    }
}

} // verus!

//! The region lookups with their caches: a lookup looks in the memory
//! cache, then in the disk cache, and answers from a fresh entry found
//! there; otherwise (no entry, or a stale one) it asks the Linden Lab
//! lookup service and reads the answer. Every answer then updates the
//! caches: a storable one is remembered (as a value or as an absence), any
//! other one makes them forget the key.
//!
//! The lookup is a sequence of steps: each step takes what the previous
//! action brought (an event) and says what to do next (an action); the
//! caller performs the action (reads a cache, asks the service, writes the
//! caches) and hands back the next event.
use vstd::prelude::*;

use crate::region::{
    cache_action, coordinates_lookup_url, coords_response_is, name_response_is,
    parse_coordinates_response, parse_region_name_response, region_name_lookup_url,
    spec_cache_action, spec_coordinates_lookup_url, spec_region_name_lookup_url, CacheAction,
    CoordinatesResponseError, RegionNameResponseError,
};

verus! {

/// a cache entry of a lookup: the value it holds (`None`: the remembered
/// answer that there is none), and what its cache policy says now
#[derive(Debug, Clone)]
pub struct CachedAnswer<V> {
    /// the remembered value, or `None` for a remembered absence
    pub value: Option<V>,
    /// the cache policy says the entry may be used without asking again
    pub fresh: bool,
    /// the cache policy allows storing the entry
    pub storable: bool,
}

/// what the previous action of a lookup brought
#[derive(Debug)]
pub enum LookupEvent<V> {
    /// the lookup begins
    Start,
    /// what the memory cache holds for the key
    Memory(Option<CachedAnswer<V>>),
    /// what the disk cache holds for the key (an entry is there when its
    /// cache policy is)
    Disk(Option<CachedAnswer<V>>),
    /// the service's answer: its text, and whether its cache policy allows
    /// storing it
    Response {
        /// the answer's text
        body: String,
        /// the answer's cache policy allows storing it
        storable: bool,
    },
}

/// what a lookup does next
#[derive(Debug)]
pub enum LookupStep<V, E> {
    /// look in the memory cache
    ReadMemory,
    /// look in the disk cache
    ReadDisk,
    /// ask the service at this address
    Fetch(String),
    /// update the caches as told and answer the value
    Answer(CacheAction, Option<V>),
    /// the service's answer could not be read
    Fail(E),
}

/// `r` is the step after the cache entry `c` was found: a fresh entry is
/// the answer (and is stored again or forgotten per its policy), a stale
/// one sends the lookup to the service at `url`
pub open spec fn cached_step_is<V, E>(url: Seq<char>, c: CachedAnswer<V>, r: LookupStep<V, E>) -> bool {
    if c.fresh {
        r == LookupStep::<V, E>::Answer(spec_cache_action(c.value is Some, c.storable), c.value)
    } else {
        r matches LookupStep::Fetch(u) && u@ == url
    }
}

/// `r` is the step of a lookup at the service address `url` after `ev`,
/// the service's answers being read by `read` (`read(body, x)`: `x` is the
/// reading of `body`)
pub open spec fn lookup_step_is<V, E>(
    url: Seq<char>,
    ev: LookupEvent<V>,
    read: spec_fn(Seq<char>, Result<Option<V>, E>) -> bool,
    r: LookupStep<V, E>,
) -> bool {
    match ev {
        LookupEvent::Start => r is ReadMemory,
        LookupEvent::Memory(None) => r is ReadDisk,
        LookupEvent::Memory(Some(c)) => cached_step_is(url, c, r),
        LookupEvent::Disk(None) => r matches LookupStep::Fetch(u) && u@ == url,
        LookupEvent::Disk(Some(c)) => cached_step_is(url, c, r),
        LookupEvent::Response { body, storable } => match r {
            LookupStep::Answer(a, v) => read(body@, Ok(v)) && a == spec_cache_action(
                v is Some,
                storable,
            ),
            LookupStep::Fail(e) => read(body@, Err(e)),
            _ => false,
        },
    }
}

/// the step after the cache entry `c` was found
fn cached_step<V, E>(url: String, c: CachedAnswer<V>) -> (r: LookupStep<V, E>)
    ensures
        cached_step_is(url@, c, r),
{
    if c.fresh {
        let found = match &c.value {
            Some(_) => true,
            None => false,
        };
        LookupStep::Answer(cache_action(found, c.storable), c.value)
    } else {
        LookupStep::Fetch(url)
    }
}

/// The next step of looking up the grid coordinates of the region named
/// `region_name` (see the module documentation)
pub fn coordinates_lookup_step(region_name: &str, ev: LookupEvent<(u16, u16)>) -> (r: LookupStep<
    (u16, u16),
    CoordinatesResponseError,
>)
    ensures
        lookup_step_is(
            spec_coordinates_lookup_url(region_name@),
            ev,
            |b: Seq<char>, x: Result<Option<(u16, u16)>, CoordinatesResponseError>|
                coords_response_is(b, x),
            r,
        ),
{
    match ev {
        LookupEvent::Start => LookupStep::ReadMemory,
        LookupEvent::Memory(None) => LookupStep::ReadDisk,
        LookupEvent::Memory(Some(c)) => cached_step(coordinates_lookup_url(region_name), c),
        LookupEvent::Disk(None) => LookupStep::Fetch(coordinates_lookup_url(region_name)),
        LookupEvent::Disk(Some(c)) => cached_step(coordinates_lookup_url(region_name), c),
        LookupEvent::Response { body, storable } => match parse_coordinates_response(body.as_str()) {
            Ok(v) => {
                let found = match &v {
                    Some(_) => true,
                    None => false,
                };
                LookupStep::Answer(cache_action(found, storable), v)
            },
            Err(e) => LookupStep::Fail(e),
        },
    }
}

/// The next step of looking up the name of the region at grid coordinates
/// (`x`, `y`) (see the module documentation)
pub fn region_name_lookup_step(x: u32, y: u32, ev: LookupEvent<String>) -> (r: LookupStep<
    String,
    RegionNameResponseError,
>)
    ensures
        lookup_step_is(
            spec_region_name_lookup_url(x, y),
            ev,
            |b: Seq<char>, v: Result<Option<String>, RegionNameResponseError>|
                name_response_is(b, v),
            r,
        ),
{
    match ev {
        LookupEvent::Start => LookupStep::ReadMemory,
        LookupEvent::Memory(None) => LookupStep::ReadDisk,
        LookupEvent::Memory(Some(c)) => cached_step(region_name_lookup_url(x, y), c),
        LookupEvent::Disk(None) => LookupStep::Fetch(region_name_lookup_url(x, y)),
        LookupEvent::Disk(Some(c)) => cached_step(region_name_lookup_url(x, y), c),
        LookupEvent::Response { body, storable } => match parse_region_name_response(body.as_str()) {
            Ok(v) => {
                let found = match &v {
                    Some(_) => true,
                    None => false,
                };
                LookupStep::Answer(cache_action(found, storable), v)
            },
            Err(e) => LookupStep::Fail(e),
        },
    }
}

/// A cached lookup gives back what the service answered: the caches hold
/// only what a lookup answered from the service (or from them), so when a
/// lookup answered `v` from the service and stored it, a later lookup that
/// finds that entry fresh answers the same `v` without asking again, and
/// one that finds it stale asks the service again; an answer that was not
/// storable is forgotten, so a later lookup never answers it from a cache
pub proof fn lemma_cached_answer_is_upstream_answer<V, E>(
    url: Seq<char>,
    read: spec_fn(Seq<char>, Result<Option<V>, E>) -> bool,
    body: String,
    storable: bool,
    first: LookupStep<V, E>,
    fresh: bool,
    second: LookupStep<V, E>,
)
    requires
        lookup_step_is(url, LookupEvent::Response { body, storable }, read, first),
        first is Answer,
        lookup_step_is(
            url,
            LookupEvent::Memory(
                Some(CachedAnswer { value: first->Answer_1, fresh, storable }),
            ),
            read,
            second,
        ),
    ensures
        read(body@, Ok(first->Answer_1)),
        first->Answer_0 == CacheAction::Forget <==> !storable,
        fresh ==> second is Answer && second->Answer_1 == first->Answer_1,
        !fresh ==> (second matches LookupStep::Fetch(u) && u@ == url),
{
}

} // verus!

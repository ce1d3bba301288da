//! The cache of running and finished syncs: one per device, shared by
//! every request of that device that starts from the same token.

use vstd::prelude::*;
use vstd::string::*;
use crate::strings::{opt_string_view, same_opt_string};
use crate::table::{Key, Table};

verus! {

/// A device of a user: what a sync is cached for.
#[derive(Debug)]
pub struct DeviceKey {
    /// The user.
    pub user: String,
    /// The user's device.
    pub device: String,
}

impl Key for DeviceKey {
    type Shown = (Seq<char>, Seq<char>);

    open spec fn shown(&self) -> (Seq<char>, Seq<char>) {
        (self.user@, self.device@)
    }

    fn same(&self, other: &Self) -> (r: bool) {
        self.user == other.user && self.device == other.device
    }
}

/// The sync that is cached for a device: the token it started from, and
/// the handle on which its result arrives.
#[derive(Debug)]
pub struct CachedSync<H> {
    /// The `since` token of the request that started the sync, as it came.
    pub since: Option<String>,
    /// Where the result arrives: pending at first, then resolved for good.
    pub handle: H,
}

/// What the cache holds, as contracts see it.
pub type CacheView<H> = Map<(Seq<char>, Seq<char>), CachedSync<H>>;

/// Whether a request finds a sync to join: one is cached for its device,
/// started from the very token that the request names.
pub open spec fn finds_sync<H>(
    cache: CacheView<H>,
    device: (Seq<char>, Seq<char>),
    since: Option<Seq<char>>,
) -> bool {
    cache.contains_key(device) && opt_string_view(cache[device].since) == since
}

/// The cache after a request came in: unchanged where the request joins
/// the cached sync; with a fresh sync in place of whatever was cached for
/// the device where it does not.
pub open spec fn after_request<H>(
    cache: CacheView<H>,
    device: (Seq<char>, Seq<char>),
    since: Option<String>,
    fresh: H,
) -> CacheView<H> {
    if finds_sync(cache, device, opt_string_view(since)) {
        cache
    } else {
        cache.insert(device, CachedSync { since, handle: fresh })
    }
}

/// How a sync ended.
#[derive(Clone, Copy, Debug, PartialEq, Eq, Structural)]
pub enum Completion {
    /// It failed. The failure answers the requests that wait for it.
    Failed,
    /// It made a response. `caching_allowed` says whether the response may
    /// answer later identical requests too.
    Succeeded { caching_allowed: bool },
}

/// Whether a finished sync is dropped from the cache: it made a response
/// that may not be kept, and no other request took its place meanwhile.
pub open spec fn drops_sync<H>(
    cache: CacheView<H>,
    device: (Seq<char>, Seq<char>),
    since: Option<Seq<char>>,
    completion: Completion,
) -> bool {
    completion == (Completion::Succeeded { caching_allowed: false }) && finds_sync(
        cache,
        device,
        since,
    )
}

/// The cache of syncs, one per device at most.
#[derive(Debug)]
pub struct SyncCache<H> {
    syncs: Table<DeviceKey, CachedSync<H>>,
}

impl<H> View for SyncCache<H> {
    type V = CacheView<H>;

    closed spec fn view(&self) -> CacheView<H> {
        self.syncs@
    }
}

impl<H> SyncCache<H> {
    /// The cache before any request.
    pub fn new() -> (r: Self)
        ensures
            r@ == Map::<(Seq<char>, Seq<char>), CachedSync<H>>::empty(),
    {
        SyncCache { syncs: Table::new() }
    }

    /// The sync that is cached for a device, if there is one.
    pub fn get(&self, device: &DeviceKey) -> (r: Option<&CachedSync<H>>)
        ensures
            match r {
                Some(s) => self@.contains_key(device.shown()) && self@[device.shown()] == *s,
                None => !self@.contains_key(device.shown()),
            },
    {
        self.syncs.get(device)
    }

    /// Whether a request finds a sync to join.
    pub fn joins(&self, device: &DeviceKey, since: &Option<String>) -> (r: bool)
        ensures
            r == finds_sync(self@, device.shown(), opt_string_view(*since)),
    {
        match self.syncs.get(device) {
            Some(sync) => same_opt_string(&sync.since, since),
            None => false,
        }
    }

    /// Takes a request in. Where a sync is cached for the device that
    /// started from the same token, the request joins it and the cache
    /// stays as it is. Otherwise a sync has to be started: `fresh` becomes
    /// its handle and takes the place of whatever was cached for the
    /// device. Says whether a sync has to be started.
    pub fn get_or_start(&mut self, device: DeviceKey, since: Option<String>, fresh: H) -> (start:
        bool)
        ensures
            start == !finds_sync(old(self)@, device.shown(), opt_string_view(since)),
            final(self)@ == after_request(old(self)@, device.shown(), since, fresh),
            finds_sync(final(self)@, device.shown(), opt_string_view(since)),
    {
        if self.joins(&device, &since) {
            false
        } else {
            self.syncs.insert(device, CachedSync { since, handle: fresh });
            true
        }
    }

    /// Settles the cache when a sync has ended. A response that may not be
    /// kept is dropped, unless another request has taken the sync's place
    /// meanwhile. Says whether the sync was dropped.
    pub fn finish(&mut self, device: &DeviceKey, since: &Option<String>, completion: Completion) -> (dropped:
        bool)
        ensures
            dropped == drops_sync(old(self)@, device.shown(), opt_string_view(*since), completion),
            final(self)@ == if dropped {
                old(self)@.remove(device.shown())
            } else {
                old(self)@
            },
    {
        match completion {
            Completion::Succeeded { caching_allowed } => {
                if !caching_allowed && self.joins(device, since) {
                    self.syncs.remove(device);
                    true
                } else {
                    false
                }
            },
            Completion::Failed => false,
        }
    }
}

/// Of two identical requests that come one after the other, only the first
/// starts a sync: the second joins it, and finds the first one's handle.
pub proof fn lemma_identical_requests_share<H>(
    cache: CacheView<H>,
    device: (Seq<char>, Seq<char>),
    since: Option<String>,
    first: H,
    second: H,
)
    ensures
        ({
            let once = after_request(cache, device, since, first);
            let twice = after_request(once, device, since, second);
            &&& finds_sync(once, device, opt_string_view(since))
            &&& twice == once
            &&& !finds_sync(cache, device, opt_string_view(since)) ==> twice[device].handle == first
        }),
{
}

/// A request that names another token than the cached sync takes its
/// place: afterwards the device's sync is the fresh one.
pub proof fn lemma_other_token_preempts<H>(
    cache: CacheView<H>,
    device: (Seq<char>, Seq<char>),
    since: Option<String>,
    fresh: H,
)
    requires
        cache.contains_key(device),
        opt_string_view(cache[device].since) != opt_string_view(since),
    ensures
        after_request(cache, device, since, fresh)[device] == (CachedSync { since, handle: fresh }),
        after_request(cache, device, since, fresh).dom() == cache.dom(),
{
    assert(after_request(cache, device, since, fresh).dom() =~= cache.dom());
}

/// A request never touches what is cached for another device.
pub proof fn lemma_other_devices_untouched<H>(
    cache: CacheView<H>,
    device: (Seq<char>, Seq<char>),
    since: Option<String>,
    fresh: H,
    other: (Seq<char>, Seq<char>),
)
    requires
        other != device,
    ensures
        after_request(cache, device, since, fresh).contains_key(other) == cache.contains_key(other),
        cache.contains_key(other) ==> after_request(cache, device, since, fresh)[other]
            == cache[other],
{
}

} // verus!

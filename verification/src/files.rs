//! The file cache: every file is fetched at most once, and its outcome,
//! content or error, is kept.

use vstd::prelude::*;
use crate::data::{Content, FileData};
use crate::entry::{
    disk_outcome, lookup_view, outcome_view, read_view, virtual_outcome, FileEntry, FileEntryView,
    Outcome, ReadFailure,
};
use crate::error::{FileError, FileErrorView};
use crate::id::{FileId, FileIdView};
use crate::resolve::{
    located_entity, located_view, resolve_entity, resolve_path, resolves, FileLocation,
    FileLocationView,
};

verus! {

/// What the cache keeps for one file.
pub struct CacheEntry {
    /// The file was asked for since the last reset.
    pub accessed: bool,
    /// What loading it gave.
    pub outcome: Outcome,
}

/// The cache as a map from identifiers to what is kept for them.
pub type Cache = Map<FileIdView, CacheEntry>;

/// One load of `id`: a file that the cache holds keeps its outcome, any other
/// takes `fetched`; either way the file is marked as asked for.
pub open spec fn load_step(cache: Cache, id: FileIdView, fetched: Outcome) -> (Cache, Outcome) {
    let outcome = if cache.contains_key(id) {
        cache[id].outcome
    } else {
        fetched
    };
    (cache.insert(id, CacheEntry { accessed: true, outcome }), outcome)
}

/// The cache after a reset: the same outcomes, none of them asked for.
pub open spec fn reset_step(cache: Cache) -> Cache {
    Map::new(
        |id: FileIdView| cache.contains_key(id),
        |id: FileIdView| CacheEntry { accessed: false, outcome: cache[id].outcome },
    )
}

/// One load of `id` after another, each with what a fetch would give it.
pub open spec fn load_steps(cache: Cache, id: FileIdView, fetched: Seq<Outcome>) -> (
    Cache,
    Seq<Outcome>,
)
    decreases fetched.len(),
{
    if fetched.len() == 0 {
        (cache, Seq::empty())
    } else {
        let (before, outcomes) = load_steps(cache, id, fetched.drop_last());
        let (after, outcome) = load_step(before, id, fetched.last());
        (after, outcomes.push(outcome))
    }
}

/// A second load of a file returns what the first returned and leaves the
/// cache as the first left it, whatever a second fetch would have given:
/// the file is held after the first load, so the second fetches nothing.
pub proof fn lemma_load_twice(
    cache: Cache,
    id: FileIdView,
    first: Outcome,
    second: Outcome,
)
    ensures
        load_step(cache, id, first).0.contains_key(id),
        load_step(load_step(cache, id, first).0, id, second).1 == load_step(cache, id, first).1,
        load_step(load_step(cache, id, first).0, id, second).0 == load_step(cache, id, first).0,
{
    let once = load_step(cache, id, first);
    let twice = load_step(once.0, id, second);
    assert(twice.0 =~= once.0);
}

/// However many callers load the same file one after another, each gets the
/// outcome that the first got, and the cache ends as the first load left it:
/// only the first fetch is ever used.
pub proof fn lemma_load_many(cache: Cache, id: FileIdView, fetched: Seq<Outcome>)
    requires
        fetched.len() > 0,
    ensures
        load_steps(cache, id, fetched).0 == load_step(cache, id, fetched[0]).0,
        load_steps(cache, id, fetched).1.len() == fetched.len(),
        forall|i: int|
            0 <= i < fetched.len() ==> #[trigger] load_steps(cache, id, fetched).1[i] == load_step(
                cache,
                id,
                fetched[0],
            ).1,
    decreases fetched.len(),
{
    let front = fetched.drop_last();
    if front.len() == 0 {
        assert(load_steps(cache, id, front).0 == cache);
        assert(load_steps(cache, id, front).1 =~= Seq::empty());
    } else {
        lemma_load_many(cache, id, front);
        lemma_load_twice(cache, id, fetched[0], fetched.last());
    }
}

/// Loads one after another, of any files in any order, each with what a
/// fetch would give it: what callers behind one lock amount to.
pub open spec fn load_trace(cache: Cache, requests: Seq<(FileIdView, Outcome)>) -> (
    Cache,
    Seq<Outcome>,
)
    decreases requests.len(),
{
    if requests.len() == 0 {
        (cache, Seq::empty())
    } else {
        let (before, outcomes) = load_trace(cache, requests.drop_last());
        let (after, outcome) = load_step(before, requests.last().0, requests.last().1);
        (after, outcomes.push(outcome))
    }
}

/// Every load gets an outcome, and the cache then holds the file with the
/// outcome that its latest load got.
pub proof fn lemma_trace_holds(cache: Cache, requests: Seq<(FileIdView, Outcome)>, i: int)
    requires
        0 <= i < requests.len(),
    ensures
        load_trace(cache, requests).1.len() == requests.len(),
        load_trace(cache, requests).0.contains_key(requests[i].0),
        load_trace(cache, requests).0[requests[i].0].outcome == load_trace(cache, requests).1[i],
    decreases requests.len(),
{
    let front = requests.drop_last();
    if front.len() == 0 {
        assert(load_trace(cache, front).1 =~= Seq::<Outcome>::empty());
    } else if i < front.len() {
        lemma_trace_holds(cache, front, i);
    } else {
        lemma_trace_holds(cache, front, 0);
    }
}

/// In whatever order callers are served, and whatever else is loaded in
/// between, every load of a file returns what the first load of it
/// returned: no later fetch is ever used.
pub proof fn lemma_callers_agree(
    cache: Cache,
    requests: Seq<(FileIdView, Outcome)>,
    i: int,
    j: int,
)
    requires
        0 <= i < j < requests.len(),
        requests[i].0 == requests[j].0,
    ensures
        load_trace(cache, requests).1[j] == load_trace(cache, requests).1[i],
    decreases requests.len(),
{
    let front = requests.drop_last();
    lemma_trace_holds(cache, front, i);
    if j < front.len() {
        lemma_callers_agree(cache, front, i, j);
    }
}

/// Loading one file leaves what is kept for every other file as it was.
pub proof fn lemma_load_keeps_others(
    cache: Cache,
    id: FileIdView,
    fetched: Outcome,
    other: FileIdView,
)
    requires
        other != id,
    ensures
        load_step(cache, id, fetched).0.contains_key(other) == cache.contains_key(other),
        cache.contains_key(other) ==> load_step(cache, id, fetched).0[other] == cache[other],
{
}

/// A reset discards nothing: a file held before is held after, and its next
/// load returns the outcome it had, fetching nothing.
pub proof fn lemma_reset_keeps_outcomes(
    cache: Cache,
    id: FileIdView,
    fetched: Outcome,
)
    requires
        cache.contains_key(id),
    ensures
        reset_step(cache).contains_key(id),
        !reset_step(cache)[id].accessed,
        load_step(reset_step(cache), id, fetched).1 == cache[id].outcome,
{
}

/// After a file is evicted its next load keeps what a fresh fetch gives.
pub proof fn lemma_evicted_is_fetched_anew(
    cache: Cache,
    id: FileIdView,
    fetched: Outcome,
)
    ensures
        load_step(cache.remove(id), id, fetched).1 == fetched,
{
}

/// A file and what is kept for it.
#[derive(Debug)]
struct Slot {
    id: FileId,
    entry: FileEntry,
}

/// A mapping of file identifiers to their memoized outcomes.
///
/// Identifiers are told apart by value, which is all that is known of
/// them: the files are kept in a list in which no identifier occurs twice,
/// and a lookup walks it.
#[derive(Debug)]
pub struct Files {
    slots: Vec<Slot>,
}

/// What a load of a file that the cache lacks may memoize: for a reserved
/// identifier what the lookup of its entity gives, for any other what
/// reading the path gives that the identifier resolves to, or the failure to
/// resolve it.
pub open spec fn fetches<P, L, R>(
    id: FileIdView,
    root: Seq<char>,
    prepare: P,
    entity_lookup: L,
    read: R,
    outcome: Outcome,
) -> bool where
    P: FnOnce(&str) -> Result<String, String>,
    L: FnOnce(u64) -> Option<Vec<u8>>,
    R: FnOnce(&str) -> Result<Vec<u8>, ReadFailure>,
 {
    if id.is_reserved() {
        match id.handle() {
            Some(handle) => exists|got: Option<Vec<u8>>|
                call_ensures(entity_lookup, (handle,), got) && outcome == virtual_outcome(
                    lookup_view(got),
                ),
            None => outcome == Err::<Content, FileErrorView>(FileErrorView::AccessDenied),
        }
    } else {
        exists|located: Result<FileLocationView, FileErrorView>|
            #[trigger] resolves(id, root, prepare, located) && match located {
                Ok(FileLocationView::Disk(path)) => reads(path, read, outcome),
                Ok(FileLocationView::Virtual(_)) => false,
                Err(error) => outcome == Err::<Content, FileErrorView>(error),
            }
    }
}

/// Whatever a fetch of `id` may ask can be asked: the lookup of its entity
/// for a reserved identifier; for any other the directory of its package,
/// if it has one, and a read from disk.
pub open spec fn asks_only_what_answers<P, L, R>(
    id: FileIdView,
    prepare: P,
    entity_lookup: L,
    read: R,
) -> bool where
    P: FnOnce(&str) -> Result<String, String>,
    L: FnOnce(u64) -> Option<Vec<u8>>,
    R: FnOnce(&str) -> Result<Vec<u8>, ReadFailure>,
 {
    if id.is_reserved() {
        id.handle() matches Some(handle) ==> call_requires(entity_lookup, (handle,))
    } else {
        &&& id.package matches Some(package) ==> forall|spec: &str|
            spec@ == package ==> call_requires(prepare, (spec,))
        &&& forall|path: &str| call_requires(read, (path,))
    }
}

/// A reserved identifier never touches the disk: what its fetch may
/// memoize is the same whatever the root, the package resolver and the
/// reader are.
pub proof fn lemma_reserved_never_reads<P, Q, L, R, S>(
    id: FileIdView,
    root: Seq<char>,
    other_root: Seq<char>,
    prepare: P,
    other_prepare: Q,
    entity_lookup: L,
    read: R,
    other_read: S,
    outcome: Outcome,
) where
    P: FnOnce(&str) -> Result<String, String>,
    Q: FnOnce(&str) -> Result<String, String>,
    L: FnOnce(u64) -> Option<Vec<u8>>,
    R: FnOnce(&str) -> Result<Vec<u8>, ReadFailure>,
    S: FnOnce(&str) -> Result<Vec<u8>, ReadFailure>,

    requires
        id.is_reserved(),
    ensures
        fetches(id, root, prepare, entity_lookup, read, outcome) == fetches(
            id,
            other_root,
            other_prepare,
            entity_lookup,
            other_read,
            outcome,
        ),
        fetches(id, root, prepare, entity_lookup, read, outcome) ==> outcome is Ok || outcome
            == Err::<Content, FileErrorView>(FileErrorView::AccessDenied),
{
}

/// What reading the file at `path` may memoize.
pub open spec fn reads<R>(path: Seq<char>, read: R, outcome: Outcome) -> bool where
    R: FnOnce(&str) -> Result<Vec<u8>, ReadFailure>,
 {
    exists|at: &str, got: Result<Vec<u8>, ReadFailure>|
        at@ == path && call_ensures(read, (at,), got) && outcome == disk_outcome(
            path,
            read_view(got),
        )
}

/// No identifier has two slots.
spec fn distinct(slots: Seq<Slot>) -> bool {
    forall|i: int, j: int|
        0 <= i < j < slots.len() ==> (#[trigger] slots[i]).id@ != (#[trigger] slots[j]).id@
}

/// Every slot holds an outcome.
spec fn filled(slots: Seq<Slot>) -> bool {
    forall|i: int| 0 <= i < slots.len() ==> (#[trigger] slots[i]).entry@.outcome is Some
}

/// Some slot is for `id`.
spec fn holds(slots: Seq<Slot>, id: FileIdView) -> bool {
    exists|i: int| 0 <= i < slots.len() && (#[trigger] slots[i]).id@ == id
}

/// The slot that is for `id`.
spec fn position(slots: Seq<Slot>, id: FileIdView) -> int {
    choose|i: int| 0 <= i < slots.len() && (#[trigger] slots[i]).id@ == id
}

/// What slot `i` keeps.
spec fn kept_at(slots: Seq<Slot>, i: int) -> CacheEntry {
    let entry = slots[i].entry@;
    CacheEntry { accessed: entry.accessed, outcome: entry.outcome->0 }
}

/// The map that the slots stand for.
spec fn cache_of(slots: Seq<Slot>) -> Cache {
    Map::new(
        |id: FileIdView| holds(slots, id),
        |id: FileIdView| kept_at(slots, position(slots, id)),
    )
}

/// Where no identifier has two slots, a slot for `id` is the slot for `id`.
proof fn lemma_position(slots: Seq<Slot>, i: int)
    requires
        distinct(slots),
        0 <= i < slots.len(),
    ensures
        holds(slots, slots[i].id@),
        position(slots, slots[i].id@) == i,
        cache_of(slots).contains_key(slots[i].id@),
        cache_of(slots)[slots[i].id@] == kept_at(slots, i),
{
    let j = position(slots, slots[i].id@);
    assert(0 <= j < slots.len() && slots[j].id@ == slots[i].id@);
    if j < i {
        assert(slots[j].id@ != slots[i].id@);
    }
    if i < j {
        assert(slots[i].id@ != slots[j].id@);
    }
}

/// A changed entry in slot `at` changes the map at that slot's identifier alone.
proof fn lemma_cache_update(before: Seq<Slot>, after: Seq<Slot>, at: int)
    requires
        distinct(before),
        0 <= at < before.len(),
        after.len() == before.len(),
        forall|i: int| 0 <= i < before.len() ==> (#[trigger] after[i]).id@ == before[i].id@,
        forall|i: int|
            0 <= i < before.len() && i != at ==> (#[trigger] after[i]).entry@ == before[i].entry@,
    ensures
        distinct(after),
        cache_of(after) =~= cache_of(before).insert(before[at].id@, kept_at(after, at)),
{
    assert(distinct(after)) by {
        assert forall|i: int, j: int| 0 <= i < j < after.len() implies
            (#[trigger] after[i]).id@ != (#[trigger] after[j]).id@ by {
            assert(before[i].id@ != before[j].id@);
        }
    }
    let target = cache_of(before).insert(before[at].id@, kept_at(after, at));
    assert forall|id: FileIdView| cache_of(after).contains_key(id) implies
        #[trigger] target.contains_key(id) && cache_of(after)[id] == target[id] by {
        let j = position(after, id);
        assert(0 <= j < after.len() && after[j].id@ == id);
        lemma_position(after, j);
        assert(before[j].id@ == id);
        lemma_position(before, j);
    }
    assert forall|id: FileIdView| target.contains_key(id) implies
        #[trigger] cache_of(after).contains_key(id) by {
        if id == before[at].id@ {
            lemma_position(after, at);
        } else {
            let j = position(before, id);
            assert(0 <= j < before.len() && before[j].id@ == id);
            lemma_position(after, j);
        }
    }
}

/// A new slot for an identifier without one adds it to the map.
proof fn lemma_cache_push(before: Seq<Slot>, slot: Slot)
    requires
        distinct(before),
        !holds(before, slot.id@),
    ensures
        distinct(before.push(slot)),
        cache_of(before.push(slot)) =~= cache_of(before).insert(
            slot.id@,
            kept_at(before.push(slot), before.len() as int),
        ),
{
    let after = before.push(slot);
    assert(distinct(after)) by {
        assert forall|i: int, j: int| 0 <= i < j < after.len() implies
            (#[trigger] after[i]).id@ != (#[trigger] after[j]).id@ by {
            if j < before.len() {
                assert(before[i].id@ != before[j].id@);
            } else {
                assert(before[i].id@ != slot.id@);
            }
        }
    }
    let target = cache_of(before).insert(slot.id@, kept_at(after, before.len() as int));
    assert forall|id: FileIdView| cache_of(after).contains_key(id) implies
        #[trigger] target.contains_key(id) && cache_of(after)[id] == target[id] by {
        let j = position(after, id);
        assert(0 <= j < after.len() && after[j].id@ == id);
        lemma_position(after, j);
        if j < before.len() {
            assert(before[j].id@ == id);
            lemma_position(before, j);
        }
    }
    assert forall|id: FileIdView| target.contains_key(id) implies
        #[trigger] cache_of(after).contains_key(id) by {
        if id == slot.id@ {
            lemma_position(after, before.len() as int);
        } else {
            let j = position(before, id);
            assert(0 <= j < before.len() && before[j].id@ == id);
            lemma_position(after, j);
        }
    }
}

/// The map has as many files as there are slots.
proof fn lemma_cache_len(slots: Seq<Slot>)
    requires
        distinct(slots),
    ensures
        cache_of(slots).dom().finite(),
        cache_of(slots).len() == slots.len(),
    decreases slots.len(),
{
    if slots.len() == 0 {
        assert(cache_of(slots) =~= Map::<FileIdView, CacheEntry>::empty());
    } else {
        let front = slots.drop_last();
        let slot = slots.last();
        assert(distinct(front));
        lemma_cache_len(front);
        assert(!holds(front, slot.id@)) by {
            if holds(front, slot.id@) {
                let j = position(front, slot.id@);
                assert(slots[j].id@ != slots[slots.len() - 1].id@);
            }
        }
        lemma_cache_push(front, slot);
        assert(front.push(slot) =~= slots);
    }
}

/// Unmarking every entry resets the map.
proof fn lemma_cache_reset(before: Seq<Slot>, after: Seq<Slot>)
    requires
        distinct(before),
        after.len() == before.len(),
        forall|i: int| 0 <= i < before.len() ==> (#[trigger] after[i]).id@ == before[i].id@,
        forall|i: int|
            0 <= i < before.len() ==> (#[trigger] after[i]).entry@ == (FileEntryView {
                accessed: false,
                outcome: before[i].entry@.outcome,
            }),
    ensures
        distinct(after),
        cache_of(after) =~= reset_step(cache_of(before)),
{
    assert(distinct(after)) by {
        assert forall|i: int, j: int| 0 <= i < j < after.len() implies
            (#[trigger] after[i]).id@ != (#[trigger] after[j]).id@ by {
            assert(before[i].id@ != before[j].id@);
        }
    }
    let target = reset_step(cache_of(before));
    assert forall|id: FileIdView| cache_of(after).contains_key(id) implies
        #[trigger] target.contains_key(id) && cache_of(after)[id] == target[id] by {
        let j = position(after, id);
        assert(0 <= j < after.len() && after[j].id@ == id);
        lemma_position(after, j);
        assert(before[j].id@ == id);
        lemma_position(before, j);
    }
    assert forall|id: FileIdView| target.contains_key(id) implies
        #[trigger] cache_of(after).contains_key(id) by {
        let j = position(before, id);
        assert(0 <= j < before.len() && before[j].id@ == id);
        lemma_position(after, j);
    }
}

/// Moving the last slot into slot `at` takes that slot's identifier off the map.
proof fn lemma_cache_remove(before: Seq<Slot>, at: int)
    requires
        distinct(before),
        0 <= at < before.len(),
    ensures
        distinct(before.update(at, before.last()).drop_last()),
        cache_of(before.update(at, before.last()).drop_last()) =~= cache_of(before).remove(
            before[at].id@,
        ),
{
    let after = before.update(at, before.last()).drop_last();
    let last = before.len() - 1;
    assert forall|i: int| 0 <= i < after.len() implies #[trigger] after[i] == before[if i == at {
        last
    } else {
        i
    }] by {}
    assert(distinct(after)) by {
        assert forall|i: int, j: int| 0 <= i < j < after.len() implies
            (#[trigger] after[i]).id@ != (#[trigger] after[j]).id@ by {
            let bi = if i == at { last } else { i };
            let bj = if j == at { last } else { j };
            if bi < bj {
                assert(before[bi].id@ != before[bj].id@);
            } else {
                assert(before[bj].id@ != before[bi].id@);
            }
        }
    }
    let target = cache_of(before).remove(before[at].id@);
    assert forall|id: FileIdView| cache_of(after).contains_key(id) implies
        #[trigger] target.contains_key(id) && cache_of(after)[id] == target[id] by {
        let j = position(after, id);
        assert(0 <= j < after.len() && after[j].id@ == id);
        lemma_position(after, j);
        let bj = if j == at { last } else { j };
        assert(before[bj].id@ == id);
        lemma_position(before, bj);
        if bj < at {
            assert(before[bj].id@ != before[at].id@);
        } else {
            assert(before[at].id@ != before[bj].id@);
        }
    }
    assert forall|id: FileIdView| target.contains_key(id) implies
        #[trigger] cache_of(after).contains_key(id) by {
        let j = position(before, id);
        assert(0 <= j < before.len() && before[j].id@ == id);
        assert(j != at);
        if j == last {
            lemma_position(after, at);
        } else {
            lemma_position(after, j);
        }
    }
}

impl Files {
    #[verifier::type_invariant]
    spec fn wf(&self) -> bool {
        distinct(self.slots@) && filled(self.slots@)
    }

    /// An empty cache.
    pub fn new() -> (r: Files)
        ensures
            r@ == Map::<FileIdView, CacheEntry>::empty(),
    {
        let r = Files { slots: Vec::new() };
        assert(r@ =~= Map::<FileIdView, CacheEntry>::empty());
        r
    }

    /// Where `id` is kept, if it is.
    fn find(&self, id: &FileId) -> (r: Option<usize>)
        ensures
            r matches Some(i) ==> i < self.slots.len() && self.slots[i as int].id@ == id@,
            r is None ==> !holds(self.slots@, id@),
    {
        let n: usize = self.slots.len();
        let mut i: usize = 0;
        while i < n
            invariant
                n == self.slots.len(),
                0 <= i <= n,
                forall|j: int| 0 <= j < i ==> (#[trigger] self.slots[j]).id@ != id@,
            decreases n - i,
        {
            if self.slots[i].id.same(id) {
                return Some(i);
            }
            i += 1;
        }
        None
    }

    /// The entry kept for `id`, if any. Marks nothing.
    pub fn get(&self, id: &FileId) -> (r: Option<&FileEntry>)
        ensures
            r is Some <==> self@.contains_key(id@),
            r matches Some(entry) ==> entry@ == (FileEntryView {
                accessed: self@[id@].accessed,
                outcome: Some(self@[id@].outcome),
            }),
    {
        proof {
            use_type_invariant(self);
        }
        match self.find(id) {
            Some(i) => {
                proof {
                    lemma_position(self.slots@, i as int);
                }
                Some(&self.slots[i].entry)
            },
            None => None,
        }
    }

    /// Resolves `id`. A reserved identifier names an entity: it leads there
    /// if `entity_exists` says so, and is denied otherwise, without a look at
    /// the disk. Any other leads below the directory that `prepare` gives
    /// for its package, or below `root`, and is denied where it leaves that.
    pub fn resolve<P, L>(id: &FileId, root: &str, prepare: P, entity_exists: L) -> (r: Result<
        FileLocation,
        FileError,
    >) where P: FnOnce(&str) -> Result<String, String>, L: FnOnce(u64) -> bool
        requires
            id@.handle() matches Some(handle) ==> call_requires(entity_exists, (handle,)),
            !id@.is_reserved() ==> (id@.package matches Some(package) ==> forall|spec: &str|
                spec@ == package ==> call_requires(prepare, (spec,))),
        ensures
            id@.is_reserved() ==> match id@.handle() {
                Some(handle) => exists|found: bool|
                    call_ensures(entity_exists, (handle,), found) && located_view(r)
                        == located_entity(Some(handle), found),
                None => located_view(r) == located_entity(None, false),
            },
            !id@.is_reserved() ==> resolves(id@, root@, prepare, located_view(r)),
    {
        if id.is_reserved() {
            match id.handle() {
                Some(handle) => {
                    let found = entity_exists(handle);
                    resolve_entity(Some(handle), found)
                },
                None => resolve_entity(None, false),
            }
        } else {
            resolve_path(id, root, prepare)
        }
    }

    /// How many files the cache holds.
    pub fn len(&self) -> (r: usize)
        ensures
            r == self@.len(),
            self@.dom().finite(),
    {
        proof {
            use_type_invariant(self);
            lemma_cache_len(self.slots@);
        }
        self.slots.len()
    }

    /// Starts a new pass: every file counts as not asked for, and keeps its
    /// outcome.
    pub fn reset(&mut self)
        ensures
            final(self)@ == reset_step(old(self)@),
    {
        proof {
            use_type_invariant(&*self);
        }
        let mut slots: Vec<Slot> = Vec::new();
        core::mem::swap(&mut self.slots, &mut slots);
        let ghost before = slots@;
        let n: usize = slots.len();
        let mut i: usize = 0;
        while i < n
            invariant
                0 <= i <= n,
                n == before.len(),
                slots@.len() == n,
                filled(before),
                forall|j: int| 0 <= j < n ==> (#[trigger] slots@[j]).id@ == before[j].id@,
                forall|j: int|
                    0 <= j < i ==> (#[trigger] slots@[j]).entry@ == (FileEntryView {
                        accessed: false,
                        outcome: before[j].entry@.outcome,
                    }),
                forall|j: int| i <= j < n ==> (#[trigger] slots@[j]).entry@ == before[j].entry@,
            decreases n - i,
        {
            slots[i].entry.reset();
            i += 1;
        }
        proof {
            lemma_cache_reset(before, slots@);
            assert(filled(slots@)) by {
                assert forall|j: int| 0 <= j < slots@.len() implies (
                #[trigger] slots@[j]).entry@.outcome is Some by {
                    assert(before[j].entry@.outcome is Some);
                }
            }
        }
        core::mem::swap(&mut self.slots, &mut slots);
    }

    /// Forgets `id`, so that its next load fetches it anew. Tells whether the
    /// cache held it.
    pub fn evict(&mut self, id: &FileId) -> (r: bool)
        ensures
            r == old(self)@.contains_key(id@),
            final(self)@ == old(self)@.remove(id@),
    {
        proof {
            use_type_invariant(&*self);
        }
        match self.find(id) {
            Some(i) => {
                let mut slots: Vec<Slot> = Vec::new();
                core::mem::swap(&mut self.slots, &mut slots);
                proof {
                    lemma_position(slots@, i as int);
                    lemma_cache_remove(slots@, i as int);
                }
                let ghost before = slots@;
                let _ = slots.swap_remove(i);
                proof {
                    assert(filled(slots@)) by {
                        assert forall|j: int| 0 <= j < slots@.len() implies (
                        #[trigger] slots@[j]).entry@.outcome is Some by {
                            let bj = if j == i { before.len() - 1 } else { j };
                            assert(slots@[j] == before[bj]);
                            assert(before[bj].entry@.outcome is Some);
                        }
                    }
                }
                core::mem::swap(&mut self.slots, &mut slots);
                true
            },
            None => {
                assert(self@ =~= self@.remove(id@));
                false
            },
        }
    }

    /// Resolves `id` where it is not reserved and reads what it resolves to;
    /// looks its entity up where it is.
    fn fetch<P, L, R>(
        id: &FileId,
        root: &str,
        prepare: P,
        entity_lookup: L,
        read: R,
    ) -> (r: FileEntry) where
        P: FnOnce(&str) -> Result<String, String>,
        L: FnOnce(u64) -> Option<Vec<u8>>,
        R: FnOnce(&str) -> Result<Vec<u8>, ReadFailure>,

        requires
            asks_only_what_answers(id@, prepare, entity_lookup, read),
        ensures
            r@.accessed,
            r@.outcome is Some,
            fetches(id@, root@, prepare, entity_lookup, read, r@.outcome->0),
    {
        let located = if id.is_reserved() {
            match id.handle() {
                Some(handle) => Ok(FileLocation::Virtual(handle)),
                None => Err(FileError::AccessDenied),
            }
        } else {
            resolve_path(id, root, prepare)
        };
        match located {
            Ok(location) => {
                let mut entry = FileEntry::default();
                let _ = entry.get_or_init(location.as_loc(), read, entity_lookup);
                entry
            },
            Err(error) => {
                let mut entry = FileEntry::with_outcome(Err(error));
                let _ = entry.access();
                entry
            },
        }
    }

    /// Loads `id`. A file that the cache holds keeps its outcome, content or
    /// error, and the collaborators are not called; any other is fetched,
    /// and what that gives is kept from then on.
    pub fn load<P, L, R>(
        &mut self,
        id: FileId,
        root: &str,
        prepare: P,
        entity_lookup: L,
        read: R,
    ) -> (r: &Result<FileData, FileError>) where
        P: FnOnce(&str) -> Result<String, String>,
        L: FnOnce(u64) -> Option<Vec<u8>>,
        R: FnOnce(&str) -> Result<Vec<u8>, ReadFailure>,

        requires
            !old(self)@.contains_key(id@) ==> asks_only_what_answers(
                id@,
                prepare,
                entity_lookup,
                read,
            ),
        ensures
            (final(self)@, outcome_view(*r)) == load_step(old(self)@, id@, outcome_view(*r)),
            !old(self)@.contains_key(id@) ==> fetches(
                id@,
                root@,
                prepare,
                entity_lookup,
                read,
                outcome_view(*r),
            ),
    {
        proof {
            use_type_invariant(&*self);
        }
        let found = self.find(&id);
        let fetched = match found {
            Some(_) => None,
            None => Some(Files::fetch(&id, root, prepare, entity_lookup, read)),
        };
        let mut slots: Vec<Slot> = Vec::new();
        core::mem::swap(&mut self.slots, &mut slots);
        let ghost before = slots@;
        let at: usize = match fetched {
            Some(entry) => {
                let slot = Slot { id, entry };
                proof {
                    lemma_cache_push(before, slot);
                }
                slots.push(slot);
                slots.len() - 1
            },
            None => {
                let i = found.unwrap();
                let _ = slots[i].entry.access();
                proof {
                    lemma_position(before, i as int);
                    lemma_cache_update(before, slots@, i as int);
                }
                i
            },
        };
        core::mem::swap(&mut self.slots, &mut slots);
        match self.slots[at].entry.result() {
            Some(outcome) => outcome,
            None => vstd::pervasive::unreached(),
        }
    }
}

impl Default for Files {
    /// An empty cache.
    fn default() -> (r: Files)
        ensures
            r@ == Map::<FileIdView, CacheEntry>::empty(),
    {
        Files::new()
    }
}

impl View for Files {
    type V = Cache;

    closed spec fn view(&self) -> Cache {
        cache_of(self.slots@)
    }
}

} // verus!

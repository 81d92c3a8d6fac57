//! Persistence actor core: write/read dispatch and watcher fan-out.
//!
//! The store actor owns the watcher table and decides, for each message,
//! what the storage shell must do: serialise a write (and enqueue a
//! notification to itself after a successful relevant upsert), run a read
//! concurrently, register a watcher, or fire the watchers of a claim. The
//! writes and reads themselves — the storage engine, its write permit, the
//! query text — live in the shell; every decision about ordering,
//! registration and fan-out is made here.
//!
//! Watchers are one-shot: a notification for a claim drains its whole list,
//! in registration order, and removes the entry, so each registered watcher
//! is handed out exactly once. Registration sweeps entries whose reply
//! channels have closed, as reported by the shell.

use vstd::prelude::*;

use crate::records::{ClaimContext, NormalizedArtifact};
use crate::table::{distinct_seq, lemma_index_of_distinct, lemma_push_distinct, lemma_remove_distinct};
use crate::text::{is_unicode_space, is_word_char, lower_char, spec_is_word_char, spec_lower_char};
use crate::text::{char_is_space, str_chars, string_from_chars};

verus! {

/// Messages the persistence actor consumes. `W` is a watcher reply handle;
/// `G`, `S` and `L` are the reply handles of the three read queries. All
/// four are carried through untouched.
pub enum StoreMsg<W, G, S, L> {
    /// Serialised write of a new claim. Fire-and-forget.
    InsertClaim(ClaimContext),
    /// Serialised write of an artifact; when it is relevant to its claim, a
    /// notification follows the successful write through the actor's own
    /// mailbox.
    UpsertArtifact(NormalizedArtifact),
    /// Read one artifact with its entities.
    GetArtifact { internal_id: u128, reply: G },
    /// Search artifacts of a claim.
    SearchArtifacts { claim: u128, query: String, limit: i64, reply: S },
    /// Register a one-shot watcher for the next relevant upsert on `claim`.
    WatchArtifacts { claim: u128, reply: W },
    /// A relevant artifact for `claim` was just written: fire its watchers.
    ArtifactUpserted { claim: u128 },
    /// List entities by exact name.
    ListEntitiesByName { name: String, limit: i64, reply: L },
}

/// A write the shell must perform under the single write permit.
pub enum StoreWrite {
    InsertClaim(ClaimContext),
    UpsertArtifact(NormalizedArtifact),
}

/// What the shell must do after the store actor handled one message.
pub enum StoreAction<W, G, S, L> {
    /// Acquire the write permit, perform `op`; on success, when
    /// `notify_claim` names a claim, enqueue `ArtifactUpserted` for it onto
    /// this actor's own mailbox. Write errors are logged and dropped.
    Write { op: StoreWrite, notify_claim: Option<u128> },
    /// Read one artifact and send the result on `reply`; may run
    /// concurrently with other reads.
    Get { internal_id: u128, reply: G },
    /// Run an artifact search and send the result on `reply`.
    Search { claim: u128, query: String, limit: i64, reply: S },
    /// List entities by name and send the result on `reply`.
    List { name: String, limit: i64, reply: L },
    /// Send one unit fire on every handle, in order, best-effort.
    Fire { watchers: Vec<W> },
    /// The watcher was registered; nothing to perform.
    Registered,
}

/// The watchers of `ws` whose `open` flag is set, in order.
pub open spec fn keep_open<W>(ws: Seq<W>, open: Seq<bool>) -> Seq<W>
    decreases ws.len(),
{
    if ws.len() == 0 {
        Seq::empty()
    } else if open.len() != ws.len() {
        Seq::empty()
    } else {
        keep_open(ws.drop_last(), open.drop_last()) + if open.last() {
            seq![ws.last()]
        } else {
            Seq::empty()
        }
    }
}

/// Watcher lists keyed by claim. Keys are unique; each claim maps to the
/// watchers registered for it, in registration order.
pub struct WatcherTable<W> {
    claims: Vec<u128>,
    lists: Vec<Vec<W>>,
}

/// The watchers registered for `claim` in `t`: its list when the claim has
/// an entry, empty otherwise.
pub open spec fn registered_watchers<W>(t: &WatcherTable<W>, claim: u128) -> Seq<W> {
    if t.has_claim(claim) {
        t.watchers_for(claim)
    } else {
        Seq::empty()
    }
}

/// Both tables hold `d` alike: the same presence and the same watchers.
pub open spec fn agree_on<W>(t0: &WatcherTable<W>, t1: &WatcherTable<W>, d: u128) -> bool {
    t0.has_claim(d) == t1.has_claim(d) && registered_watchers(t0, d) == registered_watchers(t1, d)
}

/// Both tables agree on every claim other than `claim`.
pub open spec fn preserved_except<W>(t0: &WatcherTable<W>, t1: &WatcherTable<W>, claim: u128) -> bool {
    forall|d: u128| d != claim ==> #[trigger] agree_on(t0, t1, d)
}

/// What registering watcher `w` for `claim` does to the table: entries whose
/// reply handles have closed (`open` flag unset) are swept, `w` is appended,
/// and every other claim is untouched.
pub open spec fn register_transition<W>(
    t0: &WatcherTable<W>,
    t1: &WatcherTable<W>,
    claim: u128,
    w: W,
    open: Seq<bool>,
) -> bool {
    &&& t1.has_claim(claim)
    &&& t1.watchers_for(claim) == keep_open(registered_watchers(t0, claim), open).push(w)
    &&& preserved_except(t0, t1, claim)
}

/// What a notification for `claim` does to the table: exactly the watchers
/// registered for it are fired, in registration order, and the entry is
/// consumed; every other claim is untouched.
pub open spec fn drain_transition<W>(
    t0: &WatcherTable<W>,
    t1: &WatcherTable<W>,
    claim: u128,
    fired: Seq<W>,
) -> bool {
    &&& fired == registered_watchers(t0, claim)
    &&& !t1.has_claim(claim)
    &&& preserved_except(t0, t1, claim)
}

/// A table whose claim column gained one fresh claim at the end, with every
/// earlier list untouched, agrees with the old table on every other claim.
proof fn lemma_preserved_after_push<W>(t0: &WatcherTable<W>, t1: &WatcherTable<W>, claim: u128)
    requires
        t0.wf(),
        t1.wf(),
        !t0.has_claim(claim),
        t1.claim_seq() == t0.claim_seq().push(claim),
        forall|k: int| 0 <= k < t0.claim_seq().len() ==> #[trigger] t1.list_seq()[k] == t0.list_seq()[k],
    ensures
        preserved_except(t0, t1, claim),
{
    let n = t0.claim_seq().len() as int;
    assert forall|d: u128| d != claim implies #[trigger] agree_on(t0, t1, d) by {
        if t0.has_claim(d) {
            let k0 = choose|k0: int|
                0 <= k0 < t0.claim_seq().len() && t0.claim_seq()[k0] == d;
            assert(t1.claim_seq()[k0] == d);
            assert(t1.has_claim(d));
        }
        if t1.has_claim(d) {
            let k = choose|k: int| 0 <= k < t1.claim_seq().len() && t1.claim_seq()[k] == d;
            assert(t1.claim_seq()[n] == claim);
            assert(k != n);
            assert(t0.claim_seq()[k] == d);
            assert(t0.has_claim(d));
            lemma_index_of_distinct(t0.claim_seq(), k);
            lemma_index_of_distinct(t1.claim_seq(), k);
            assert(t1.list_seq()[k] == t0.list_seq()[k]);
        }
    }
}

/// A table whose list column changed only at the position of `claim` agrees
/// with the old table on every other claim.
proof fn lemma_preserved_after_update<W>(
    t0: &WatcherTable<W>,
    t1: &WatcherTable<W>,
    claim: u128,
    i: int,
)
    requires
        t0.wf(),
        t1.wf(),
        0 <= i < t0.claim_seq().len(),
        t0.claim_seq()[i] == claim,
        t1.claim_seq() == t0.claim_seq(),
        forall|k: int|
            0 <= k < t0.claim_seq().len() && k != i ==> #[trigger] t1.list_seq()[k]
                == t0.list_seq()[k],
    ensures
        preserved_except(t0, t1, claim),
{
    assert forall|d: u128| d != claim implies #[trigger] agree_on(t0, t1, d) by {
        if t0.has_claim(d) {
            let k = choose|k: int| 0 <= k < t0.claim_seq().len() && t0.claim_seq()[k] == d;
            assert(k != i);
            lemma_index_of_distinct(t0.claim_seq(), k);
            lemma_index_of_distinct(t1.claim_seq(), k);
            assert(t1.list_seq()[k] == t0.list_seq()[k]);
        }
    }
}

/// A table whose one entry for `claim` was removed agrees with the old table
/// on every other claim.
proof fn lemma_preserved_after_remove<W>(
    t0: &WatcherTable<W>,
    t1: &WatcherTable<W>,
    claim: u128,
    i: int,
)
    requires
        t0.wf(),
        0 <= i < t0.claim_seq().len(),
        t0.claim_seq()[i] == claim,
        t0.claim_seq().len() == t0.list_seq().len(),
        t1.claim_seq() == t0.claim_seq().remove(i),
        t1.list_seq() == t0.list_seq().remove(i),
    ensures
        t1.wf(),
        !t1.has_claim(claim),
        preserved_except(t0, t1, claim),
{
    t0.claim_seq().remove_ensures(i);
    t0.list_seq().remove_ensures(i);
    lemma_remove_distinct(t0.claim_seq(), i);
    assert(!t1.has_claim(claim)) by {
        if t1.claim_seq().contains(claim) {
            let k = choose|k: int|
                0 <= k < t1.claim_seq().len() && t1.claim_seq()[k] == claim;
            assert(t1.claim_seq()[k] == if k < i {
                t0.claim_seq()[k]
            } else {
                t0.claim_seq()[k + 1]
            });
        }
    }
    assert forall|d: u128| d != claim implies #[trigger] agree_on(t0, t1, d) by {
        if t0.has_claim(d) {
            let k = choose|k: int| 0 <= k < t0.claim_seq().len() && t0.claim_seq()[k] == d;
            assert(k != i);
            lemma_index_of_distinct(t0.claim_seq(), k);
            let k1 = if k < i {
                k
            } else {
                k - 1
            };
            assert(t1.claim_seq()[k1] == d);
            assert(t1.has_claim(d));
            lemma_index_of_distinct(t1.claim_seq(), k1);
            assert(t1.list_seq()[k1] == if k1 < i {
                t0.list_seq()[k1]
            } else {
                t0.list_seq()[k1 + 1]
            });
            assert(t1.list_seq()[k1] == t0.list_seq()[k]);
        } else {
            if t1.has_claim(d) {
                let k = choose|k: int|
                    0 <= k < t1.claim_seq().len() && t1.claim_seq()[k] == d;
                assert(t1.claim_seq()[k] == if k < i {
                    t0.claim_seq()[k]
                } else {
                    t0.claim_seq()[k + 1]
                });
                assert(t0.has_claim(d));
            }
        }
    }
}

impl<W> WatcherTable<W> {
    /// The claims that have an entry, in table order.
    pub closed spec fn claim_seq(&self) -> Seq<u128> {
        self.claims@
    }

    /// The watcher lists, in table order.
    pub closed spec fn list_seq(&self) -> Seq<Seq<W>> {
        self.lists@.map_values(|l: Vec<W>| l@)
    }

    /// Whether `claim` has an entry.
    pub open spec fn has_claim(&self, claim: u128) -> bool {
        self.claim_seq().contains(claim)
    }

    /// The watchers registered for `claim`, oldest first.
    pub open spec fn watchers_for(&self, claim: u128) -> Seq<W> {
        self.list_seq()[self.claim_seq().index_of(claim)]
    }

    /// One list per claim, no claim twice.
    pub open spec fn wf(&self) -> bool {
        &&& self.claim_seq().len() == self.list_seq().len()
        &&& distinct_seq(self.claim_seq())
    }

    /// An empty table.
    pub fn new() -> (r: WatcherTable<W>)
        ensures
            r.wf(),
            r.claim_seq().len() == 0,
    {
        WatcherTable { claims: Vec::new(), lists: Vec::new() }
    }

    /// How many watchers `claim` has registered right now.
    pub fn watcher_count(&self, claim: u128) -> (r: usize)
        requires
            self.wf(),
        ensures
            r == registered_watchers(self, claim).len(),
    {
        match self.find(claim) {
            Some(i) => self.lists[i].len(),
            None => 0,
        }
    }

    /// Borrow the `i`-th watcher registered for `claim`, so the shell can
    /// ask its reply handle whether it is still open.
    pub fn watcher_at(&self, claim: u128, i: usize) -> (r: &W)
        requires
            self.wf(),
            i < registered_watchers(self, claim).len(),
        ensures
            *r == registered_watchers(self, claim)[i as int],
    {
        match self.find(claim) {
            Some(k) => &self.lists[k][i],
            None => {
                proof {
                    assert(false);
                }
                &self.lists[0][0]
            },
        }
    }

    /// Find the table index of `claim`, if present.
    fn find(&self, claim: u128) -> (r: Option<usize>)
        requires
            self.wf(),
        ensures
            match r {
                Some(i) => 0 <= i < self.claim_seq().len() && self.claim_seq()[i as int] == claim
                    && self.claim_seq().index_of(claim) == i,
                None => !self.has_claim(claim),
            },
    {
        let n = self.claims.len();
        let mut i: usize = 0;
        while i < n
            invariant
                0 <= i <= n,
                n == self.claim_seq().len(),
                self.wf(),
                forall|j: int| 0 <= j < i ==> self.claim_seq()[j] != claim,
            decreases n - i,
        {
            if self.claims[i] == claim {
                proof {
                    lemma_index_of_distinct(self.claim_seq(), i as int);
                }
                return Some(i);
            }
            i = i + 1;
        }
        None
    }

    /// Register `w` for `claim`, sweeping entries whose reply handles have
    /// closed. `open` reports, per current watcher in order, whether its
    /// handle is still open; the swept list keeps exactly the open ones and
    /// `w` joins at the end.
    pub fn register(&mut self, claim: u128, w: W, open: &Vec<bool>)
        requires
            old(self).wf(),
            open@.len() == registered_watchers(old(self), claim).len(),
        ensures
            final(self).wf(),
            register_transition(old(self), final(self), claim, w, open@),
    {
        match self.find(claim) {
            Some(i) => {
                let mut oldlist: Vec<W> = self.lists.remove(i);
                let ghost orig = oldlist@;
                proof {
                    assert(orig == registered_watchers(old(self), claim));
                }
                let mut kept: Vec<W> = Vec::new();
                let mut j: usize = 0;
                let orig_len: usize = oldlist.len();
                proof {
                    assert(orig.len() == orig_len);
                }
                while oldlist.len() > 0
                    invariant
                        j + oldlist@.len() == orig.len(),
                        orig.len() <= usize::MAX,
                        oldlist@ == orig.skip(j as int),
                        open@.len() == orig.len(),
                        kept@ == keep_open(orig.take(j as int), open@.take(j as int)),
                    decreases oldlist@.len(),
                {
                    let w0 = oldlist.remove(0);
                    proof {
                        assert(w0 == orig[j as int]);
                        assert(oldlist@ =~= orig.skip(j + 1));
                    }
                    if open[j] {
                        kept.push(w0);
                    }
                    proof {
                        lemma_keep_open_step(orig, open@, j as int);
                    }
                    j = j + 1;
                }
                proof {
                    assert(orig.take(orig.len() as int) =~= orig);
                    assert(open@.take(orig.len() as int) =~= open@);
                }
                kept.push(w);
                proof {
                    assert(kept@ == keep_open(orig, open@).push(w));
                }
                self.lists.insert(i, kept);
                proof {
                    assert(self.claims@ == old(self).claims@);
                    assert(self.lists@ =~= old(self).lists@.update(i as int, self.lists@[i as int]));
                    assert(self.list_seq().len() == self.lists@.len());
                    assert(self.list_seq()[i as int] == self.lists@[i as int]@);
                    assert(self.list_seq()[i as int] == keep_open(orig, open@).push(w));
                    assert(self.claim_seq()[i as int] == claim);
                    lemma_index_of_distinct(self.claim_seq(), i as int);
                    assert(self.has_claim(claim));
                    assert(self.watchers_for(claim) == keep_open(
                        registered_watchers(old(self), claim),
                        open@,
                    ).push(w));
                    assert forall|k: int|
                        0 <= k < old(self).claim_seq().len() && k != i as int implies #[trigger] self.list_seq()[k]
                            == old(self).list_seq()[k] by {
                        assert(self.lists@[k] == old(self).lists@[k]);
                    }
                    lemma_preserved_after_update(old(self), self, claim, i as int);
                }
            },
            None => {
                let mut fresh: Vec<W> = Vec::new();
                fresh.push(w);
                self.claims.push(claim);
                self.lists.push(fresh);
                proof {
                    lemma_push_distinct(old(self).claim_seq(), claim);
                    let n = old(self).claim_seq().len() as int;
                    assert(self.claim_seq() =~= old(self).claim_seq().push(claim));
                    assert(self.list_seq() =~= old(self).list_seq().push(self.lists@[n]@));
                    assert(self.claim_seq()[n] == claim);
                    lemma_index_of_distinct(self.claim_seq(), n);
                    assert(self.watchers_for(claim) =~= keep_open(
                        registered_watchers(old(self), claim),
                        open@,
                    ).push(w));
                    assert forall|k: int|
                        0 <= k < old(self).claim_seq().len() implies #[trigger] self.list_seq()[k]
                            == old(self).list_seq()[k] by {
                        assert(self.lists@[k] == old(self).lists@[k]);
                    }
                    lemma_preserved_after_push(old(self), self, claim);
                }
            },
        }
    }

    /// Consume and return the watchers of `claim`, in registration order;
    /// the claim's entry is removed. A claim with no entry fires nobody.
    pub fn drain(&mut self, claim: u128) -> (fired: Vec<W>)
        requires
            old(self).wf(),
        ensures
            final(self).wf(),
            drain_transition(old(self), final(self), claim, fired@),
    {
        match self.find(claim) {
            Some(i) => {
                let fired = self.lists.remove(i);
                self.claims.remove(i);
                proof {
                    assert(fired@ == registered_watchers(old(self), claim));
                    assert(self.claim_seq() =~= old(self).claim_seq().remove(i as int));
                    assert(self.list_seq() =~= old(self).list_seq().remove(i as int));
                    lemma_preserved_after_remove(old(self), self, claim, i as int);
                }
                fired
            },
            None => {
                Vec::new()
            },
        }
    }
}

/// One step of the sweep: the open watchers of a prefix one longer are the
/// open watchers of the prefix, plus the next watcher when its flag is set.
proof fn lemma_keep_open_step<W>(ws: Seq<W>, open: Seq<bool>, j: int)
    requires
        0 <= j < ws.len(),
        open.len() == ws.len(),
    ensures
        keep_open(ws.take(j + 1), open.take(j + 1)) == keep_open(ws.take(j), open.take(j)) + if open[j] {
            seq![ws[j]]
        } else {
            Seq::<W>::empty()
        },
{
    assert(ws.take(j + 1).drop_last() =~= ws.take(j));
    assert(open.take(j + 1).drop_last() =~= open.take(j));
    assert(ws.take(j + 1).last() == ws[j]);
    assert(open.take(j + 1).last() == open[j]);
}

/// The persistence actor's decision core: the watcher table. The storage
/// pool and its write permit live in the shell.
pub struct StoreActor<W> {
    watchers: WatcherTable<W>,
}

impl<W> StoreActor<W> {
    /// The watcher table.
    pub closed spec fn table(&self) -> &WatcherTable<W> {
        &self.watchers
    }

    /// The table is well-formed.
    pub open spec fn wf(&self) -> bool {
        self.table().wf()
    }

    /// A store actor with no watchers registered.
    pub fn new() -> (r: StoreActor<W>)
        ensures
            r.wf(),
            r.table().claim_seq().len() == 0,
    {
        StoreActor { watchers: WatcherTable::new() }
    }

    /// How many watchers are registered for `claim`.
    pub fn watcher_count(&self, claim: u128) -> (r: usize)
        requires
            self.wf(),
        ensures
            r == registered_watchers(self.table(), claim).len(),
    {
        self.watchers.watcher_count(claim)
    }

    /// Borrow the `i`-th watcher registered for `claim`, so the shell can
    /// ask its reply handle whether it is still open.
    pub fn watcher_at(&self, claim: u128, i: usize) -> (r: &W)
        requires
            self.wf(),
            i < registered_watchers(self.table(), claim).len(),
        ensures
            *r == registered_watchers(self.table(), claim)[i as int],
    {
        self.watchers.watcher_at(claim, i)
    }

    /// Decide what one store message requires of the shell.
    ///
    /// Writes go behind the single write permit; a relevant upsert orders a
    /// notification onto the actor's own mailbox after the write succeeds,
    /// which keeps write-then-notify in order for this actor. Reads run
    /// concurrently. A watch registers its reply handle (sweeping closed
    /// ones, as `watch_open` reports them); a notification consumes and
    /// returns every watcher of the claim, in registration order.
    pub fn handle<G, S, L>(&mut self, msg: StoreMsg<W, G, S, L>, watch_open: &Vec<bool>) -> (action:
        StoreAction<W, G, S, L>)
        requires
            old(self).wf(),
            msg matches StoreMsg::WatchArtifacts { claim, reply } ==> watch_open@.len()
                == registered_watchers(old(self).table(), claim).len(),
        ensures
            final(self).wf(),
            msg matches StoreMsg::InsertClaim(c) ==> (action matches StoreAction::Write {
                op,
                notify_claim,
            } && op == StoreWrite::InsertClaim(c) && notify_claim is None),
            msg matches StoreMsg::UpsertArtifact(n) ==> (action matches StoreAction::Write {
                op,
                notify_claim,
            } && (op matches StoreWrite::UpsertArtifact(m) && m == n) && (n.claim_relevance
                ==> notify_claim == Some(n.claim_id)) && (!n.claim_relevance ==> notify_claim
                is None)),
            msg matches StoreMsg::GetArtifact { internal_id, reply } ==> (action matches
                StoreAction::Get { internal_id: i2, reply: r2 } && i2 == internal_id && r2 == reply),
            msg matches StoreMsg::SearchArtifacts { claim, query, limit, reply } ==> (action matches
                StoreAction::Search { claim: c2, query: q2, limit: l2, reply: r2 } && c2 == claim
                && q2 == query && l2 == limit && r2 == reply),
            msg matches StoreMsg::ListEntitiesByName { name, limit, reply } ==> (action matches
                StoreAction::List { name: n2, limit: l2, reply: r2 } && n2 == name && l2 == limit
                && r2 == reply),
            msg matches StoreMsg::WatchArtifacts { claim, reply } ==> action is Registered
                && register_transition(old(self).table(), final(self).table(), claim, reply,
            watch_open@),
            msg matches StoreMsg::ArtifactUpserted { claim } ==> (action matches StoreAction::Fire {
                watchers,
            } && drain_transition(old(self).table(), final(self).table(), claim, watchers@)),
            !(msg matches StoreMsg::WatchArtifacts { .. }) && !(msg matches
                StoreMsg::ArtifactUpserted { .. }) ==> final(self).table() == old(self).table(),
    {
        match msg {
            StoreMsg::InsertClaim(c) => StoreAction::Write {
                op: StoreWrite::InsertClaim(c),
                notify_claim: None,
            },
            StoreMsg::UpsertArtifact(n) => {
                let notify_claim = if n.claim_relevance {
                    Some(n.claim_id)
                } else {
                    None
                };
                StoreAction::Write { op: StoreWrite::UpsertArtifact(n), notify_claim }
            },
            StoreMsg::GetArtifact { internal_id, reply } => StoreAction::Get { internal_id, reply },
            StoreMsg::SearchArtifacts { claim, query, limit, reply } => StoreAction::Search {
                claim,
                query,
                limit,
                reply,
            },
            StoreMsg::ListEntitiesByName { name, limit, reply } => StoreAction::List {
                name,
                limit,
                reply,
            },
            StoreMsg::WatchArtifacts { claim, reply } => {
                self.watchers.register(claim, reply, watch_open);
                StoreAction::Registered
            },
            StoreMsg::ArtifactUpserted { claim } => {
                let watchers = self.watchers.drain(claim);
                StoreAction::Fire { watchers }
            },
        }
    }
}

/// Every watcher registered before a notification is enqueued receives
/// exactly one fire: when watcher `w` is registered for a claim and the
/// claim's notification then drains the table, the fired sequence is
/// precisely the earlier open watchers in registration order with `w` at
/// the end — each handle handed out once — and the entry is consumed.
pub proof fn lemma_notification_fires_earlier_watchers<W>(
    t0: &WatcherTable<W>,
    t1: &WatcherTable<W>,
    t2: &WatcherTable<W>,
    claim: u128,
    w: W,
    open: Seq<bool>,
    fired: Seq<W>,
)
    requires
        register_transition(t0, t1, claim, w, open),
        drain_transition(t1, t2, claim, fired),
    ensures
        fired == keep_open(registered_watchers(t0, claim), open).push(w),
        fired.len() > 0 && fired.last() == w,
        !t2.has_claim(claim),
{
}

/// A watcher registered strictly after the last relevant upsert for its
/// claim never fires with that upsert's notification: the notification's
/// fired sequence was fixed before the watcher existed, and the watcher
/// waits alone for the next notification, which fires exactly it.
pub proof fn lemma_late_watcher_misses_earlier_fire<W>(
    t0: &WatcherTable<W>,
    t1: &WatcherTable<W>,
    t2: &WatcherTable<W>,
    claim: u128,
    w: W,
    fired: Seq<W>,
)
    requires
        drain_transition(t0, t1, claim, fired),
        register_transition(t1, t2, claim, w, Seq::empty()),
        !registered_watchers(t0, claim).contains(w),
    ensures
        !fired.contains(w),
        registered_watchers(t2, claim) == seq![w],
{
    assert(registered_watchers(t1, claim) =~= Seq::<W>::empty());
    assert(keep_open(Seq::<W>::empty(), Seq::empty()).push(w) =~= seq![w]);
    assert(registered_watchers(t2, claim) =~= seq![w]);
}

/// The maximal run of word characters is kept, lowercased; everything else
/// separates or vanishes. `emitted` records whether the word being read has
/// already produced output; a space joins words in the output.
pub open spec fn spec_sanitized_from(s: Seq<char>, i: int, out: Seq<char>, emitted: bool) -> Seq<
    char,
>
    decreases s.len() - i,
{
    if i < 0 || i >= s.len() {
        out
    } else {
        let c = s[i];
        if is_unicode_space(c) {
            spec_sanitized_from(s, i + 1, out, false)
        } else if spec_is_word_char(c) {
            let sep = if !emitted && out.len() > 0 {
                out.push(' ')
            } else {
                out
            };
            spec_sanitized_from(s, i + 1, sep.push(spec_lower_char(c)), true)
        } else {
            spec_sanitized_from(s, i + 1, out, emitted)
        }
    }
}

/// The sanitized form of a full-text query: its words — split on Unicode
/// whitespace — each reduced to their ASCII letters, digits and
/// underscores, lowercased, empty words dropped, joined by single spaces.
pub open spec fn spec_sanitized(s: Seq<char>) -> Seq<char> {
    spec_sanitized_from(s, 0, Seq::empty(), false)
}

/// Reduce a raw full-text query to a form safe to hand to the index: only
/// ASCII letters, digits and underscores survive, lowercased, one space
/// between words. A query with nothing left yields nothing, and the caller
/// skips the indexed search.
pub fn sanitize_fts_query(raw: &str) -> (r: Option<String>)
    ensures
        spec_sanitized(raw@).len() == 0 <==> r is None,
        r matches Some(s) ==> s@ == spec_sanitized(raw@),
{
    let chars = str_chars(raw);
    let n = chars.len();
    let mut out: Vec<char> = Vec::new();
    let mut emitted = false;
    let mut i: usize = 0;
    while i < n
        invariant
            0 <= i <= n,
            n == chars@.len(),
            chars@ == raw@,
            spec_sanitized(raw@) == spec_sanitized_from(raw@, i as int, out@, emitted),
        decreases n - i,
    {
        let c = chars[i];
        if char_is_space(c) {
            emitted = false;
        } else if is_word_char(c) {
            if !emitted && out.len() > 0 {
                out.push(' ');
            }
            out.push(lower_char(c));
            emitted = true;
        }
        i = i + 1;
    }
    if out.len() == 0 {
        None
    } else {
        Some(string_from_chars(&out))
    }
}

} // verus!

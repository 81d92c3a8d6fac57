//! Two-phase wiring: reserve every address, then start every actor.
//!
//! Actors hold each other's addresses at construction time, so wiring
//! proceeds in phases: first every named actor is reserved — a mailbox and
//! an address exist, published under the actor's name, though no task runs —
//! and only then is each actor constructed, with its peers' addresses in
//! hand, and started. Reserving a name twice and starting a reservation
//! twice are programmer errors, excluded by contract. [`BuildPlan`] tracks
//! the two phases; the reservation and rate-limit provisioning plans below
//! compute, from the actor specifications, what a run of the system
//! reserves, starts and provisions.

use vstd::prelude::*;
use vstd::string::StringExecFns;

use crate::rate::RateKey;
use crate::table::{distinct_seq, lemma_index_of_distinct, lemma_push_distinct};
use crate::text::{spec_u32_string, u32_string};

verus! {

/// Default mailbox capacity for the system's actors.
pub const DEFAULT_MAILBOX: usize = 1024;

/// The rate-limit key of an analysis actor: `llm:` then its identifier.
pub fn llm_rate_key(spec_id: &str) -> (r: RateKey)
    ensures
        r.0@ == "llm:"@ + spec_id@,
{
    let mut s = "llm:".to_owned();
    s.append(spec_id);
    RateKey(s)
}

/// The rate-limit key of a search actor: `tw:search:` then its identifier.
pub fn twitter_rate_key(spec_id: &str) -> (r: RateKey)
    ensures
        r.0@ == "tw:search:"@ + spec_id@,
{
    let mut s = "tw:search:".to_owned();
    s.append(spec_id);
    RateKey(s)
}

/// The rate-limit key of a chat actor: `llm:chat:` then its identifier.
pub fn chat_llm_rate_key(spec_id: &str) -> (r: RateKey)
    ensures
        r.0@ == "llm:chat:"@ + spec_id@,
{
    let mut s = "llm:chat:".to_owned();
    s.append(spec_id);
    RateKey(s)
}

/// Both plans hold `m` alike: the same reservation and start state.
pub open spec fn plan_agree(t0: &BuildPlan, t1: &BuildPlan, m: Seq<char>) -> bool {
    t0.is_reserved(m) == t1.is_reserved(m) && t0.is_started(m) == t1.is_started(m)
}

/// Both plans agree on every name other than `name`.
pub open spec fn plan_others_preserved(t0: &BuildPlan, t1: &BuildPlan, name: Seq<char>) -> bool {
    forall|m: Seq<char>| m != name ==> #[trigger] plan_agree(t0, t1, m)
}

/// Tracks the two wiring phases: which names are reserved, and which of
/// them have been started.
pub struct BuildPlan {
    reserved: Vec<String>,
    started: Vec<bool>,
}

impl BuildPlan {
    /// The reserved names, in reservation order.
    pub closed spec fn reserved_seq(&self) -> Seq<Seq<char>> {
        self.reserved@.map_values(|s: String| s@)
    }

    /// Whether each reserved name has been started, in the same order.
    pub closed spec fn started_seq(&self) -> Seq<bool> {
        self.started@
    }

    /// Whether `name` is reserved.
    pub open spec fn is_reserved(&self, name: Seq<char>) -> bool {
        self.reserved_seq().contains(name)
    }

    /// Whether `name` has been started.
    pub open spec fn is_started(&self, name: Seq<char>) -> bool {
        self.is_reserved(name) && self.started_seq()[self.reserved_seq().index_of(name)]
    }

    /// No name reserved twice; one start flag per reservation.
    pub open spec fn wf(&self) -> bool {
        &&& distinct_seq(self.reserved_seq())
        &&& self.reserved_seq().len() == self.started_seq().len()
    }

    /// An empty plan: nothing reserved, nothing started.
    pub fn new() -> (r: BuildPlan)
        ensures
            r.wf(),
            r.reserved_seq().len() == 0,
    {
        BuildPlan { reserved: Vec::new(), started: Vec::new() }
    }

    /// Find the reservation index of `name`, if present.
    fn find(&self, name: &str) -> (r: Option<usize>)
        requires
            self.wf(),
        ensures
            match r {
                Some(i) => 0 <= i < self.reserved_seq().len() && self.reserved_seq()[i as int]
                    == name@ && self.reserved_seq().index_of(name@) == i,
                None => !self.is_reserved(name@),
            },
    {
        let name_owned = name.to_owned();
        let n = self.reserved.len();
        let mut i: usize = 0;
        while i < n
            invariant
                0 <= i <= n,
                n == self.reserved_seq().len(),
                name_owned@ == name@,
                self.wf(),
                forall|j: int| 0 <= j < i ==> self.reserved_seq()[j] != name@,
            decreases n - i,
        {
            if self.reserved[i] == name_owned {
                proof {
                    lemma_index_of_distinct(self.reserved_seq(), i as int);
                }
                return Some(i);
            }
            i = i + 1;
        }
        None
    }

    /// Whether `name` is reserved.
    pub fn reserved(&self, name: &str) -> (r: bool)
        requires
            self.wf(),
        ensures
            r == self.is_reserved(name@),
    {
        self.find(name).is_some()
    }

    /// Whether `name` has been started.
    pub fn started(&self, name: &str) -> (r: bool)
        requires
            self.wf(),
        ensures
            r == self.is_started(name@),
    {
        match self.find(name) {
            Some(i) => self.started[i],
            None => false,
        }
    }

    /// Phase one: reserve `name`. Its address exists and may be handed out
    /// from here on, though no task runs yet. Reserving a name twice is a
    /// programmer error, excluded by contract.
    pub fn reserve(&mut self, name: String)
        requires
            old(self).wf(),
            !old(self).is_reserved(name@),
        ensures
            final(self).wf(),
            final(self).is_reserved(name@),
            !final(self).is_started(name@),
            final(self).reserved_seq() == old(self).reserved_seq().push(name@),
            plan_others_preserved(old(self), final(self), name@),
    {
        self.reserved.push(name);
        self.started.push(false);
        proof {
            let n = old(self).reserved_seq().len() as int;
            assert(self.reserved_seq() =~= old(self).reserved_seq().push(name@));
            lemma_push_distinct(old(self).reserved_seq(), name@);
            assert(self.reserved_seq()[n] == name@);
            lemma_index_of_distinct(self.reserved_seq(), n);
            assert(!self.started_seq()[n]);
            assert forall|m: Seq<char>| m != name@ implies #[trigger] plan_agree(
                old(self),
                self,
                m,
            ) by {
                if old(self).is_reserved(m) {
                    let k0 = choose|k0: int|
                        0 <= k0 < old(self).reserved_seq().len() && old(self).reserved_seq()[k0]
                            == m;
                    assert(self.reserved_seq()[k0] == m);
                    assert(self.is_reserved(m));
                    lemma_index_of_distinct(old(self).reserved_seq(), k0);
                    lemma_index_of_distinct(self.reserved_seq(), k0);
                }
                if self.is_reserved(m) {
                    let k = choose|k: int|
                        0 <= k < self.reserved_seq().len() && self.reserved_seq()[k] == m;
                    assert(k != n);
                    assert(old(self).reserved_seq()[k] == m);
                    assert(old(self).is_reserved(m));
                }
            }
        }
    }

    /// Phase two: start the actor reserved under `name`. Starting a
    /// reservation twice, or a name never reserved, is a programmer error,
    /// excluded by contract.
    pub fn start(&mut self, name: &str)
        requires
            old(self).wf(),
            old(self).is_reserved(name@),
            !old(self).is_started(name@),
        ensures
            final(self).wf(),
            final(self).is_started(name@),
            final(self).reserved_seq() == old(self).reserved_seq(),
            plan_others_preserved(old(self), final(self), name@),
    {
        let i = match self.find(name) {
            Some(i) => i,
            None => {
                proof {
                    assert(false);
                }
                0
            },
        };
        self.started.set(i, true);
        proof {
            assert(self.reserved_seq() =~= old(self).reserved_seq());
            assert forall|m: Seq<char>| m != name@ implies #[trigger] plan_agree(
                old(self),
                self,
                m,
            ) by {
                if old(self).is_reserved(m) {
                    let k = choose|k: int|
                        0 <= k < old(self).reserved_seq().len() && old(self).reserved_seq()[k] == m;
                    assert(k != i as int);
                    lemma_index_of_distinct(self.reserved_seq(), k);
                    assert(self.started_seq()[k] == old(self).started_seq()[k]);
                }
            }
        }
    }
}

/// What kind of work an actor specification describes.
#[derive(Debug, Clone, Copy, PartialEq, Eq, Structural)]
pub enum ActorKind {
    Llm,
    Twitter,
}

/// One actor specification from the configuration, reduced to what the
/// wiring plan reads.
#[derive(Debug, Clone)]
pub struct ActorSpec {
    pub id: String,
    pub enabled: bool,
    pub concurrency: u32,
    pub kind: ActorKind,
}

/// One rate limit to provision before the actors start.
#[derive(Debug)]
pub struct ProvisionedLimit {
    pub key: RateKey,
    pub qps_milli: u64,
    pub burst: u32,
}

/// Rate provisioned for each analysis actor: one request per second.
pub const LLM_QPS_MILLI: u64 = 1000;

/// Burst provisioned for each analysis actor.
pub const LLM_BURST: u32 = 5;

/// Rate provisioned for each search actor pool: three requests per second.
pub const TWITTER_QPS_MILLI: u64 = 3000;

/// Burst provisioned for each search actor pool.
pub const TWITTER_BURST: u32 = 30;

/// The `(key characters, qps, burst)` rows one specification provisions: a
/// disabled specification provisions nothing, an analysis actor provisions
/// its own key and its chat key, a search pool provisions one shared key.
pub open spec fn spec_limits_of(s: ActorSpec) -> Seq<(Seq<char>, u64, u32)> {
    if !s.enabled {
        Seq::empty()
    } else if s.kind == ActorKind::Llm {
        seq![
            ("llm:"@ + s.id@, LLM_QPS_MILLI, LLM_BURST),
            ("llm:chat:"@ + s.id@, LLM_QPS_MILLI, LLM_BURST),
        ]
    } else {
        seq![("tw:search:"@ + s.id@, TWITTER_QPS_MILLI, TWITTER_BURST)]
    }
}

/// The rows a whole list of specifications provisions, in order.
pub open spec fn spec_limits(specs: Seq<ActorSpec>) -> Seq<(Seq<char>, u64, u32)>
    decreases specs.len(),
{
    if specs.len() == 0 {
        Seq::empty()
    } else {
        spec_limits(specs.drop_last()) + spec_limits_of(specs.last())
    }
}

/// The view of one provisioned limit: its key characters, rate and burst.
pub open spec fn limit_view(l: ProvisionedLimit) -> (Seq<char>, u64, u32) {
    (l.key.0@, l.qps_milli, l.burst)
}

/// Compute the rate limits to provision for the given actor
/// specifications: the policy the wiring applies between reserving and
/// starting, one bucket per analysis actor, one per chat channel, one
/// shared bucket per search pool; disabled actors get none.
pub fn plan_rate_limits(specs: &Vec<ActorSpec>) -> (r: Vec<ProvisionedLimit>)
    ensures
        r@.map_values(|l: ProvisionedLimit| limit_view(l)) == spec_limits(specs@),
{
    let mut out: Vec<ProvisionedLimit> = Vec::new();
    let n = specs.len();
    let mut i: usize = 0;
    while i < n
        invariant
            0 <= i <= n,
            n == specs@.len(),
            out@.map_values(|l: ProvisionedLimit| limit_view(l)) == spec_limits(
                specs@.take(i as int),
            ),
        decreases n - i,
    {
        let s = &specs[i];
        if s.enabled {
            match s.kind {
                ActorKind::Llm => {
                    let key = llm_rate_key(s.id.as_str());
                    out.push(ProvisionedLimit { key, qps_milli: LLM_QPS_MILLI, burst: LLM_BURST });
                    let chat_key = chat_llm_rate_key(s.id.as_str());
                    out.push(
                        ProvisionedLimit {
                            key: chat_key,
                            qps_milli: LLM_QPS_MILLI,
                            burst: LLM_BURST,
                        },
                    );
                },
                ActorKind::Twitter => {
                    let key = twitter_rate_key(s.id.as_str());
                    out.push(
                        ProvisionedLimit {
                            key,
                            qps_milli: TWITTER_QPS_MILLI,
                            burst: TWITTER_BURST,
                        },
                    );
                },
            }
        }
        proof {
            assert(specs@.take(i + 1).drop_last() =~= specs@.take(i as int));
            assert(specs@.take(i + 1).last() == specs@[i as int]);
            assert(out@.map_values(|l: ProvisionedLimit| limit_view(l)) =~= spec_limits(
                specs@.take(i + 1),
            ));
        }
        i = i + 1;
    }
    proof {
        assert(specs@.take(n as int) =~= specs@);
    }
    out
}

/// The views of a pushed string column: pushing a string then viewing is
/// viewing then pushing the view.
proof fn lemma_string_views_push(column: Seq<String>, x: String)
    ensures
        column.push(x).map_values(|s: String| s@) =~= column.map_values(|s: String| s@).push(x@),
{
    let views = column.push(x).map_values(|s: String| s@);
    assert forall|j: int| 0 <= j < views.len() implies #[trigger] views[j] == column.map_values(
        |s: String| s@,
    ).push(x@)[j] by {
        if j < column.len() {
            assert(column.push(x)[j] == column[j]);
        } else {
            assert(column.push(x)[j] == x);
        }
    }
}

/// The mailbox names one specification reserves: an analysis actor reserves
/// its own name and a `#chat` companion; a search pool reserves one worker
/// name, `#0`, `#1`, …, per unit of concurrency (at least one). A disabled
/// specification reserves nothing.
pub open spec fn spec_names_of(s: ActorSpec) -> Seq<Seq<char>> {
    if !s.enabled {
        Seq::empty()
    } else if s.kind == ActorKind::Llm {
        seq![s.id@, s.id@ + "#chat"@]
    } else {
        let workers = if s.concurrency >= 1 {
            s.concurrency as nat
        } else {
            1nat
        };
        Seq::new(workers, |k: int| s.id@ + "#"@ + spec_u32_string(k as u32))
    }
}

/// The names a whole list of specifications reserves, in order.
pub open spec fn spec_reservations(specs: Seq<ActorSpec>) -> Seq<Seq<char>>
    decreases specs.len(),
{
    if specs.len() == 0 {
        Seq::empty()
    } else {
        spec_reservations(specs.drop_last()) + spec_names_of(specs.last())
    }
}

/// Compute the mailbox names the wiring reserves for the given actor
/// specifications, in reservation order.
pub fn plan_reservations(specs: &Vec<ActorSpec>) -> (r: Vec<String>)
    ensures
        r@.map_values(|s: String| s@) == spec_reservations(specs@),
{
    let mut out: Vec<String> = Vec::new();
    let n = specs.len();
    let mut i: usize = 0;
    while i < n
        invariant
            0 <= i <= n,
            n == specs@.len(),
            out@.map_values(|s: String| s@) == spec_reservations(specs@.take(i as int)),
        decreases n - i,
    {
        let s = &specs[i];
        if s.enabled {
            match s.kind {
                ActorKind::Llm => {
                    let own = s.id.as_str().to_owned();
                    out.push(own);
                    let mut chat = s.id.as_str().to_owned();
                    chat.append("#chat");
                    out.push(chat);
                    proof {
                        assert(out@.map_values(|s: String| s@) =~= spec_reservations(
                            specs@.take(i as int),
                        ) + spec_names_of(specs@[i as int]));
                    }
                },
                ActorKind::Twitter => {
                    let workers: u32 = if s.concurrency >= 1 {
                        s.concurrency
                    } else {
                        1
                    };
                    let mut k: u32 = 0;
                    while k < workers
                        invariant
                            0 <= k <= workers,
                            i < specs@.len(),
                            specs@[i as int].enabled,
                            specs@[i as int].kind == ActorKind::Twitter,
                            workers == if specs@[i as int].concurrency >= 1 {
                                specs@[i as int].concurrency
                            } else {
                                1u32
                            },
                            out@.map_values(|s: String| s@) == spec_reservations(
                                specs@.take(i as int),
                            ) + spec_names_of(specs@[i as int]).take(k as int),
                        decreases workers - k,
                    {
                        let mut name = specs[i].id.as_str().to_owned();
                        name.append("#");
                        let digits = u32_string(k);
                        name.append(digits.as_str());
                        let ghost prev = out@;
                        out.push(name);
                        proof {
                            let ghost expect = specs@[i as int].id@ + "#"@ + spec_u32_string(k);
                            assert(spec_names_of(specs@[i as int])[k as int] == expect);
                            assert(out@ == prev.push(name));
                            lemma_string_views_push(prev, name);
                            assert(spec_names_of(specs@[i as int]).take(k + 1) =~= spec_names_of(
                                specs@[i as int],
                            ).take(k as int).push(expect));
                            assert(out@.map_values(|s: String| s@) =~= spec_reservations(
                                specs@.take(i as int),
                            ) + spec_names_of(specs@[i as int]).take(k + 1));
                        }
                        k = k + 1;
                    }
                    proof {
                        assert(spec_names_of(specs@[i as int]).take(workers as int)
                            =~= spec_names_of(specs@[i as int]));
                    }
                },
            }
        }
        proof {
            assert(specs@.take(i + 1).drop_last() =~= specs@.take(i as int));
            assert(specs@.take(i + 1).last() == specs@[i as int]);
            assert(out@.map_values(|s: String| s@) =~= spec_reservations(specs@.take(i + 1)));
        }
        i = i + 1;
    }
    proof {
        assert(specs@.take(n as int) =~= specs@);
    }
    out
}

} // verus!

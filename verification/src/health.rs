//! One round of active health checks.
//!
//! A round probes every configured upstream once. The caller does the
//! probing and reports each outcome; the round keeps the outcomes to the
//! side and, once all are in, puts the set of the upstreams that answered
//! with status 200 in the place of the old set, in one step.

use crate::upstream::{addresses_of, listing_of, UpstreamSet};
use vstd::prelude::*;

verus! {

/// The status that a healthy upstream answers a probe with.
pub const STATUS_OK: u16 = 200;

/// How the probe of one upstream ended.
#[derive(Clone, Copy, Debug, PartialEq, Eq, Structural)]
pub enum ProbeOutcome {
    /// No connection could be made.
    ConnectFailed,
    /// The probe request could not be written.
    WriteFailed,
    /// No response could be read.
    ReadFailed,
    /// The upstream answered with this status.
    Status(u16),
}

impl ProbeOutcome {
    /// An upstream is alive if and only if it answered with status 200.
    pub open spec fn alive(self) -> bool {
        self == ProbeOutcome::Status(200)
    }

    pub fn is_alive(&self) -> (alive: bool)
        ensures
            alive == self.alive(),
    {
        match self {
            ProbeOutcome::Status(code) => *code == STATUS_OK,
            _ => false,
        }
    }
}

/// The addresses that answered a probe with status 200, among the upstreams
/// for which an outcome is known.
pub open spec fn alive_after(upstreams: Seq<String>, outcomes: Seq<ProbeOutcome>) -> Set<
    Seq<char>,
> {
    Set::new(
        |a: Seq<char>|
            exists|i: int|
                0 <= i < upstreams.len() && i < outcomes.len() && #[trigger] upstreams[i]@ == a
                    && outcomes[i].alive(),
    )
}

/// Whatever the outcomes are, the alive set of a round lies within the
/// configured upstreams.
pub proof fn lemma_round_within_configured(upstreams: Seq<String>, outcomes: Seq<ProbeOutcome>)
    ensures
        alive_after(upstreams, outcomes).subset_of(addresses_of(upstreams)),
{
    assert forall|a: Seq<char>| alive_after(upstreams, outcomes).contains(a) implies addresses_of(
        upstreams,
    ).contains(a) by {
        let i = choose|i: int|
            0 <= i < upstreams.len() && i < outcomes.len() && #[trigger] upstreams[i]@ == a
                && outcomes[i].alive();
        assert(listing_of(upstreams)[i] == a);
    }
}

/// A round in which no probe was answered with status 200 leaves no upstream
/// alive.
pub proof fn lemma_round_all_failed(upstreams: Seq<String>, outcomes: Seq<ProbeOutcome>)
    requires
        forall|i: int| 0 <= i < outcomes.len() ==> !(#[trigger] outcomes[i]).alive(),
    ensures
        alive_after(upstreams, outcomes) == Set::<Seq<char>>::empty(),
{
    assert(alive_after(upstreams, outcomes) =~= Set::<Seq<char>>::empty());
}

/// A round in which every probe was answered with status 200 makes every
/// configured upstream alive.
pub proof fn lemma_round_all_alive(upstreams: Seq<String>, outcomes: Seq<ProbeOutcome>)
    requires
        outcomes.len() == upstreams.len(),
        forall|i: int| 0 <= i < outcomes.len() ==> (#[trigger] outcomes[i]).alive(),
    ensures
        alive_after(upstreams, outcomes) == addresses_of(upstreams),
{
    lemma_round_within_configured(upstreams, outcomes);
    assert forall|a: Seq<char>| addresses_of(upstreams).contains(a) implies alive_after(
        upstreams,
        outcomes,
    ).contains(a) by {
        let i = choose|i: int| 0 <= i < upstreams.len() && listing_of(upstreams)[i] == a;
        assert(upstreams[i]@ == a && outcomes[i].alive());
    }
    assert(alive_after(upstreams, outcomes) =~= addresses_of(upstreams));
}

/// The set of the upstreams that answered with status 200.
pub fn alive_set(upstreams: &Vec<String>, outcomes: &Vec<ProbeOutcome>) -> (set: UpstreamSet)
    requires
        outcomes@.len() <= upstreams@.len(),
    ensures
        set@ == alive_after(upstreams@, outcomes@),
        set.configured() == addresses_of(upstreams@),
{
    let mut set = UpstreamSet::none_alive(upstreams);
    let mut i: usize = 0;
    while i < outcomes.len()
        invariant
            0 <= i <= outcomes@.len() <= upstreams@.len(),
            set.configured() == addresses_of(upstreams@),
            set@ == alive_after(upstreams@, outcomes@.take(i as int)),
        decreases outcomes.len() - i,
    {
        let ghost before = set@;
        let ghost was = outcomes@.take(i as int);
        let ghost now = outcomes@.take(i + 1);
        if outcomes[i].is_alive() {
            assert(listing_of(upstreams@)[i as int] == upstreams@[i as int]@);
            set.insert(upstreams[i].clone());
        }
        proof {
            assert forall|a: Seq<char>| set@.contains(a) <==> #[trigger] alive_after(
                upstreams@,
                now,
            ).contains(a) by {
                if before.contains(a) {
                    let k = choose|k: int|
                        0 <= k < upstreams@.len() && k < was.len() && #[trigger] upstreams@[k]@ == a
                            && was[k].alive();
                    assert(upstreams@[k]@ == a && now[k].alive());
                }
                if outcomes@[i as int].alive() && a == upstreams@[i as int]@ {
                    assert(upstreams@[i as int]@ == a && now[i as int].alive());
                }
                if alive_after(upstreams@, now).contains(a) {
                    let k = choose|k: int|
                        0 <= k < upstreams@.len() && k < now.len() && #[trigger] upstreams@[k]@ == a
                            && now[k].alive();
                    if k < i {
                        assert(upstreams@[k]@ == a && was[k].alive());
                    }
                }
            }
            assert(set@ =~= alive_after(upstreams@, now));
        }
        i += 1;
    }
    assert(outcomes@.take(i as int) =~= outcomes@);
    set
}

/// A round in progress: the upstreams to probe and the outcomes so far.
pub struct HealthRound {
    targets: Vec<String>,
    outcomes: Vec<ProbeOutcome>,
}

impl HealthRound {
    #[verifier::type_invariant]
    spec fn well_formed(self) -> bool {
        self.outcomes@.len() <= self.targets@.len()
    }

    /// The upstreams that this round probes.
    pub closed spec fn targets(&self) -> Seq<String> {
        self.targets@
    }

    /// The outcomes reported so far, in the order of the targets.
    pub closed spec fn outcomes(&self) -> Seq<ProbeOutcome> {
        self.outcomes@
    }

    /// Starts a round over `upstreams`, which are all probed, alive or not.
    pub fn begin(upstreams: &Vec<String>) -> (round: HealthRound)
        ensures
            round.targets() == upstreams@,
            round.outcomes() == Seq::<ProbeOutcome>::empty(),
    {
        let mut targets: Vec<String> = Vec::new();
        let mut i: usize = 0;
        while i < upstreams.len()
            invariant
                0 <= i <= upstreams.len(),
                targets@ == upstreams@.take(i as int),
            decreases upstreams.len() - i,
        {
            targets.push(upstreams[i].clone());
            assert(targets@ =~= upstreams@.take(i + 1));
            i += 1;
        }
        assert(upstreams@.take(i as int) =~= upstreams@);
        HealthRound { targets, outcomes: Vec::new() }
    }

    /// True once every target has an outcome.
    pub fn is_complete(&self) -> (complete: bool)
        ensures
            complete == (self.outcomes().len() == self.targets().len()),
            self.outcomes().len() <= self.targets().len(),
    {
        proof {
            use_type_invariant(self);
        }
        self.outcomes.len() == self.targets.len()
    }

    /// The upstream to probe next: the first without an outcome.
    pub fn next_target(&self) -> (target: Option<String>)
        ensures
            self.outcomes().len() <= self.targets().len(),
            target.is_none() == (self.outcomes().len() == self.targets().len()),
            target.is_some() ==> target.unwrap() == self.targets()[self.outcomes().len() as int],
    {
        proof {
            use_type_invariant(self);
        }
        if self.outcomes.len() < self.targets.len() {
            Some(self.targets[self.outcomes.len()].clone())
        } else {
            None
        }
    }

    /// Notes the outcome of the probe of the next target.
    pub fn record(self, outcome: ProbeOutcome) -> (round: HealthRound)
        requires
            self.outcomes().len() < self.targets().len(),
        ensures
            round.targets() == self.targets(),
            round.outcomes() == self.outcomes().push(outcome),
    {
        let HealthRound { targets, outcomes } = self;
        let mut outcomes = outcomes;
        outcomes.push(outcome);
        HealthRound { targets, outcomes }
    }

    /// Ends the round: the upstreams that answered with status 200 become
    /// the set, whatever it held before.
    pub fn finish(self, set: &mut UpstreamSet)
        requires
            self.outcomes().len() == self.targets().len(),
        ensures
            final(set)@ == alive_after(self.targets(), self.outcomes()),
            final(set).configured() == addresses_of(self.targets()),
            final(set)@.subset_of(addresses_of(self.targets())),
    {
        proof {
            lemma_round_within_configured(self.targets(), self.outcomes());
        }
        let fresh = alive_set(&self.targets, &self.outcomes);
        set.replace(fresh);
    }
}

} // verus!

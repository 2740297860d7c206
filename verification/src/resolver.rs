//! The platform resolver: walks a compiled-in, platform-specific chain of
//! acquisition strategies in priority order and keeps the first identity
//! value produced. The native work for each strategy happens in the
//! unverified shell, which asks the resolver which strategy to run next and
//! reports the outcome back.

use vstd::prelude::*;
use crate::id::SystemId;

verus! {

/// One acquisition mechanism. The set is closed and fixed per platform
/// family at build time.
#[derive(Clone, Copy, Debug, PartialEq, Eq, Structural)]
pub enum Strategy {
    DbusMachineId,
    LinuxBootId,
    LinuxDmiProductId,
    AggregatedDmiSerialNumbers,
    KernelHostId,
    KenvDmiProductId,
    PlatformSerialNumber,
    PosixHostId,
    WindowsMachineId,
    WmiDmiProductId,
    SystemRootVolumeId,
    InstallDate,
}

/// The first successful outcome in a sequence of strategy outcomes.
pub open spec fn first_success(outcomes: Seq<Option<SystemId>>) -> Option<SystemId>
    decreases outcomes.len(),
{
    if outcomes.len() == 0 {
        None
    } else if outcomes[0] is Some {
        outcomes[0]
    } else {
        first_success(outcomes.drop_first())
    }
}

/// Law: resolution is a pure function of the outcomes the strategies
/// report. Two resolutions over identical outcome sequences — in
/// particular, two runs in one process lifetime with no intervening system
/// state change — select bit-identical identity values.
pub proof fn lemma_resolution_deterministic(o1: Seq<Option<SystemId>>, o2: Seq<Option<SystemId>>)
    requires
        o1 == o2,
    ensures
        first_success(o1) == first_success(o2),
{
}

/// Appending an outcome to a history without a success resolves to that
/// outcome alone.
proof fn lemma_first_success_push(h: Seq<Option<SystemId>>, o: Option<SystemId>)
    requires
        first_success(h) is None,
    ensures
        first_success(h.push(o)) == if o is Some {
            o
        } else {
            Option::<SystemId>::None
        },
    decreases h.len(),
{
    assert(first_success(Seq::<Option<SystemId>>::empty()) is None);
    if h.len() == 0 {
        assert(h.push(o)[0] == o);
        if o is None {
            assert(h.push(o).drop_first() =~= Seq::<Option<SystemId>>::empty());
        }
    } else {
        assert(h.push(o)[0] == h[0]);
        assert(h[0] is None);
        assert(h.push(o).drop_first() =~= h.drop_first().push(o));
        lemma_first_success_push(h.drop_first(), o);
    }
}

/// The two-state resolution machine: while "searching" it hands out
/// strategies in chain order, one report each; at the first success, or
/// when the chain is exhausted, it stops. It never runs a strategy twice
/// and never combines two strategies' results.
pub struct Resolver {
    chain: Vec<Strategy>,
    pos: usize,
    outcome: Option<SystemId>,
    history: Ghost<Seq<Option<SystemId>>>,
}

impl Resolver {
    /// The strategy chain this resolver walks, in priority order.
    pub closed spec fn chain(self) -> Seq<Strategy> {
        self.chain@
    }

    /// The outcomes reported so far, in order.
    pub closed spec fn history(self) -> Seq<Option<SystemId>> {
        self.history@
    }

    /// The selected identity value, if resolution has succeeded.
    pub closed spec fn selected(self) -> Option<SystemId> {
        self.outcome
    }

    /// Internal consistency: one strategy consumed per reported outcome,
    /// and the selection is always the first success of the history.
    pub closed spec fn wf(self) -> bool {
        &&& self.pos == self.history@.len()
        &&& self.pos <= self.chain@.len()
        &&& self.outcome == first_success(self.history@)
    }

    /// The searching state: no success yet and strategies remain.
    pub open spec fn searching(self) -> bool {
        self.selected() is None && self.history().len() < self.chain().len()
    }

    /// A fresh resolver for the given chain.
    pub fn new(chain: Vec<Strategy>) -> (r: Resolver)
        ensures
            r.wf(),
            r.chain() == chain@,
            r.history() == Seq::<Option<SystemId>>::empty(),
            r.selected() is None,
    {
        Resolver { chain, pos: 0, outcome: None, history: Ghost(Seq::empty()) }
    }

    /// The next strategy to run, while still searching; each strategy is
    /// handed out at most once per resolution.
    pub fn next_strategy(&self) -> (r: Option<Strategy>)
        requires
            self.wf(),
        ensures
            r is Some <==> self.searching(),
            r matches Some(s) ==> s == self.chain()[self.history().len() as int],
    {
        if self.outcome.is_none() && self.pos < self.chain.len() {
            Some(self.chain[self.pos])
        } else {
            None
        }
    }

    /// Records the outcome of the strategy just handed out. A success is
    /// kept as the selection and ends the search; a failure moves on to the
    /// next strategy. The selection always equals the first success among
    /// the outcomes reported.
    pub fn report(&mut self, outcome: Option<SystemId>)
        requires
            old(self).wf(),
            old(self).searching(),
        ensures
            final(self).wf(),
            final(self).chain() == old(self).chain(),
            final(self).history() == old(self).history().push(outcome),
            final(self).selected() == first_success(final(self).history()),
            final(self).selected() == if outcome is Some {
                outcome
            } else {
                Option::<SystemId>::None
            },
    {
        proof {
            lemma_first_success_push(self.history@, outcome);
        }
        let n = self.chain.len();
        proof {
            assert(self.pos < n);
        }
        self.history = Ghost(self.history@.push(outcome));
        self.pos = self.pos + 1;
        if outcome.is_some() {
            self.outcome = outcome;
        }
    }

    /// The resolution result so far: the selected identity value, or
    /// nothing while searching or after exhaustion.
    pub fn result(&self) -> (r: &Option<SystemId>)
        ensures
            *r == self.selected(),
    {
        &self.outcome
    }

    /// Whether every strategy was tried without success.
    pub fn exhausted(&self) -> (r: bool)
        requires
            self.wf(),
        ensures
            r == (self.selected() is None && self.history().len() == self.chain().len()),
    {
        self.outcome.is_none() && self.pos == self.chain.len()
    }
}

/// The documented priority table for Linux: high-confidence, widely
/// available mechanisms first — machine id, DMI product id, aggregated DMI
/// serials — then the low-confidence host id and boot id.
pub fn linux_strategy_chain() -> (r: Vec<Strategy>)
    ensures
        r@ == seq![
            Strategy::DbusMachineId,
            Strategy::LinuxDmiProductId,
            Strategy::AggregatedDmiSerialNumbers,
            Strategy::PosixHostId,
            Strategy::LinuxBootId,
        ],
{
    let mut r: Vec<Strategy> = Vec::new();
    r.push(Strategy::DbusMachineId);
    r.push(Strategy::LinuxDmiProductId);
    r.push(Strategy::AggregatedDmiSerialNumbers);
    r.push(Strategy::PosixHostId);
    r.push(Strategy::LinuxBootId);
    proof {
        assert(r@ =~= seq![
            Strategy::DbusMachineId,
            Strategy::LinuxDmiProductId,
            Strategy::AggregatedDmiSerialNumbers,
            Strategy::PosixHostId,
            Strategy::LinuxBootId,
        ]);
    }
    r
}

/// The documented priority table for the BSD family: machine id, kernel
/// host uuid and kenv DMI product id (all high confidence), then the
/// low-confidence host id.
pub fn bsd_strategy_chain() -> (r: Vec<Strategy>)
    ensures
        r@ == seq![
            Strategy::DbusMachineId,
            Strategy::KernelHostId,
            Strategy::KenvDmiProductId,
            Strategy::PosixHostId,
        ],
{
    let mut r: Vec<Strategy> = Vec::new();
    r.push(Strategy::DbusMachineId);
    r.push(Strategy::KernelHostId);
    r.push(Strategy::KenvDmiProductId);
    r.push(Strategy::PosixHostId);
    proof {
        assert(r@ =~= seq![
            Strategy::DbusMachineId,
            Strategy::KernelHostId,
            Strategy::KenvDmiProductId,
            Strategy::PosixHostId,
        ]);
    }
    r
}

/// The documented priority table for macOS: the high-confidence platform
/// serial, then the low-confidence host id.
pub fn macos_strategy_chain() -> (r: Vec<Strategy>)
    ensures
        r@ == seq![Strategy::PlatformSerialNumber, Strategy::PosixHostId],
{
    let mut r: Vec<Strategy> = Vec::new();
    r.push(Strategy::PlatformSerialNumber);
    r.push(Strategy::PosixHostId);
    proof {
        assert(r@ =~= seq![Strategy::PlatformSerialNumber, Strategy::PosixHostId]);
    }
    r
}

/// The documented priority table for Windows: machine GUID, WMI product
/// UUID and volume serial (all high confidence), then the low-confidence
/// install date.
pub fn windows_strategy_chain() -> (r: Vec<Strategy>)
    ensures
        r@ == seq![
            Strategy::WindowsMachineId,
            Strategy::WmiDmiProductId,
            Strategy::SystemRootVolumeId,
            Strategy::InstallDate,
        ],
{
    let mut r: Vec<Strategy> = Vec::new();
    r.push(Strategy::WindowsMachineId);
    r.push(Strategy::WmiDmiProductId);
    r.push(Strategy::SystemRootVolumeId);
    r.push(Strategy::InstallDate);
    proof {
        assert(r@ =~= seq![
            Strategy::WindowsMachineId,
            Strategy::WmiDmiProductId,
            Strategy::SystemRootVolumeId,
            Strategy::InstallDate,
        ]);
    }
    r
}

} // verus!

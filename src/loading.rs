//! The readiness state machine, and the coordinator that follows every
//! registered manifest from registration to installation.
use vstd::prelude::*;

verus! {

/// Whether manifest data may be read yet.
#[derive(Clone, Copy, Debug, PartialEq, Eq, Structural)]
pub enum ReadinessState {
    /// Some manifest is still on its way (the initial state).
    Loading,
    /// Every registered manifest was converted and installed.
    Ready,
    /// Some manifest could not be fetched, decoded or converted. Terminal.
    Failed,
}

/// The serialized format that a manifest's source is written in.
#[derive(Clone, Copy, Debug, PartialEq, Eq, Structural)]
pub enum ManifestFormat {
    Ron,
    Json,
    Yaml,
    Toml,
    Xml,
    Csv,
    MsgPack,
    Custom,
}

/// The step at which loading one manifest failed.
#[derive(Clone, Copy, Debug, PartialEq, Eq, Structural)]
pub enum LoadFailure {
    /// The source could not be fetched.
    Fetch,
    /// The bytes do not parse in the declared format.
    Format,
    /// The source parsed, but its data is invalid for the manifest.
    Conversion,
}

/// How far one registered manifest has come.
#[derive(Clone, Copy, Debug, PartialEq, Eq, Structural)]
pub enum SlotStatus {
    Pending,
    Installed,
    Failed(LoadFailure),
}

/// What is reported of one manifest once its load has ended.
#[derive(Clone, Copy, Debug, PartialEq, Eq, Structural)]
pub enum LoadEvent {
    Installed,
    Failed(LoadFailure),
}

/// The status that an event leaves its manifest in.
pub open spec fn status_after(event: LoadEvent) -> SlotStatus {
    match event {
        LoadEvent::Installed => SlotStatus::Installed,
        LoadEvent::Failed(f) => SlotStatus::Failed(f),
    }
}

/// Some manifest has failed.
pub open spec fn any_failed(statuses: Seq<SlotStatus>) -> bool {
    exists|i: int| 0 <= i < statuses.len() && (#[trigger] statuses[i]) is Failed
}

/// Every manifest is installed.
pub open spec fn all_installed(statuses: Seq<SlotStatus>) -> bool {
    forall|i: int| 0 <= i < statuses.len() ==> (#[trigger] statuses[i]) is Installed
}

/// The readiness that a set of per-manifest outcomes adds up to: failed as
/// soon as one manifest failed, ready once all are installed, loading else.
pub open spec fn aggregate(statuses: Seq<SlotStatus>) -> ReadinessState {
    if any_failed(statuses) {
        ReadinessState::Failed
    } else if all_installed(statuses) {
        ReadinessState::Ready
    } else {
        ReadinessState::Loading
    }
}

/// The readiness that the given per-manifest statuses add up to.
pub fn aggregate_readiness(statuses: &[SlotStatus]) -> (r: ReadinessState)
    ensures
        r == aggregate(statuses@),
{
    let mut all: bool = true;
    let mut i: usize = 0;
    while i < statuses.len()
        invariant
            i <= statuses@.len(),
            forall|j: int| 0 <= j < i ==> !(#[trigger] statuses@[j] is Failed),
            all == (forall|j: int| 0 <= j < i ==> (#[trigger] statuses@[j]) is Installed),
        decreases statuses@.len() - i,
    {
        match statuses[i] {
            SlotStatus::Failed(_) => {
                assert(any_failed(statuses@));
                return ReadinessState::Failed;
            },
            SlotStatus::Pending => {
                all = false;
            },
            SlotStatus::Installed => {},
        }
        i = i + 1;
    }
    if all {
        ReadinessState::Ready
    } else {
        ReadinessState::Loading
    }
}

/// Why a registration was refused.
#[derive(Clone, Copy, Debug, PartialEq, Eq, Structural)]
pub enum RegisterError {
    /// Loading has begun; no manifest can join this load cycle.
    AlreadyStarted,
    /// A manifest of this kind is registered already, at `slot`.
    Duplicate { slot: usize },
}

/// One registered manifest: its kind, where its source lives, and the
/// format that source is written in.
#[derive(Debug)]
pub struct Registration {
    pub kind: u64,
    pub path: String,
    pub format: ManifestFormat,
}

/// The mathematical state of a [`LoadCoordinator`]: the registered manifests
/// slot by slot, and whether loading has begun.
pub struct CoordinatorView {
    pub kinds: Seq<u64>,
    pub paths: Seq<Seq<char>>,
    pub formats: Seq<ManifestFormat>,
    pub statuses: Seq<SlotStatus>,
    pub started: bool,
}

/// The readiness of a coordinator: loading until loading has begun, then what
/// the statuses add up to.
pub open spec fn readiness(v: CoordinatorView) -> ReadinessState {
    if !v.started {
        ReadinessState::Loading
    } else {
        aggregate(v.statuses)
    }
}

/// An event about `slot` counts only while loading is under way and that
/// manifest is still pending.
pub open spec fn accepts(v: CoordinatorView, slot: int) -> bool {
    &&& v.started
    &&& readiness(v) == ReadinessState::Loading
    &&& 0 <= slot < v.statuses.len()
    &&& v.statuses[slot] == SlotStatus::Pending
}

/// The coordinator after an event about `slot`.
pub open spec fn step(v: CoordinatorView, slot: int, event: LoadEvent) -> CoordinatorView {
    if accepts(v, slot) {
        CoordinatorView { statuses: v.statuses.update(slot, status_after(event)), ..v }
    } else {
        v
    }
}

/// Follows a set of manifests through one load cycle and adds their outcomes
/// up to a single readiness state.
#[derive(Debug)]
pub struct LoadCoordinator {
    registrations: Vec<Registration>,
    statuses: Vec<SlotStatus>,
    started: bool,
}

impl View for LoadCoordinator {
    type V = CoordinatorView;

    closed spec fn view(&self) -> CoordinatorView {
        CoordinatorView {
            kinds: self.registrations@.map_values(|r: Registration| r.kind),
            paths: self.registrations@.map_values(|r: Registration| r.path@),
            formats: self.registrations@.map_values(|r: Registration| r.format),
            statuses: self.statuses@,
            started: self.started,
        }
    }
}

impl LoadCoordinator {
    /// A coordinator with nothing registered, not yet loading.
    pub fn new() -> (r: LoadCoordinator)
        ensures
            r@ == (CoordinatorView {
                kinds: seq![],
                paths: seq![],
                formats: seq![],
                statuses: seq![],
                started: false,
            }),
    {
        let r = LoadCoordinator { registrations: Vec::new(), statuses: Vec::new(), started: false };
        assert(r@.kinds =~= seq![]);
        assert(r@.paths =~= seq![]);
        assert(r@.formats =~= seq![]);
        r
    }

    /// Declares that a manifest of kind `kind` is to be loaded from `path`,
    /// written in `format`, and returns its slot. Refused once loading has
    /// begun, and for a kind that is registered already.
    pub fn register(&mut self, kind: u64, path: String, format: ManifestFormat) -> (r: Result<
        usize,
        RegisterError,
    >)
        ensures
            old(self)@.started ==> r == Err::<usize, RegisterError>(RegisterError::AlreadyStarted),
            !old(self)@.started && old(self)@.kinds.contains(kind) ==> match r {
                Err(RegisterError::Duplicate { slot }) => slot < old(self)@.kinds.len()
                    && old(self)@.kinds[slot as int] == kind,
                _ => false,
            },
            !old(self)@.started && !old(self)@.kinds.contains(kind) ==> {
                &&& r == Ok::<usize, RegisterError>(old(self)@.kinds.len() as usize)
                &&& final(self)@ == (CoordinatorView {
                    kinds: old(self)@.kinds.push(kind),
                    paths: old(self)@.paths.push(path@),
                    formats: old(self)@.formats.push(format),
                    statuses: old(self)@.statuses.push(SlotStatus::Pending),
                    started: false,
                })
            },
            r is Err ==> final(self)@ == old(self)@,
    {
        if self.started {
            return Err(RegisterError::AlreadyStarted);
        }
        let mut i: usize = 0;
        while i < self.registrations.len()
            invariant
                !self.started,
                self@ == old(self)@,
                i <= self.registrations@.len(),
                forall|j: int| 0 <= j < i ==> self.registrations@[j].kind != kind,
            decreases self.registrations@.len() - i,
        {
            if self.registrations[i].kind == kind {
                assert(self@.kinds[i as int] == kind);
                return Err(RegisterError::Duplicate { slot: i });
            }
            i = i + 1;
        }
        assert(!self@.kinds.contains(kind)) by {
            if self@.kinds.contains(kind) {
                let j = choose|j: int| 0 <= j < self@.kinds.len() && self@.kinds[j] == kind;
                assert(self.registrations@[j].kind == kind);
            }
        }
        let ghost before = self@;
        let slot = self.registrations.len();
        self.registrations.push(Registration { kind, path, format });
        self.statuses.push(SlotStatus::Pending);
        assert(self@.kinds =~= before.kinds.push(kind));
        assert(self@.paths =~= before.paths.push(path@));
        assert(self@.formats =~= before.formats.push(format));
        Ok(slot)
    }

    /// Begins loading: from now on no manifest can be registered, and
    /// outcomes are taken.
    pub fn begin_loading(&mut self)
        ensures
            final(self)@ == (CoordinatorView { started: true, ..old(self)@ }),
    {
        self.started = true;
    }

    /// Records how loading the manifest at `slot` ended. The event counts, and
    /// `true` comes back, only while loading is under way and that manifest is
    /// pending; once the coordinator is ready or failed, nothing changes.
    pub fn report(&mut self, slot: usize, event: LoadEvent) -> (applied: bool)
        ensures
            applied == accepts(old(self)@, slot as int),
            final(self)@ == step(old(self)@, slot as int, event),
    {
        if !self.started || slot >= self.statuses.len() {
            return false;
        }
        if self.statuses[slot] != SlotStatus::Pending {
            return false;
        }
        if aggregate_readiness(self.statuses.as_slice()) != ReadinessState::Loading {
            return false;
        }
        let status = match event {
            LoadEvent::Installed => SlotStatus::Installed,
            LoadEvent::Failed(f) => SlotStatus::Failed(f),
        };
        let ghost before = self@;
        self.statuses.set(slot, status);
        assert(self@.statuses =~= before.statuses.update(slot as int, status_after(event)));
        true
    }

    /// Records the result of converting the manifest at `slot`, and hands the
    /// converted manifest back where it is to be installed.
    pub fn install<M, E>(&mut self, slot: usize, converted: Result<M, E>) -> (r: Option<M>)
        ensures
            final(self)@ == step(old(self)@, slot as int, conversion_event(&converted)),
            match r {
                Some(m) => accepts(old(self)@, slot as int) && converted == Ok::<M, E>(m),
                None => !accepts(old(self)@, slot as int) || converted is Err,
            },
    {
        match converted {
            Ok(m) => {
                if self.report(slot, LoadEvent::Installed) {
                    Some(m)
                } else {
                    None
                }
            },
            Err(_) => {
                self.report(slot, LoadEvent::Failed(LoadFailure::Conversion));
                None
            },
        }
    }

    /// The current readiness.
    pub fn state(&self) -> (r: ReadinessState)
        ensures
            r == readiness(self@),
    {
        if !self.started {
            ReadinessState::Loading
        } else {
            aggregate_readiness(self.statuses.as_slice())
        }
    }

    /// Read access to an installed manifest: granted only once the
    /// coordinator is ready. After a failure nothing is readable, also what
    /// was installed before it.
    pub fn available<'a, M>(&self, manifest: &'a Option<M>) -> (r: Option<&'a M>)
        ensures
            match r {
                Some(m) => readiness(self@) == ReadinessState::Ready && *manifest == Some(*m),
                None => readiness(self@) != ReadinessState::Ready || manifest is None,
            },
    {
        if self.state() == ReadinessState::Ready {
            match manifest {
                Some(m) => Some(m),
                None => None,
            }
        } else {
            None
        }
    }

    /// The number of registered manifests.
    pub fn len(&self) -> (r: usize)
        ensures
            r == self@.statuses.len(),
    {
        self.statuses.len()
    }

    /// The status of the manifest at `slot`.
    pub fn status(&self, slot: usize) -> (r: Option<SlotStatus>)
        ensures
            r == (if slot < self@.statuses.len() {
                Some(self@.statuses[slot as int])
            } else {
                None::<SlotStatus>
            }),
    {
        if slot < self.statuses.len() {
            Some(self.statuses[slot])
        } else {
            None
        }
    }

    /// The registration at `slot`.
    pub fn registration(&self, slot: usize) -> (r: Option<&Registration>)
        ensures
            match r {
                Some(reg) => slot < self@.kinds.len() && reg.kind == self@.kinds[slot as int]
                    && reg.path@ == self@.paths[slot as int] && reg.format == self@.formats[slot as int],
                None => slot >= self@.kinds.len(),
            },
    {
        if slot < self.registrations.len() {
            Some(&self.registrations[slot])
        } else {
            None
        }
    }
}

/// The event that a conversion result stands for.
pub open spec fn conversion_event<M, E>(converted: &Result<M, E>) -> LoadEvent {
    match converted {
        Ok(_) => LoadEvent::Installed,
        Err(_) => LoadEvent::Failed(LoadFailure::Conversion),
    }
}

/// The coordinator is loading before loading begins and while some manifest
/// is pending and none has failed; it is ready exactly when loading has begun
/// and every manifest is installed, so never while one is pending.
pub proof fn lemma_ready_when_all_installed(v: CoordinatorView)
    ensures
        !v.started ==> readiness(v) == ReadinessState::Loading,
        v.started && !any_failed(v.statuses) && !all_installed(v.statuses) ==> readiness(v)
            == ReadinessState::Loading,
        readiness(v) == ReadinessState::Ready <==> v.started && all_installed(v.statuses),
        forall|i: int|
            0 <= i < v.statuses.len() && v.statuses[i] == SlotStatus::Pending ==> readiness(v)
                != ReadinessState::Ready,
{
    if all_installed(v.statuses) {
        assert forall|i: int| 0 <= i < v.statuses.len() implies !(#[trigger] v.statuses[i] is Failed) by {
            assert(v.statuses[i] is Installed);
        }
    }
}

/// A failure of any one pending manifest, at fetch, decode or conversion,
/// leaves the coordinator failed, whatever became of the others.
pub proof fn lemma_failure_dominates(v: CoordinatorView, slot: int, failure: LoadFailure)
    requires
        accepts(v, slot),
    ensures
        readiness(step(v, slot, LoadEvent::Failed(failure))) == ReadinessState::Failed,
{
    let after = step(v, slot, LoadEvent::Failed(failure));
    assert(after.statuses[slot] is Failed);
}

/// Ready and failed are terminal: no event changes a coordinator in either.
pub proof fn lemma_terminal_states_stay(v: CoordinatorView, slot: int, event: LoadEvent)
    requires
        readiness(v) != ReadinessState::Loading,
    ensures
        step(v, slot, event) == v,
{
}

/// Once every manifest has been reported installed, in any order, starting
/// from all pending, the coordinator is ready.
pub proof fn lemma_all_installed_gives_ready(v: CoordinatorView, order: Seq<int>)
    requires
        v.started,
        forall|i: int| 0 <= i < v.statuses.len() ==> v.statuses[i] == SlotStatus::Pending,
        forall|s: int| 0 <= s < v.statuses.len() ==> order.contains(s),
    ensures
        readiness(steps(v, order)) == ReadinessState::Ready,
{
    lemma_steps_installed(v, order);
    let w = steps(v, order);
    assert forall|s: int| 0 <= s < w.statuses.len() implies (#[trigger] w.statuses[s]) is Installed by {
        assert(order.contains(s));
    }
    lemma_ready_when_all_installed(w);
}

/// The coordinator after reporting each slot of `order` installed, in turn.
pub open spec fn steps(v: CoordinatorView, order: Seq<int>) -> CoordinatorView
    decreases order.len(),
{
    if order.len() == 0 {
        v
    } else {
        step(steps(v, order.drop_last()), order.last(), LoadEvent::Installed)
    }
}

proof fn lemma_steps_installed(v: CoordinatorView, order: Seq<int>)
    requires
        v.started,
        forall|i: int| 0 <= i < v.statuses.len() ==> v.statuses[i] == SlotStatus::Pending,
    ensures
        steps(v, order).started,
        steps(v, order).statuses.len() == v.statuses.len(),
        forall|s: int|
            0 <= s < v.statuses.len() ==> (#[trigger] steps(v, order).statuses[s]) == (if order.contains(s) {
                SlotStatus::Installed
            } else {
                SlotStatus::Pending
            }),
    decreases order.len(),
{
    if order.len() > 0 {
        let prev = order.drop_last();
        lemma_steps_installed(v, prev);
        let w = steps(v, prev);
        let slot = order.last();
        assert(!any_failed(w.statuses)) by {
            if any_failed(w.statuses) {
                let k = choose|k: int| 0 <= k < w.statuses.len() && (#[trigger] w.statuses[k]) is Failed;
                assert(w.statuses[k] == SlotStatus::Installed || w.statuses[k] == SlotStatus::Pending);
            }
        }
        assert forall|s: int| 0 <= s < v.statuses.len() implies (order.contains(s) <==> (prev.contains(s) || s == slot)) by {
            if prev.contains(s) {
                let k = choose|k: int| 0 <= k < prev.len() && prev[k] == s;
                assert(order[k] == s);
            }
            if order.contains(s) && s != slot {
                let k = choose|k: int| 0 <= k < order.len() && order[k] == s;
                assert(prev[k] == s);
            }
            if s == slot {
                assert(order[order.len() - 1] == s);
            }
        }
        if 0 <= slot < v.statuses.len() && !prev.contains(slot) {
            assert(!all_installed(w.statuses)) by {
                assert(!(w.statuses[slot] is Installed));
            }
            assert(accepts(w, slot));
        }
    }
}

} // verus!

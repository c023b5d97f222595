//! The peripheral-value inference engine.
//!
//! The host emulator calls the engine once per machine instruction
//! (`hook_architectural_step`) and once per micro-operation
//! (`hook_operation_step`).  The engine watches loads from configured
//! peripheral address ranges, starts a solving session on each such load,
//! aborts the session when the code stores to the read address or leaves
//! the local loop (call, return, second forward jump), and asks for a
//! solve when a conditional branch jumps back to or before the load.
//!
//! The emulator and the constraint solver stay with the embedder: every
//! hook works on plain values and answers with an [`Action`] saying what
//! the embedder must do (write bytes back into emulated memory, or run
//! the solver over the accumulated trace and hand the bindings to
//! [`DummyPeripheral::apply_solver_bindings`]).  Each operation event
//! carries an opaque payload (the embedder's own representation of the
//! micro-operation); payloads of a live session are accumulated in the
//! solver trace in place of the operations themselves.
//!
//! Every transition is specified by the spec function [`step_model`] and
//! the action by [`step_act`]; the laws module states the loop-detection
//! policy as proved theorems over the same model.

use vstd::prelude::*;

use crate::bytes::{value_bytes, value_to_bytes, ByteOrder};
use crate::errors::{supported_width, InferenceError};
use crate::result_cache::{seq_lookup, ResultCache, SolvingResult};

verus! {

/// Metadata of the most recent qualifying peripheral read: the program
/// counter of the load, the address read, the destination width in bytes,
/// and the architectural step count at that moment.
#[derive(Debug, Clone, Copy, PartialEq, Eq, Structural)]
pub struct ReadEvent {
    pub pc: u64,
    pub addr: u64,
    pub size: usize,
    pub event: u128,
}

/// One micro-operation, reduced to what the loop-detection policy reads.
#[derive(Debug, Clone, Copy)]
pub enum OpEvent {
    /// A memory read: the program counter it executes at, the address
    /// read from, and the width of the destination in bytes.
    Load { pc: u64, source_addr: u64, dest_size: usize },
    /// A memory write to the given address.
    Store { dest_addr: u64 },
    /// A conditional branch; `dest_addr` is `None` when the destination
    /// is not a resolvable address (an internal target).
    CondBranch { dest_addr: Option<u64> },
    /// An indirect call.
    IndirectCall,
    /// A return.
    Return,
    /// Any other operation kind.
    Other,
}

/// What the embedder must do after a hook call.
#[derive(Debug)]
pub enum Action {
    /// Nothing: let the emulator continue.
    Pass,
    /// Write these bytes into emulated memory at this address (a cached
    /// solved value serves a repeated peripheral read).
    WriteMem { addr: u64, bytes: Vec<u8> },
    /// A polling loop was detected: run the solver over the session trace
    /// and the branch condition, then hand any bindings to
    /// [`DummyPeripheral::apply_solver_bindings`].
    Solve,
}

/// A write of concrete bytes into emulated memory, produced from one
/// solver binding.
#[derive(Debug)]
pub struct MemWrite {
    pub addr: u64,
    pub bytes: Vec<u8>,
}

/// Mathematical image of an [`Action`].
#[verifier::ext_equal]
pub ghost enum ActModel {
    Pass,
    Write { addr: u64, bytes: Seq<u8> },
    Solve,
}

/// The action an [`Action`] value stands for.
pub open spec fn act_of(a: Action) -> ActModel {
    match a {
        Action::Pass => ActModel::Pass,
        Action::WriteMem { addr, bytes } => ActModel::Write { addr, bytes: bytes@ },
        Action::Solve => ActModel::Solve,
    }
}

/// Mathematical state of the engine: configuration plus the transient
/// solving session.
#[verifier::ext_equal]
pub ghost struct EngineModel<P> {
    /// Configured peripheral address intervals, inclusive on both ends.
    pub ranges: Seq<(u64, u64)>,
    /// Architectural steps since engine creation; never reset.
    pub event_counter: u128,
    /// Micro-operations seen since the current session started (or since
    /// creation, while no session ever started).
    pub pcode_counter: u128,
    /// Whether solved results are cached and served from the cache.
    pub cache_enable: bool,
    /// The byte order values are written back in.
    pub order: ByteOrder,
    /// Named default variable bindings that seed every new session.
    pub defaults: Seq<(Seq<char>, u128)>,
    /// Whether an inference attempt is in progress.
    pub active: bool,
    /// Forward jumps tolerated so far in this session.
    pub forgive: u32,
    /// The read that started the most recent session.
    pub last_read: ReadEvent,
    /// The default bindings the current session was seeded with.
    pub seeds: Seq<(Seq<char>, u128)>,
    /// The payloads of the operations recorded for the solver.
    pub trace: Seq<P>,
}

/// An address lies in peripheral memory iff some configured range
/// contains it, inclusive on both ends.
pub open spec fn in_ranges(ranges: Seq<(u64, u64)>, addr: u64) -> bool {
    exists|i: int| 0 <= i < ranges.len() && ranges[i].0 <= addr && addr <= ranges[i].1
}

/// The engine's invariant: forward jumps are counted only up to the bound
/// of one tolerated jump, so the counter never passes two, and a live
/// session has used at most its one forgiveness.
pub open spec fn inv<P>(m: EngineModel<P>) -> bool {
    &&& m.forgive <= 2
    &&& (m.active ==> m.forgive <= 1)
}

/// The view of a default-variable table.
pub open spec fn defaults_view(v: Seq<(String, u128)>) -> Seq<(Seq<char>, u128)> {
    v.map_values(|p: (String, u128)| (p.0@, p.1))
}

/// The first index bound to this name, or -1 when the name is absent.
pub open spec fn find_default(s: Seq<(Seq<char>, u128)>, name: Seq<char>) -> int
    decreases s.len(),
{
    if s.len() == 0 {
        -1
    } else if s[0].0 == name {
        0
    } else {
        let r = find_default(s.drop_first(), name);
        if r < 0 {
            -1
        } else {
            r + 1
        }
    }
}

/// The default table after binding `name` to `value`: the binding is
/// overwritten in place when the name exists, appended otherwise.
pub open spec fn upsert_default(s: Seq<(Seq<char>, u128)>, name: Seq<char>, value: u128) -> Seq<
    (Seq<char>, u128),
> {
    let i = find_default(s, name);
    if i < 0 {
        s.push((name, value))
    } else {
        s.update(i, (name, value))
    }
}

/// The engine state with the payload appended to the session trace when a
/// session is live, unchanged otherwise.
pub open spec fn append_if_active<P>(m: EngineModel<P>, payload: P) -> EngineModel<P> {
    if m.active {
        EngineModel { trace: m.trace.push(payload), ..m }
    } else {
        m
    }
}

/// The engine state with the operation counter advanced by one.
pub open spec fn bump<P>(m: EngineModel<P>) -> EngineModel<P> {
    EngineModel { pcode_counter: (m.pcode_counter + 1) as u128, ..m }
}

/// A load is served from the cache iff its source lies in a configured
/// range, caching is enabled, and the cache holds an entry for it.
pub open spec fn serves_from_cache<P>(
    m: EngineModel<P>,
    cache: Seq<SolvingResult>,
    addr: u64,
) -> bool {
    in_ranges(m.ranges, addr) && m.cache_enable && seq_lookup(cache, addr) is Some
}

/// The width the step would fail on: a cache-served load whose
/// destination width the engine cannot convert.
pub open spec fn step_width_err<P>(
    m: EngineModel<P>,
    cache: Seq<SolvingResult>,
    ev: OpEvent,
) -> Option<usize> {
    match ev {
        OpEvent::Load { pc, source_addr, dest_size } => {
            if serves_from_cache(m, cache, source_addr) && !supported_width(dest_size) {
                Some(dest_size)
            } else {
                None
            }
        },
        _ => None,
    }
}

/// The engine state after one micro-operation.  Defined for steps that do
/// not fail on an unsupported width.
pub open spec fn step_model<P>(
    m: EngineModel<P>,
    cache: Seq<SolvingResult>,
    ev: OpEvent,
    payload: P,
) -> EngineModel<P>
    recommends
        step_width_err(m, cache, ev) is None,
        m.pcode_counter < u128::MAX,
{
    match ev {
        OpEvent::Load { pc, source_addr, dest_size } => {
            if !in_ranges(m.ranges, source_addr) || serves_from_cache(m, cache, source_addr) {
                // Outside peripheral memory, or answered from the cache:
                // the session is left as it is.
                bump(append_if_active(m, payload))
            } else {
                // Start a new session, discarding any session in
                // progress: fresh counters, fresh trace holding only
                // this load, seeded with the default bindings.
                EngineModel {
                    pcode_counter: 1u128,
                    active: true,
                    forgive: 0u32,
                    last_read: ReadEvent {
                        pc,
                        addr: source_addr,
                        size: dest_size,
                        event: m.event_counter,
                    },
                    seeds: m.defaults,
                    trace: seq![payload],
                    ..m
                }
            }
        },
        OpEvent::Store { dest_addr } => {
            // Storing to the tracked read address: the register is being
            // overwritten, not polled, so the session is aborted.
            let m2 = if dest_addr == m.last_read.addr {
                EngineModel { active: false, ..m }
            } else {
                m
            };
            bump(append_if_active(m2, payload))
        },
        OpEvent::CondBranch { dest_addr } => {
            if !m.active {
                bump(m)
            } else {
                match dest_addr {
                    Some(d) => {
                        if d <= m.last_read.pc {
                            // Branch back to (or before) the load: loop
                            // detected, the session ends with a solve.
                            bump(EngineModel { active: false, ..m })
                        } else if m.forgive + 1 > 1 {
                            // Second forward jump: judged not a loop.
                            bump(
                                EngineModel {
                                    active: false,
                                    forgive: (m.forgive + 1) as u32,
                                    ..m
                                },
                            )
                        } else {
                            // First forward jump: forgiven, recorded.
                            bump(
                                append_if_active(
                                    EngineModel { forgive: (m.forgive + 1) as u32, ..m },
                                    payload,
                                ),
                            )
                        }
                    },
                    // A non-address destination is an internal target:
                    // not a loop start, the session continues untouched.
                    None => bump(append_if_active(m, payload)),
                }
            }
        },
        OpEvent::IndirectCall => bump(EngineModel { active: false, ..m }),
        OpEvent::Return => bump(EngineModel { active: false, ..m }),
        OpEvent::Other => bump(append_if_active(m, payload)),
    }
}

/// The action one micro-operation step answers with.
pub open spec fn step_act<P>(m: EngineModel<P>, cache: Seq<SolvingResult>, ev: OpEvent) -> ActModel
    recommends
        step_width_err(m, cache, ev) is None,
{
    match ev {
        OpEvent::Load { pc, source_addr, dest_size } => {
            if serves_from_cache(m, cache, source_addr) {
                match seq_lookup(cache, source_addr) {
                    Some(prev) => ActModel::Write {
                        addr: source_addr,
                        bytes: value_bytes(prev.value, m.order, dest_size as int),
                    },
                    None => ActModel::Pass,
                }
            } else {
                ActModel::Pass
            }
        },
        OpEvent::CondBranch { dest_addr } => {
            if m.active {
                match dest_addr {
                    Some(d) => if d <= m.last_read.pc {
                        ActModel::Solve
                    } else {
                        ActModel::Pass
                    },
                    None => ActModel::Pass,
                }
            } else {
                ActModel::Pass
            }
        },
        _ => ActModel::Pass,
    }
}

/// The cache after the bindings of one successful solve were applied: at
/// most one fresh entry, for the tracked read address, holding the first
/// binding's value — and only when caching is enabled and something was
/// bound at all.
pub open spec fn cache_after_solve<P>(
    c: Seq<SolvingResult>,
    m: EngineModel<P>,
    bindings: Seq<(u64, u64)>,
) -> Seq<SolvingResult> {
    if m.cache_enable && bindings.len() > 0 {
        if seq_lookup(c, m.last_read.addr) is Some {
            c
        } else {
            c.push(
                (SolvingResult {
                    target_addr: m.last_read.addr,
                    value: bindings[0].1,
                    size: m.last_read.size,
                }),
            )
        }
    } else {
        c
    }
}

/// The inference engine.  `P` is the embedder's own representation of a
/// micro-operation, carried opaquely into the session trace.
#[derive(Clone)]
pub struct DummyPeripheral<P> {
    address_range_list: Vec<(u64, u64)>,
    event_counter: u128,
    pcode_counter: u128,
    solving_results_cache_enable: bool,
    byte_order: ByteOrder,
    solver_default_vars: Vec<(String, u128)>,
    solving_started: bool,
    forgive_jump: u32,
    last_mem_read_event: ReadEvent,
    session_seeds: Vec<(String, u128)>,
    solver_trace: Vec<P>,
}

impl<P> View for DummyPeripheral<P> {
    type V = EngineModel<P>;

    closed spec fn view(&self) -> EngineModel<P> {
        EngineModel {
            ranges: self.address_range_list@,
            event_counter: self.event_counter,
            pcode_counter: self.pcode_counter,
            cache_enable: self.solving_results_cache_enable,
            order: self.byte_order,
            defaults: defaults_view(self.solver_default_vars@),
            active: self.solving_started,
            forgive: self.forgive_jump,
            last_read: self.last_mem_read_event,
            seeds: defaults_view(self.session_seeds@),
            trace: self.solver_trace@,
        }
    }
}

/// Whether any configured range contains the address.
fn addr_in_ranges(ranges: &Vec<(u64, u64)>, addr: u64) -> (r: bool)
    ensures
        r == in_ranges(ranges@, addr),
{
    let n = ranges.len();
    let mut i: usize = 0;
    while i < n
        invariant
            i <= n,
            n == ranges@.len(),
            forall|j: int| 0 <= j < i ==> !(ranges@[j].0 <= addr && addr <= ranges@[j].1),
        decreases n - i,
    {
        let (lo, hi) = ranges[i];
        if lo <= addr && addr <= hi {
            return true;
        }
        i = i + 1;
    }
    false
}

/// A copy of a default-variable table with the same bindings.
fn clone_defaults(v: &Vec<(String, u128)>) -> (r: Vec<(String, u128)>)
    ensures
        defaults_view(r@) == defaults_view(v@),
{
    let n = v.len();
    let mut r: Vec<(String, u128)> = Vec::new();
    let mut i: usize = 0;
    while i < n
        invariant
            i <= n,
            n == v@.len(),
            r@.len() == i as int,
            forall|j: int|
                0 <= j < i ==> (#[trigger] r@[j]).0@ == v@[j].0@ && r@[j].1 == v@[j].1,
        decreases n - i,
    {
        let name = v[i].0.clone();
        let value = v[i].1;
        r.push((name, value));
        i = i + 1;
    }
    proof {
        assert(defaults_view(r@) =~~= defaults_view(v@));
    }
    r
}

/// When the first `i` entries do not bind the name and entry `i` does,
/// `i` is the first index bound to it.
proof fn lemma_find_default_at(s: Seq<(Seq<char>, u128)>, name: Seq<char>, i: int)
    requires
        0 <= i < s.len(),
        s[i].0 == name,
        forall|j: int| 0 <= j < i ==> s[j].0 != name,
    ensures
        find_default(s, name) == i,
    decreases s.len(),
{
    if i > 0 {
        lemma_find_default_at(s.drop_first(), name, i - 1);
    }
}

/// When no entry binds the name, the search reports it absent.
proof fn lemma_find_default_absent(s: Seq<(Seq<char>, u128)>, name: Seq<char>)
    requires
        forall|j: int| 0 <= j < s.len() ==> s[j].0 != name,
    ensures
        find_default(s, name) == -1,
    decreases s.len(),
{
    if s.len() > 0 {
        lemma_find_default_absent(s.drop_first(), name);
    }
}

impl<P> DummyPeripheral<P> {
    /// A fresh engine: no ranges, no defaults, cache disabled,
    /// little-endian write-back, no session.
    pub fn new() -> (r: DummyPeripheral<P>)
        ensures
            r@ == (EngineModel::<P> {
                ranges: Seq::empty(),
                event_counter: 0u128,
                pcode_counter: 0u128,
                cache_enable: false,
                order: ByteOrder::Little,
                defaults: Seq::empty(),
                active: false,
                forgive: 0u32,
                last_read: (ReadEvent { pc: 0u64, addr: 0u64, size: 0usize, event: 0u128 }),
                seeds: Seq::empty(),
                trace: Seq::empty(),
            }),
            inv(r@),
    {
        let r = DummyPeripheral {
            address_range_list: Vec::new(),
            event_counter: 0,
            pcode_counter: 0,
            solving_results_cache_enable: false,
            byte_order: ByteOrder::Little,
            solver_default_vars: Vec::new(),
            solving_started: false,
            forgive_jump: 0,
            last_mem_read_event: ReadEvent { pc: 0, addr: 0, size: 0, event: 0 },
            session_seeds: Vec::new(),
            solver_trace: Vec::new(),
        };
        proof {
            assert(defaults_view(Seq::<(String, u128)>::empty()) =~~= Seq::<
                (Seq<char>, u128),
            >::empty());
            assert(r@ =~~= (EngineModel::<P> {
                ranges: Seq::empty(),
                event_counter: 0u128,
                pcode_counter: 0u128,
                cache_enable: false,
                order: ByteOrder::Little,
                defaults: Seq::empty(),
                active: false,
                forgive: 0u32,
                last_read: (ReadEvent { pc: 0u64, addr: 0u64, size: 0usize, event: 0u128 }),
                seeds: Seq::empty(),
                trace: Seq::empty(),
            }));
        }
        r
    }

    /// Toggle whether solved results are cached and served from the
    /// cache.  Disabled, every peripheral load starts a fresh session.
    pub fn enable_solving_result_cache(&mut self, enable: bool)
        ensures
            final(self)@ == (EngineModel { cache_enable: enable, ..old(self)@ }),
    {
        self.solving_results_cache_enable = enable;
        proof {
            assert(self@ =~~= (EngineModel { cache_enable: enable, ..old(self)@ }));
        }
    }

    /// Choose the byte order used when writing values back.
    pub fn set_byte_order(&mut self, order: ByteOrder)
        ensures
            final(self)@ == (EngineModel { order, ..old(self)@ }),
    {
        self.byte_order = order;
        proof {
            assert(self@ =~~= (EngineModel { order, ..old(self)@ }));
        }
    }

    /// Append a peripheral address interval, inclusive on both ends.
    /// Ranges are not merged or checked for overlap: each call simply
    /// extends the set of addresses treated as peripheral memory.
    pub fn add_address_range(&mut self, addr_range: (u64, u64))
        ensures
            final(self)@ == (EngineModel { ranges: old(self)@.ranges.push(addr_range), ..old(
                self,
            )@ }),
    {
        self.address_range_list.push(addr_range);
        proof {
            assert(self@ =~~= (EngineModel { ranges: old(self)@.ranges.push(addr_range), ..old(
                self,
            )@ }));
        }
    }

    /// Bind a named default variable used to seed every new session,
    /// overwriting an existing binding of the same name.
    pub fn add_default_reg(&mut self, name: &str, value: u128)
        ensures
            final(self)@ == (EngineModel { defaults: upsert_default(
                old(self)@.defaults,
                name@,
                value,
            ), ..old(self)@ }),
    {
        let key: String = name.to_owned();
        let n = self.solver_default_vars.len();
        let mut i: usize = 0;
        while i < n
            invariant
                i <= n,
                *self == *old(self),
                n == self.solver_default_vars@.len(),
                key@ == name@,
                forall|j: int|
                    0 <= j < i ==> (#[trigger] self.solver_default_vars@[j]).0@ != name@,
            decreases n - i,
        {
            if self.solver_default_vars[i].0 == key {
                proof {
                    let ghost s = defaults_view(self.solver_default_vars@);
                    assert forall|j: int| 0 <= j < i implies s[j].0 != name@ by {
                        assert(s[j].0 == self.solver_default_vars@[j].0@);
                    }
                    assert(s[i as int].0 == name@);
                    lemma_find_default_at(s, name@, i as int);
                }
                self.solver_default_vars.set(i, (key, value));
                proof {
                    assert(defaults_view(self.solver_default_vars@) =~~= upsert_default(
                        defaults_view(old(self).solver_default_vars@),
                        name@,
                        value,
                    ));
                    assert(self@ =~~= (EngineModel { defaults: upsert_default(
                        old(self)@.defaults,
                        name@,
                        value,
                    ), ..old(self)@ }));
                }
                return ;
            }
            i = i + 1;
        }
        proof {
            let ghost s = defaults_view(self.solver_default_vars@);
            assert forall|j: int| 0 <= j < s.len() implies s[j].0 != name@ by {
                assert(s[j].0 == self.solver_default_vars@[j].0@);
            }
            lemma_find_default_absent(s, name@);
        }
        self.solver_default_vars.push((key, value));
        proof {
            assert(defaults_view(self.solver_default_vars@) =~~= upsert_default(
                defaults_view(old(self).solver_default_vars@),
                name@,
                value,
            ));
            assert(self@ =~~= (EngineModel { defaults: upsert_default(
                old(self)@.defaults,
                name@,
                value,
            ), ..old(self)@ }));
        }
    }

    /// Whether the address lies in configured peripheral memory.
    pub fn is_peripheral(&self, addr: u64) -> (r: bool)
        ensures
            r == in_ranges(self@.ranges, addr),
    {
        addr_in_ranges(&self.address_range_list, addr)
    }

    /// Whether an inference attempt is in progress.
    pub fn is_active(&self) -> (r: bool)
        ensures
            r == self@.active,
    {
        self.solving_started
    }

    /// The payloads recorded for the solver in the current session.
    pub fn session_trace(&self) -> (r: &Vec<P>)
        ensures
            r@ == self@.trace,
    {
        &self.solver_trace
    }

    /// The default bindings the current session was seeded with.
    pub fn session_seeds(&self) -> (r: &Vec<(String, u128)>)
        ensures
            defaults_view(r@) == self@.seeds,
    {
        &self.session_seeds
    }

    /// The read that started the most recent session.
    pub fn last_read_event(&self) -> (r: ReadEvent)
        ensures
            r == self@.last_read,
    {
        self.last_mem_read_event
    }

    /// Architectural steps observed since creation.
    pub fn event_count(&self) -> (r: u128)
        ensures
            r == self@.event_counter,
    {
        self.event_counter
    }

    /// Micro-operations observed since the current session started (or
    /// since creation, while no session ever started).
    pub fn operation_count(&self) -> (r: u128)
        ensures
            r == self@.pcode_counter,
    {
        self.pcode_counter
    }

    /// Called once per machine instruction: advances the step clock and
    /// nothing else.
    pub fn hook_architectural_step(&mut self, _address: u64) -> (r: Action)
        requires
            old(self)@.event_counter < u128::MAX,
        ensures
            final(self)@ == (EngineModel { event_counter: (old(self)@.event_counter + 1) as u128, ..old(
                self,
            )@ }),
            r is Pass,
    {
        self.event_counter = self.event_counter + 1;
        proof {
            assert(self@ =~~= (EngineModel { event_counter: (old(self)@.event_counter
                + 1) as u128, ..old(self)@ }));
        }
        Action::Pass
    }

    /// Called once per micro-operation: drives the session state machine
    /// as [`step_model`] says and answers with the action [`step_act`]
    /// says.  Fails — leaving the engine untouched — exactly when a
    /// cache-served load has a destination width outside {1, 4, 8}.
    pub fn hook_operation_step(&mut self, cache: &ResultCache, operation: OpEvent, payload: P) -> (r:
        Result<Action, InferenceError>)
        requires
            inv(old(self)@),
            old(self)@.pcode_counter < u128::MAX,
        ensures
            inv(final(self)@),
            match r {
                Ok(act) => {
                    &&& step_width_err(old(self)@, cache@, operation) is None
                    &&& final(self)@ == step_model(old(self)@, cache@, operation, payload)
                    &&& act_of(act) == step_act(old(self)@, cache@, operation)
                },
                Err(e) => {
                    &&& step_width_err(old(self)@, cache@, operation) matches Some(sz) && e
                        == (InferenceError::UnsupportedWidth { size: sz })
                    &&& *final(self) == *old(self)
                },
            },
    {
        let ghost m0 = self@;
        let mut action = Action::Pass;
        match operation {
            OpEvent::Load { pc, source_addr, dest_size } => {
                if addr_in_ranges(&self.address_range_list, source_addr) {
                    let cached = if self.solving_results_cache_enable {
                        cache.lookup(source_addr)
                    } else {
                        None
                    };
                    match cached {
                        Some(prev) => {
                            // Served from the cache: convert the solved
                            // value and leave the session alone.
                            match value_to_bytes(prev.value, self.byte_order, dest_size) {
                                Ok(bytes) => {
                                    action = Action::WriteMem { addr: source_addr, bytes };
                                },
                                Err(e) => {
                                    return Err(e);
                                },
                            }
                        },
                        None => {
                            // Start a new session, replacing any session
                            // in progress.
                            self.pcode_counter = 0;
                            self.solving_started = true;
                            self.forgive_jump = 0;
                            self.last_mem_read_event = ReadEvent {
                                pc,
                                addr: source_addr,
                                size: dest_size,
                                event: self.event_counter,
                            };
                            self.session_seeds = clone_defaults(&self.solver_default_vars);
                            self.solver_trace = Vec::new();
                        },
                    }
                }
            },
            OpEvent::Store { dest_addr } => {
                if dest_addr == self.last_mem_read_event.addr {
                    self.solving_started = false;
                }
            },
            OpEvent::CondBranch { dest_addr } => {
                if self.solving_started {
                    match dest_addr {
                        Some(d) => {
                            let last_pc = self.last_mem_read_event.pc;
                            if d <= last_pc {
                                self.solving_started = false;
                                action = Action::Solve;
                            } else {
                                self.forgive_jump = self.forgive_jump + 1;
                                if self.forgive_jump > 1 {
                                    self.solving_started = false;
                                }
                            }
                        },
                        None => {},
                    }
                }
            },
            OpEvent::IndirectCall => {
                self.solving_started = false;
            },
            OpEvent::Return => {
                self.solving_started = false;
            },
            OpEvent::Other => {},
        }
        if self.solving_started {
            self.solver_trace.push(payload);
        }
        self.pcode_counter = self.pcode_counter + 1;
        proof {
            assert(self@ =~~= step_model(m0, cache@, operation, payload));
            assert(act_of(action) =~~= step_act(m0, cache@, operation));
        }
        Ok(action)
    }

    /// Apply the bindings of a successful solve: convert each bound value
    /// to the tracked read's width in the configured order, and record the
    /// first binding in the cache (first insertion wins) when caching is
    /// enabled.  Fails — leaving the cache untouched — exactly when there
    /// is something to write and the tracked width is outside {1, 4, 8}.
    pub fn apply_solver_bindings(&self, cache: &mut ResultCache, bindings: &Vec<(u64, u64)>) -> (r:
        Result<Vec<MemWrite>, InferenceError>)
        requires
            old(cache).wf(),
        ensures
            final(cache).wf(),
            match r {
                Ok(writes) => {
                    &&& (bindings@.len() > 0 ==> supported_width(self@.last_read.size))
                    &&& writes@.len() == bindings@.len()
                    &&& forall|i: int|
                        0 <= i < bindings@.len() ==> (#[trigger] writes@[i]).addr
                            == bindings@[i].0 && writes@[i].bytes@ == value_bytes(
                            bindings@[i].1,
                            self@.order,
                            self@.last_read.size as int,
                        )
                    &&& final(cache)@ == cache_after_solve(old(cache)@, self@, bindings@)
                },
                Err(e) => {
                    &&& !supported_width(self@.last_read.size)
                    &&& bindings@.len() > 0
                    &&& e == (InferenceError::UnsupportedWidth { size: self@.last_read.size })
                    &&& final(cache)@ == old(cache)@
                },
            },
    {
        let n = bindings.len();
        if n == 0 {
            return Ok(Vec::new());
        }
        let size = self.last_mem_read_event.size;
        if !(size == 1 || size == 4 || size == 8) {
            return Err(InferenceError::UnsupportedWidth { size });
        }
        if self.solving_results_cache_enable {
            cache.insert(self.last_mem_read_event.addr, bindings[0].1, size);
        }
        let mut writes: Vec<MemWrite> = Vec::new();
        let mut i: usize = 0;
        while i < n
            invariant
                i <= n,
                n == bindings@.len(),
                supported_width(size),
                size == self@.last_read.size,
                self.byte_order == self@.order,
                writes@.len() == i as int,
                forall|j: int|
                    0 <= j < i ==> (#[trigger] writes@[j]).addr == bindings@[j].0
                        && writes@[j].bytes@ == value_bytes(
                        bindings@[j].1,
                        self@.order,
                        self@.last_read.size as int,
                    ),
            decreases n - i,
        {
            let (a, v) = bindings[i];
            match value_to_bytes(v, self.byte_order, size) {
                Ok(bytes) => {
                    writes.push(MemWrite { addr: a, bytes });
                },
                Err(_) => {
                    proof {
                        assert(false);
                    }
                },
            }
            i = i + 1;
        }
        Ok(writes)
    }
}

} // verus!

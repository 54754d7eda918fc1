//! The mathematical model of the Intcode machine: ghost state, instruction
//! decoding, address resolution, and a small-step transition function.
//! Every executable method of [`crate::machine::Machine`] is specified
//! against the functions in this module.
use vstd::prelude::*;

verus! {

/// Number of memory cells the machine can at most address: one more than
/// the largest non-negative `i64`. A write at or beyond this address can
/// never be materialized (it would need more cells than any allocation can
/// hold) and is reported as an allocation fault.
pub const MEM_LIMIT: u64 = 0x8000_0000_0000_0000;

/// Largest value the instruction pointer can reach: it is either set to a
/// non-negative `i64` jump target (below `MEM_LIMIT`) or advanced by at
/// most 4 past the start of a decoded instruction, which lies below
/// `MEM_LIMIT`.
pub const IP_LIMIT: u64 = MEM_LIMIT + 3;

/// A fatal runtime condition: it halts execution and is surfaced to the
/// caller with the context that triggered it.
#[derive(Clone, Copy, Debug, PartialEq, Eq, Structural)]
pub enum Fault {
    /// The cell at the instruction pointer holds no known opcode;
    /// carries the cell's value and its address.
    UnrecognizedOpcode(i64, u64),
    /// A used parameter's mode digit is not 0, 1 or 2; carries the
    /// offending instruction's address.
    UnrecognizedParameterMode(u64),
    /// A position- or relative-mode parameter resolved to a negative
    /// address.
    NegativeAddress,
    /// The token handed to an `Input` instruction is not a valid integer.
    InvalidInput,
    /// A write resolved to an address at or beyond `MEM_LIMIT`, which no
    /// allocation can materialize.
    OutOfMemory,
}

/// The run loop's control state, and what an `execute` call reports.
#[derive(Clone, Copy, Debug, PartialEq, Eq, Structural)]
pub enum RunResult {
    /// The program has not stopped: the instruction budget of the
    /// `execute` call ran out first; call again to continue.
    Running,
    /// The program reached opcode 99.
    Halted,
    /// A fatal condition stopped the run.
    Faulted(Fault),
    /// An `Input` instruction found the input queue empty; the machine is
    /// parked on that instruction and resumes once input is supplied.
    AwaitingInput,
}

/// How the run loop must move the instruction pointer after a handler:
/// either past the instruction's parameter cells, or directly to a jump
/// target.
#[derive(Clone, Copy, Debug, PartialEq, Eq, Structural)]
pub enum Control {
    /// The instruction consumed this many parameter cells; the loop
    /// advances the instruction pointer by one more than that.
    Advance(u64),
    /// A taken jump: the loop sets the instruction pointer to this
    /// address.
    JumpTo(u64),
    /// An `Input` instruction could not be served; the loop stops without
    /// moving.
    AwaitInput,
}

/// Ghost state of the machine: the memory image, the instruction pointer
/// and the relative-base register.
pub ghost struct MachineState {
    pub mem: Seq<i64>,
    pub ip: int,
    pub rb: i64,
}

/// Ghost state of the machine's two channels: the integers not yet
/// consumed by `Input`, and the integers emitted by `Output` so far, in
/// program order.
pub ghost struct ChannelState {
    pub pending: Seq<i64>,
    pub sent: Seq<i64>,
}

/// Reading a cell: addresses beyond the materialized length hold zero
/// (the infinite zero-filled tape).
pub open spec fn mem_get(m: Seq<i64>, a: int) -> i64 {
    if 0 <= a < m.len() {
        m[a]
    } else {
        0
    }
}

/// Writing a cell: an address beyond the materialized length first
/// extends the tape with zeros up to and including that address.
pub open spec fn mem_put(m: Seq<i64>, a: int, v: i64) -> Seq<i64>
    recommends
        0 <= a,
{
    if a < m.len() {
        m.update(a, v)
    } else {
        m + Seq::new((a - m.len()) as nat, |i: int| 0i64) + seq![v]
    }
}

/// The opcode is the low two decimal digits of the instruction cell.
pub open spec fn opcode_of(v: i64) -> int
    recommends
        v >= 0,
{
    (v as int) % 100
}

/// The mode digits of the three parameters: the decimal digits of the
/// instruction cell above the opcode, least significant first. Absent
/// digits are zero (position mode).
pub open spec fn modes_of(v: i64) -> Seq<i64>
    recommends
        v >= 0,
{
    seq![
        (((v as int) / 100) % 10) as i64,
        (((v as int) / 1000) % 10) as i64,
        (((v as int) / 10000) % 10) as i64,
    ]
}

/// Address resolution for the `k`-th parameter (1-based) of the
/// instruction at `s.ip`, under mode digit `mode`:
/// mode 0 (position) takes the raw parameter value as the address, mode 1
/// (immediate) the parameter cell's own address, mode 2 (relative) the
/// raw value offset by the relative base. A negative address and an
/// unknown mode digit are fatal.
pub open spec fn resolve(s: MachineState, k: int, mode: i64) -> Result<int, Fault>
    recommends
        1 <= k <= 3,
{
    let raw = mem_get(s.mem, s.ip + k);
    if mode == 0 {
        if raw < 0 {
            Err(Fault::NegativeAddress)
        } else {
            Ok(raw as int)
        }
    } else if mode == 1 {
        Ok(s.ip + k)
    } else if mode == 2 {
        if s.rb + raw < 0 {
            Err(Fault::NegativeAddress)
        } else {
            Ok(s.rb + raw)
        }
    } else {
        Err(Fault::UnrecognizedParameterMode(s.ip as u64))
    }
}

/// The state with the instruction pointer moved `n` cells forward.
pub open spec fn advance(s: MachineState, n: int) -> MachineState {
    MachineState { ip: s.ip + n, ..s }
}

/// The value a two-operand instruction stores: wrapping 64-bit sum or
/// product, or the 0/1 outcome of the less-than or equality test.
pub open spec fn binop_value(op: int, x: i64, y: i64) -> i64
    recommends
        op == 1 || op == 2 || op == 7 || op == 8,
{
    if op == 1 {
        vstd::wrapping::i64_specs::wrapping_add(x, y)
    } else if op == 2 {
        vstd::wrapping::i64_specs::wrapping_mul(x, y)
    } else if op == 7 {
        if x < y {
            1
        } else {
            0
        }
    } else {
        if x == y {
            1
        } else {
            0
        }
    }
}

/// Effect of `Add`, `Multiply`, `LessThan` and `Equals` (opcodes 1, 2, 7,
/// 8) on the machine state, instruction pointer aside: the first two
/// resolved operands are read, and the result is stored at the third
/// resolved address. Resolution faults surface in parameter order.
pub open spec fn spec_binop(s: MachineState, modes: Seq<i64>, op: int) -> Result<
    MachineState,
    Fault,
>
    recommends
        modes.len() == 3,
{
    match resolve(s, 1, modes[0]) {
        Err(f) => Err(f),
        Ok(a) => match resolve(s, 2, modes[1]) {
            Err(f) => Err(f),
            Ok(b) => match resolve(s, 3, modes[2]) {
                Err(f) => Err(f),
                Ok(d) => if d >= MEM_LIMIT {
                    Err(Fault::OutOfMemory)
                } else {
                    Ok(
                        MachineState {
                            mem: mem_put(
                                s.mem,
                                d,
                                binop_value(op, mem_get(s.mem, a), mem_get(s.mem, b)),
                            ),
                            ..s
                        },
                    )
                },
            },
        },
    }
}

/// Effect of `Input` (opcode 3) once a value `v` is available: `v` is
/// stored at the first resolved address.
pub open spec fn spec_input(s: MachineState, modes: Seq<i64>, v: i64) -> Result<MachineState, Fault>
    recommends
        modes.len() == 3,
{
    match resolve(s, 1, modes[0]) {
        Err(f) => Err(f),
        Ok(d) => if d >= MEM_LIMIT {
            Err(Fault::OutOfMemory)
        } else {
            Ok(MachineState { mem: mem_put(s.mem, d, v), ..s })
        },
    }
}

/// Effect of `Output` (opcode 4): the value read through the first
/// resolved address, which the machine emits.
pub open spec fn spec_output(s: MachineState, modes: Seq<i64>) -> Result<i64, Fault>
    recommends
        modes.len() == 3,
{
    match resolve(s, 1, modes[0]) {
        Err(f) => Err(f),
        Ok(p) => Ok(mem_get(s.mem, p)),
    }
}

/// Effect of `JumpIfTrue` (opcode 5, `when_nonzero`) and `JumpIfFalse`
/// (opcode 6, `!when_nonzero`): when the condition operand selects the
/// jump, the instruction pointer is set to the second operand's value,
/// which must be non-negative; otherwise it advances past both
/// parameters, by exactly 3 cells. The second operand is only resolved
/// (and can only fault) when the jump is taken.
pub open spec fn spec_jump(s: MachineState, modes: Seq<i64>, when_nonzero: bool) -> Result<
    MachineState,
    Fault,
>
    recommends
        modes.len() == 3,
{
    match resolve(s, 1, modes[0]) {
        Err(f) => Err(f),
        Ok(c) => {
            let cond = mem_get(s.mem, c);
            let taken = if when_nonzero {
                cond != 0
            } else {
                cond == 0
            };
            if taken {
                match resolve(s, 2, modes[1]) {
                    Err(f) => Err(f),
                    Ok(t) => {
                        let v = mem_get(s.mem, t);
                        if v < 0 {
                            Err(Fault::NegativeAddress)
                        } else {
                            Ok(MachineState { ip: v as int, ..s })
                        }
                    },
                }
            } else {
                Ok(MachineState { ip: s.ip + 3, ..s })
            }
        },
    }
}

/// Effect of `AdjustRelativeBase` (opcode 9): the first operand's value
/// is added (wrapping at 64 bits) to the relative-base register.
pub open spec fn spec_adjust_rb(s: MachineState, modes: Seq<i64>) -> Result<MachineState, Fault>
    recommends
        modes.len() == 3,
{
    match resolve(s, 1, modes[0]) {
        Err(f) => Err(f),
        Ok(p) => Ok(
            MachineState {
                rb: vstd::wrapping::i64_specs::wrapping_add(s.rb, mem_get(s.mem, p)),
                ..s
            },
        ),
    }
}

/// What one decoded instruction does to a configuration.
pub ghost enum StepRes {
    /// The instruction retired; execution continues from the new
    /// configuration.
    Next(MachineState, ChannelState),
    /// Execution stops, reporting the result, in this configuration.
    Done(RunResult, MachineState, ChannelState),
}

/// Fold an instruction effect into a step: a fault stops execution in
/// the unchanged machine state, a retired instruction advances the
/// instruction pointer `n` cells (0 for jumps, whose effect sets it).
pub open spec fn lift(s: MachineState, r: Result<MachineState, Fault>, n: int, io: ChannelState) -> StepRes {
    match r {
        Err(f) => StepRes::Done(RunResult::Faulted(f), s, io),
        Ok(s2) => StepRes::Next(advance(s2, n), io),
    }
}

/// The small-step transition: decode the cell at the instruction pointer
/// and apply the opcode's effect. A cell that holds no known opcode —
/// including any negative value and the zero read past the materialized
/// memory — is a fault carrying the cell's value and address. `Input` on
/// an empty queue parks the machine, unchanged, awaiting input.
#[verifier::opaque]
pub open spec fn step(s: MachineState, io: ChannelState) -> StepRes {
    let data = mem_get(s.mem, s.ip);
    if data < 0 {
        StepRes::Done(RunResult::Faulted(Fault::UnrecognizedOpcode(data, s.ip as u64)), s, io)
    } else {
        let op = opcode_of(data);
        let modes = modes_of(data);
        if op == 1 {
            lift(s, spec_binop(s, modes, 1), 4, io)
        } else if op == 2 {
            lift(s, spec_binop(s, modes, 2), 4, io)
        } else if op == 3 {
            if io.pending.len() == 0 {
                StepRes::Done(RunResult::AwaitingInput, s, io)
            } else {
                let io2 = ChannelState { pending: io.pending.drop_first(), ..io };
                lift(s, spec_input(s, modes, io.pending[0]), 2, io2)
            }
        } else if op == 4 {
            match spec_output(s, modes) {
                Err(f) => StepRes::Done(RunResult::Faulted(f), s, io),
                Ok(v) => StepRes::Next(
                    advance(s, 2),
                    ChannelState { sent: io.sent.push(v), ..io },
                ),
            }
        } else if op == 5 {
            lift(s, spec_jump(s, modes, true), 0, io)
        } else if op == 6 {
            lift(s, spec_jump(s, modes, false), 0, io)
        } else if op == 7 {
            lift(s, spec_binop(s, modes, 7), 4, io)
        } else if op == 8 {
            lift(s, spec_binop(s, modes, 8), 4, io)
        } else if op == 9 {
            lift(s, spec_adjust_rb(s, modes), 2, io)
        } else if op == 99 {
            StepRes::Done(RunResult::Halted, s, io)
        } else {
            StepRes::Done(RunResult::Faulted(Fault::UnrecognizedOpcode(data, s.ip as u64)), s, io)
        }
    }
}

/// Run `n` small steps from a configuration (or fewer, if execution
/// stops): the first component is `Running` while the program has not
/// stopped within `n` steps, and otherwise reports how it stopped; the
/// other two give the configuration reached.
pub open spec fn run_n(s: MachineState, io: ChannelState, n: nat) -> (
    RunResult,
    MachineState,
    ChannelState,
)
    decreases n,
{
    if n == 0 {
        (RunResult::Running, s, io)
    } else {
        match step(s, io) {
            StepRes::Next(s2, io2) => run_n(s2, io2, (n - 1) as nat),
            StepRes::Done(r, s2, io2) => (r, s2, io2),
        }
    }
}

/// A step never stops with `Running`: that value is reserved for a run
/// that has not stopped.
pub proof fn lemma_step_never_running(s: MachineState, io: ChannelState)
    ensures
        forall|r: RunResult, s2: MachineState, io2: ChannelState|
            step(s, io) == StepRes::Done(r, s2, io2) ==> r != RunResult::Running,
{
    reveal(step);
}

/// After `n` steps on which the run had not stopped, one more step
/// takes the run exactly where `step` takes the configuration reached.
pub proof fn lemma_run_n_extend(
    s0: MachineState,
    io0: ChannelState,
    s: MachineState,
    io: ChannelState,
    n: nat,
)
    requires
        run_n(s0, io0, n) == (RunResult::Running, s, io),
    ensures
        run_n(s0, io0, n + 1) == (match step(s, io) {
            StepRes::Next(s2, io2) => (RunResult::Running, s2, io2),
            StepRes::Done(r, s2, io2) => (r, s2, io2),
        }),
    decreases n,
{
    reveal_with_fuel(run_n, 2);
    if n == 0 {
    } else {
        match step(s0, io0) {
            StepRes::Next(s1, io1) => {
                lemma_run_n_extend(s1, io1, s, io, (n - 1) as nat);
            },
            StepRes::Done(r, s1, io1) => {
                lemma_step_never_running(s0, io0);
            },
        }
    }
}

/// Law of memory growth: writing through `mem_put` yields a memory that
/// holds the written value at the target address and reads unchanged at
/// every other address — in particular, a write beyond the materialized
/// length zero-fills the gap (those addresses read 0 before and after)
/// and preserves every prior cell. The materialized length grows to just
/// past the target when the target lay beyond it, and never shrinks.
pub proof fn lemma_mem_put_growth(m: Seq<i64>, a: int, v: i64)
    requires
        0 <= a,
    ensures
        mem_put(m, a, v).len() == if a < m.len() {
            m.len() as int
        } else {
            a + 1
        },
        mem_get(mem_put(m, a, v), a) == v,
        forall|j: int| j != a ==> mem_get(mem_put(m, a, v), j) == mem_get(m, j),
{
}

/// Law of relative addressing: a relative-mode parameter resolves to
/// the relative base plus the parameter's raw value whenever that sum is
/// a valid (non-negative) address. Together with the contract of
/// `AdjustRelativeBase` — the new base is the old base plus its operand
/// — this pins where relative parameters point after a base adjustment.
pub proof fn lemma_relative_mode_adds_base(s: MachineState, k: int)
    requires
        1 <= k <= 3,
        s.rb + mem_get(s.mem, s.ip + k) >= 0,
    ensures
        resolve(s, k, 2) == Ok::<int, Fault>(s.rb + mem_get(s.mem, s.ip + k)),
{
}

/// Law of jump fall-through: `JumpIfFalse` (opcode 6) whose condition
/// operand resolves to an address `c` holding a non-zero value does not
/// jump, and advances the instruction pointer by exactly 3 — one cell
/// for the instruction and one for each of its two parameters — leaving
/// everything else unchanged.
pub proof fn lemma_jump_if_false_not_taken(s: MachineState, io: ChannelState, c: int)
    requires
        mem_get(s.mem, s.ip) >= 0,
        opcode_of(mem_get(s.mem, s.ip)) == 6,
        resolve(s, 1, modes_of(mem_get(s.mem, s.ip))[0]) == Ok::<int, Fault>(c),
        mem_get(s.mem, c) != 0,
    ensures
        step(s, io) == StepRes::Next(advance(s, 3), io),
{
    reveal(step);
}

/// Law of fault on unknown opcodes: a cell at the instruction pointer
/// that holds no known opcode — a negative value, or a low two-digit
/// part other than 1 through 9 or 99 — stops the run with an
/// `UnrecognizedOpcode` fault carrying that cell's value and address,
/// and is never silently skipped.
pub proof fn lemma_unrecognized_opcode_faults(s: MachineState, io: ChannelState)
    requires
        ({
            let data = mem_get(s.mem, s.ip);
            let op = opcode_of(data);
            data < 0 || !(op == 1 || op == 2 || op == 3 || op == 4 || op == 5 || op == 6 || op == 7
                || op == 8 || op == 9 || op == 99)
        }),
    ensures
        step(s, io) == StepRes::Done(
            RunResult::Faulted(
                Fault::UnrecognizedOpcode(mem_get(s.mem, s.ip), s.ip as u64),
            ),
            s,
            io,
        ),
{
    reveal(step);
}

/// A stopped run is absorbing: running more steps from the same start
/// changes nothing once the run has stopped.
pub proof fn lemma_run_n_absorb(s0: MachineState, io0: ChannelState, n: nat, m: nat)
    requires
        n <= m,
        run_n(s0, io0, n).0 != RunResult::Running,
    ensures
        run_n(s0, io0, m) == run_n(s0, io0, n),
    decreases n,
{
    if n == 0 {
    } else {
        match step(s0, io0) {
            StepRes::Next(s1, io1) => {
                lemma_run_n_absorb(s1, io1, (n - 1) as nat, (m - 1) as nat);
            },
            StepRes::Done(r, s1, io1) => {
            },
        }
    }
}

} // verus!

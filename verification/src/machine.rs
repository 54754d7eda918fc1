//! The executable Intcode machine: memory, instruction pointer and
//! relative-base register, the opcode handlers, and the run loop. Every
//! contract here is stated over the ghost model in [`crate::semantics`].
use vstd::prelude::*;

use crate::semantics::ChannelState;
use crate::semantics::Control;
use crate::semantics::Fault;
use crate::semantics::IP_LIMIT;
use crate::semantics::MEM_LIMIT;
use crate::semantics::MachineState;
use crate::semantics::RunResult;
use crate::semantics::StepRes;
use crate::semantics::advance;
use crate::semantics::lemma_run_n_extend;
use crate::semantics::mem_get;
use crate::semantics::mem_put;
use crate::semantics::modes_of;
use crate::semantics::resolve;
use crate::semantics::run_n;
use crate::semantics::spec_adjust_rb;
use crate::semantics::spec_binop;
use crate::semantics::spec_input;
use crate::semantics::spec_jump;
use crate::semantics::spec_output;
use crate::semantics::step;

verus! {

/// The machine: an auto-growing array of signed 64-bit cells that is both
/// code and data, an instruction pointer, and a relative-base register.
/// Addresses are handled as `u64`, so the full non-negative `i64` range
/// is addressable regardless of the platform's pointer width.
#[derive(Debug, Clone)]
pub struct Machine {
    pub memory: Vec<i64>,
    pub instruction_ptr: u64,
    pub rel_base_ptr: i64,
}

impl View for Machine {
    type V = MachineState;

    open spec fn view(&self) -> MachineState {
        MachineState {
            mem: self.memory@,
            ip: self.instruction_ptr as int,
            rb: self.rel_base_ptr,
        }
    }
}

impl Machine {
    /// Machine-size bounds every method preserves: the materialized
    /// memory never exceeds the addressable range, and the instruction
    /// pointer never strays past one instruction's width beyond it.
    pub open spec fn wf(self) -> bool {
        &&& self.memory.len() <= MEM_LIMIT
        &&& self.instruction_ptr <= IP_LIMIT
    }

    /// Construct a machine holding `program`, with the instruction
    /// pointer and the relative base both zero.
    pub fn new(program: Vec<i64>) -> (m: Machine)
        requires
            program.len() <= MEM_LIMIT,
        ensures
            m.wf(),
            m@.mem == program@,
            m@.ip == 0,
            m@.rb == 0,
    {
        Machine { memory: program, instruction_ptr: 0, rel_base_ptr: 0 }
    }

    /// Read one memory cell; addresses beyond the materialized length
    /// read as zero.
    pub fn read_mem(&self, addr: u64) -> (v: i64)
        ensures
            v == mem_get(self@.mem, addr as int),
    {
        if addr < self.memory.len() as u64 {
            self.memory[addr as usize]
        } else {
            0
        }
    }

    /// Write one memory cell, zero-extending the materialized memory up
    /// to and including `ptr` first if needed. Prior cells are preserved;
    /// only an address beyond the addressable range is refused.
    pub fn update_mem(&mut self, ptr: u64, value: i64) -> (r: Result<(), Fault>)
        requires
            old(self).wf(),
        ensures
            final(self).wf(),
            final(self).instruction_ptr == old(self).instruction_ptr,
            final(self).rel_base_ptr == old(self).rel_base_ptr,
            match r {
                Ok(u) => ptr < MEM_LIMIT && final(self)@.mem == mem_put(
                    old(self)@.mem,
                    ptr as int,
                    value,
                ),
                Err(f) => ptr >= MEM_LIMIT && f == Fault::OutOfMemory && *final(self) == *old(
                    self,
                ),
            },
    {
        if ptr >= MEM_LIMIT {
            return Err(Fault::OutOfMemory);
        }
        let ghost m0 = self.memory@;
        let ghost ip0 = self.instruction_ptr;
        let ghost rb0 = self.rel_base_ptr;
        if ptr >= self.memory.len() as u64 {
            while (self.memory.len() as u64) <= ptr
                invariant
                    m0.len() <= self.memory.len() <= ptr + 1,
                    ptr < MEM_LIMIT,
                    self.memory@ == m0 + Seq::new((self.memory.len() - m0.len()) as nat, |i: int| 0i64),
                    self.instruction_ptr == ip0,
                    self.rel_base_ptr == rb0,
                decreases ptr + 1 - self.memory.len(),
            {
                proof {
                    let n = (self.memory.len() - m0.len()) as nat;
                    assert((m0 + Seq::new(n, |i: int| 0i64)).push(0i64) =~= m0 + Seq::new(
                        (n + 1) as nat,
                        |i: int| 0i64,
                    ));
                }
                self.memory.push(0);
            }
            self.memory[ptr as usize] = value;
            proof {
                assert(self.memory@ =~= mem_put(m0, ptr as int, value));
            }
        } else {
            self.memory[ptr as usize] = value;
        }
        Ok(())
    }

    /// Split an instruction cell's value into the three parameter mode
    /// digits, least-significant (first parameter) first.
    pub fn parameter_modes(&self, data: i64) -> (r: Vec<i64>)
        requires
            data >= 0,
        ensures
            r@ == modes_of(data),
    {
        let d: u64 = data as u64;
        let m1: i64 = ((d / 100) % 10) as i64;
        let m2: i64 = ((d / 1000) % 10) as i64;
        let m3: i64 = ((d / 10000) % 10) as i64;
        let r: Vec<i64> = vec![m1, m2, m3];
        proof {
            assert(r@ =~= modes_of(data));
        }
        r
    }

    /// Resolve the `arg_num`-th parameter (1-based) of the instruction at
    /// the instruction pointer to the absolute address it designates,
    /// under its decoded mode digit: the raw value itself (position), the
    /// parameter cell's own address (immediate), or the raw value offset
    /// by the relative base (relative). A negative address or an unknown
    /// mode digit is a fault.
    pub fn ptr_to_value(&self, arg_num: usize, param_modes: &Vec<i64>) -> (r: Result<u64, Fault>)
        requires
            self.wf(),
            1 <= arg_num <= 3,
            param_modes.len() == 3,
        ensures
            ({
                let rr = resolve(self@, arg_num as int, param_modes[arg_num - 1]);
                match r {
                    Ok(p) => rr == Ok::<int, Fault>(p as int),
                    Err(f) => rr == Err::<int, Fault>(f),
                }
            }),
    {
        let raw: i64 = self.read_mem(self.instruction_ptr + arg_num as u64);
        let mode: i64 = param_modes[arg_num - 1];
        if mode == 0 {
            if raw < 0 {
                Err(Fault::NegativeAddress)
            } else {
                Ok(raw as u64)
            }
        } else if mode == 1 {
            Ok(self.instruction_ptr + arg_num as u64)
        } else if mode == 2 {
            let target: i128 = self.rel_base_ptr as i128 + raw as i128;
            if target < 0 {
                Err(Fault::NegativeAddress)
            } else {
                Ok(target as u64)
            }
        } else {
            Err(Fault::UnrecognizedParameterMode(self.instruction_ptr))
        }
    }

    /// Adds the first two operands (wrapping at 64 bits) and stores the
    /// result at the third operand's address; consumes 3 parameter
    /// cells.
    pub fn add(&mut self, param_modes: Vec<i64>) -> (r: Result<Control, Fault>)
        requires
            old(self).wf(),
            param_modes.len() == 3,
        ensures
            final(self).wf(),
            match r {
                Ok(c) => c == Control::Advance(3) && spec_binop(old(self)@, param_modes@, 1)
                    == Ok::<MachineState, Fault>(final(self)@),
                Err(f) => spec_binop(old(self)@, param_modes@, 1) == Err::<MachineState, Fault>(f)
                    && *final(self) == *old(self),
            },
    {
        let pa = match self.ptr_to_value(1, &param_modes) {
            Ok(p) => p,
            Err(f) => return Err(f),
        };
        let va = self.read_mem(pa);
        let pb = match self.ptr_to_value(2, &param_modes) {
            Ok(p) => p,
            Err(f) => return Err(f),
        };
        let vb = self.read_mem(pb);
        let pd = match self.ptr_to_value(3, &param_modes) {
            Ok(p) => p,
            Err(f) => return Err(f),
        };
        match self.update_mem(pd, va.wrapping_add(vb)) {
            Ok(u) => Ok(Control::Advance(3)),
            Err(f) => Err(f),
        }
    }

    /// Like `add`, but multiplies.
    pub fn multiply(&mut self, param_modes: Vec<i64>) -> (r: Result<Control, Fault>)
        requires
            old(self).wf(),
            param_modes.len() == 3,
        ensures
            final(self).wf(),
            match r {
                Ok(c) => c == Control::Advance(3) && spec_binop(old(self)@, param_modes@, 2)
                    == Ok::<MachineState, Fault>(final(self)@),
                Err(f) => spec_binop(old(self)@, param_modes@, 2) == Err::<MachineState, Fault>(f)
                    && *final(self) == *old(self),
            },
    {
        let pa = match self.ptr_to_value(1, &param_modes) {
            Ok(p) => p,
            Err(f) => return Err(f),
        };
        let va = self.read_mem(pa);
        let pb = match self.ptr_to_value(2, &param_modes) {
            Ok(p) => p,
            Err(f) => return Err(f),
        };
        let vb = self.read_mem(pb);
        let pd = match self.ptr_to_value(3, &param_modes) {
            Ok(p) => p,
            Err(f) => return Err(f),
        };
        match self.update_mem(pd, va.wrapping_mul(vb)) {
            Ok(u) => Ok(Control::Advance(3)),
            Err(f) => Err(f),
        }
    }

    /// Stores 1 at the third operand's address when the first operand is
    /// less than the second, otherwise 0; consumes 3 parameter cells.
    pub fn lt_comparison(&mut self, param_modes: Vec<i64>) -> (r: Result<Control, Fault>)
        requires
            old(self).wf(),
            param_modes.len() == 3,
        ensures
            final(self).wf(),
            match r {
                Ok(c) => c == Control::Advance(3) && spec_binop(old(self)@, param_modes@, 7)
                    == Ok::<MachineState, Fault>(final(self)@),
                Err(f) => spec_binop(old(self)@, param_modes@, 7) == Err::<MachineState, Fault>(f)
                    && *final(self) == *old(self),
            },
    {
        let pa = match self.ptr_to_value(1, &param_modes) {
            Ok(p) => p,
            Err(f) => return Err(f),
        };
        let pb = match self.ptr_to_value(2, &param_modes) {
            Ok(p) => p,
            Err(f) => return Err(f),
        };
        let pd = match self.ptr_to_value(3, &param_modes) {
            Ok(p) => p,
            Err(f) => return Err(f),
        };
        let flag: i64 = if self.read_mem(pa) < self.read_mem(pb) {
            1
        } else {
            0
        };
        match self.update_mem(pd, flag) {
            Ok(u) => Ok(Control::Advance(3)),
            Err(f) => Err(f),
        }
    }

    /// Like `lt_comparison`, but tests equality instead.
    pub fn eq_comparison(&mut self, param_modes: Vec<i64>) -> (r: Result<Control, Fault>)
        requires
            old(self).wf(),
            param_modes.len() == 3,
        ensures
            final(self).wf(),
            match r {
                Ok(c) => c == Control::Advance(3) && spec_binop(old(self)@, param_modes@, 8)
                    == Ok::<MachineState, Fault>(final(self)@),
                Err(f) => spec_binop(old(self)@, param_modes@, 8) == Err::<MachineState, Fault>(f)
                    && *final(self) == *old(self),
            },
    {
        let pa = match self.ptr_to_value(1, &param_modes) {
            Ok(p) => p,
            Err(f) => return Err(f),
        };
        let pb = match self.ptr_to_value(2, &param_modes) {
            Ok(p) => p,
            Err(f) => return Err(f),
        };
        let pd = match self.ptr_to_value(3, &param_modes) {
            Ok(p) => p,
            Err(f) => return Err(f),
        };
        let flag: i64 = if self.read_mem(pa) == self.read_mem(pb) {
            1
        } else {
            0
        };
        match self.update_mem(pd, flag) {
            Ok(u) => Ok(Control::Advance(3)),
            Err(f) => Err(f),
        }
    }

    /// When the first operand is non-zero, reports a jump to the second
    /// operand's value; otherwise consumes both parameter cells. The
    /// second operand is only resolved when the jump is taken.
    pub fn set_ip_if_arg_not_zero(&mut self, param_modes: Vec<i64>) -> (r: Result<Control, Fault>)
        requires
            old(self).wf(),
            param_modes.len() == 3,
        ensures
            final(self).wf(),
            *final(self) == *old(self),
            match r {
                Ok(c) => match c {
                    Control::Advance(n) => n == 2 && spec_jump(old(self)@, param_modes@, true)
                        == Ok::<MachineState, Fault>(advance(old(self)@, 3)),
                    Control::JumpTo(t) => spec_jump(old(self)@, param_modes@, true)
                        == Ok::<MachineState, Fault>((MachineState { ip: t as int, ..old(self)@ })),
                    Control::AwaitInput => false,
                },
                Err(f) => spec_jump(old(self)@, param_modes@, true) == Err::<MachineState, Fault>(
                    f,
                ),
            },
    {
        let pc = match self.ptr_to_value(1, &param_modes) {
            Ok(p) => p,
            Err(f) => return Err(f),
        };
        if self.read_mem(pc) != 0 {
            let pt = match self.ptr_to_value(2, &param_modes) {
                Ok(p) => p,
                Err(f) => return Err(f),
            };
            let v = self.read_mem(pt);
            if v < 0 {
                return Err(Fault::NegativeAddress);
            }
            Ok(Control::JumpTo(v as u64))
        } else {
            Ok(Control::Advance(2))
        }
    }

    /// Like `set_ip_if_arg_not_zero`, but jumps when the first operand
    /// is zero.
    pub fn jump_arg_zero(&mut self, param_modes: Vec<i64>) -> (r: Result<Control, Fault>)
        requires
            old(self).wf(),
            param_modes.len() == 3,
        ensures
            final(self).wf(),
            *final(self) == *old(self),
            match r {
                Ok(c) => match c {
                    Control::Advance(n) => n == 2 && spec_jump(old(self)@, param_modes@, false)
                        == Ok::<MachineState, Fault>(advance(old(self)@, 3)),
                    Control::JumpTo(t) => spec_jump(old(self)@, param_modes@, false)
                        == Ok::<MachineState, Fault>((MachineState { ip: t as int, ..old(self)@ })),
                    Control::AwaitInput => false,
                },
                Err(f) => spec_jump(old(self)@, param_modes@, false) == Err::<MachineState, Fault>(
                    f,
                ),
            },
    {
        let pc = match self.ptr_to_value(1, &param_modes) {
            Ok(p) => p,
            Err(f) => return Err(f),
        };
        if self.read_mem(pc) == 0 {
            let pt = match self.ptr_to_value(2, &param_modes) {
                Ok(p) => p,
                Err(f) => return Err(f),
            };
            let v = self.read_mem(pt);
            if v < 0 {
                return Err(Fault::NegativeAddress);
            }
            Ok(Control::JumpTo(v as u64))
        } else {
            Ok(Control::Advance(2))
        }
    }

    /// Adds the first operand's value (wrapping at 64 bits) to the
    /// relative-base register; consumes 1 parameter cell.
    pub fn add_to_rbr(&mut self, param_modes: Vec<i64>) -> (r: Result<Control, Fault>)
        requires
            old(self).wf(),
            param_modes.len() == 3,
        ensures
            final(self).wf(),
            match r {
                Ok(c) => c == Control::Advance(1) && spec_adjust_rb(old(self)@, param_modes@)
                    == Ok::<MachineState, Fault>(final(self)@),
                Err(f) => spec_adjust_rb(old(self)@, param_modes@) == Err::<MachineState, Fault>(f)
                    && *final(self) == *old(self),
            },
    {
        let p = match self.ptr_to_value(1, &param_modes) {
            Ok(p) => p,
            Err(f) => return Err(f),
        };
        let v = self.read_mem(p);
        self.rel_base_ptr = self.rel_base_ptr.wrapping_add(v);
        Ok(Control::Advance(1))
    }
}

/// The machine's two channels: a queue of integers not yet consumed by
/// `Input`, and the integers emitted by `Output` so far, in program
/// order.
pub struct IoPorts {
    pub inputs: Vec<i64>,
    pub consumed: usize,
    pub outputs: Vec<i64>,
}

impl View for IoPorts {
    type V = ChannelState;

    open spec fn view(&self) -> ChannelState {
        ChannelState { pending: self.inputs@.skip(self.consumed as int), sent: self.outputs@ }
    }
}

impl IoPorts {
    /// The consumed prefix of the input queue never exceeds the queue.
    pub open spec fn wf(self) -> bool {
        self.consumed <= self.inputs.len()
    }

    /// Channels holding the given input queue and no output yet.
    pub fn new(inputs: Vec<i64>) -> (io: IoPorts)
        ensures
            io.wf(),
            io@.pending == inputs@,
            io@.sent == Seq::<i64>::empty(),
    {
        let io = IoPorts { inputs, consumed: 0, outputs: Vec::new() };
        proof {
            assert(io.inputs@.skip(0) =~= io.inputs@);
        }
        io
    }

    /// Append one integer to the back of the pending input queue.
    pub fn push_input(&mut self, v: i64)
        requires
            old(self).wf(),
        ensures
            final(self).wf(),
            final(self)@.pending == old(self)@.pending.push(v),
            final(self)@.sent == old(self)@.sent,
    {
        self.inputs.push(v);
        proof {
            assert(self.inputs@.skip(self.consumed as int) =~= old(self).inputs@.skip(
                old(self).consumed as int,
            ).push(v));
        }
    }
}

impl Machine {
    /// Blocks on the input queue: with a value available, stores it at
    /// the first operand's address and consumes 1 parameter cell; with
    /// the queue empty, reports that the machine awaits input, changing
    /// nothing.
    pub fn input(&mut self, param_modes: Vec<i64>, io: &mut IoPorts) -> (r: Result<Control, Fault>)
        requires
            old(self).wf(),
            old(io).wf(),
            param_modes.len() == 3,
        ensures
            final(self).wf(),
            final(io).wf(),
            final(io)@.sent == old(io)@.sent,
            match r {
                Ok(c) => match c {
                    Control::AwaitInput => old(io)@.pending.len() == 0 && *final(self) == *old(self)
                        && *final(io) == *old(io),
                    Control::Advance(n) => n == 1 && old(io)@.pending.len() > 0 && final(io)@.pending
                        == old(io)@.pending.drop_first() && spec_input(
                        old(self)@,
                        param_modes@,
                        old(io)@.pending[0],
                    ) == Ok::<MachineState, Fault>(final(self)@),
                    Control::JumpTo(t) => false,
                },
                Err(f) => old(io)@.pending.len() > 0 && final(io)@.pending == old(
                    io,
                )@.pending.drop_first() && spec_input(
                    old(self)@,
                    param_modes@,
                    old(io)@.pending[0],
                ) == Err::<MachineState, Fault>(f) && *final(self) == *old(self),
            },
    {
        if io.consumed >= io.inputs.len() {
            return Ok(Control::AwaitInput);
        }
        let v = io.inputs[io.consumed];
        io.consumed = io.consumed + 1;
        proof {
            assert(io.inputs@.skip(io.consumed as int) =~= old(io).inputs@.skip(
                old(io).consumed as int,
            ).drop_first());
            assert(old(io)@.pending[0] == v);
        }
        let pd = match self.ptr_to_value(1, &param_modes) {
            Ok(p) => p,
            Err(f) => return Err(f),
        };
        match self.update_mem(pd, v) {
            Ok(u) => Ok(Control::Advance(1)),
            Err(f) => Err(f),
        }
    }

    /// Emits the first operand's value on the output channel; consumes 1
    /// parameter cell.
    pub fn output(&mut self, param_modes: Vec<i64>, io: &mut IoPorts) -> (r: Result<Control, Fault>)
        requires
            old(self).wf(),
            old(io).wf(),
            param_modes.len() == 3,
        ensures
            final(self).wf(),
            final(io).wf(),
            *final(self) == *old(self),
            final(io)@.pending == old(io)@.pending,
            match r {
                Ok(c) => c == Control::Advance(1) && (match spec_output(old(self)@, param_modes@) {
                    Ok(v) => final(io)@.sent == old(io)@.sent.push(v),
                    Err(f) => false,
                }),
                Err(f) => spec_output(old(self)@, param_modes@) == Err::<i64, Fault>(f)
                    && *final(io) == *old(io),
            },
    {
        let p = match self.ptr_to_value(1, &param_modes) {
            Ok(p) => p,
            Err(f) => return Err(f),
        };
        let v = self.read_mem(p);
        io.outputs.push(v);
        Ok(Control::Advance(1))
    }

    /// Decode and execute the single instruction at the instruction
    /// pointer, exactly as the transition function
    /// [`step`](crate::semantics::step) describes: `None` means the
    /// instruction retired and execution can continue; `Some` reports
    /// why it stopped.
    pub fn step_once(&mut self, io: &mut IoPorts) -> (r: Option<RunResult>)
        requires
            old(self).wf(),
            old(io).wf(),
        ensures
            final(self).wf(),
            final(io).wf(),
            match r {
                None => step(old(self)@, old(io)@) == StepRes::Next(final(self)@, final(io)@),
                Some(res) => step(old(self)@, old(io)@) == StepRes::Done(
                    res,
                    final(self)@,
                    final(io)@,
                ),
            },
    {
        proof {
            reveal(crate::semantics::step);
        }
        let data = self.read_mem(self.instruction_ptr);
        if data < 0 {
            return Some(RunResult::Faulted(Fault::UnrecognizedOpcode(data, self.instruction_ptr)));
        }
        let op: u64 = (data as u64) % 100;
        if op == 99 {
            return Some(RunResult::Halted);
        }
        let modes = self.parameter_modes(data);
        let ctrl: Result<Control, Fault> = if op == 1 {
            self.add(modes)
        } else if op == 2 {
            self.multiply(modes)
        } else if op == 3 {
            self.input(modes, io)
        } else if op == 4 {
            self.output(modes, io)
        } else if op == 5 {
            self.set_ip_if_arg_not_zero(modes)
        } else if op == 6 {
            self.jump_arg_zero(modes)
        } else if op == 7 {
            self.lt_comparison(modes)
        } else if op == 8 {
            self.eq_comparison(modes)
        } else if op == 9 {
            self.add_to_rbr(modes)
        } else {
            return Some(RunResult::Faulted(Fault::UnrecognizedOpcode(data, self.instruction_ptr)));
        };
        match ctrl {
            Err(f) => Some(RunResult::Faulted(f)),
            Ok(c) => match c {
                Control::AwaitInput => Some(RunResult::AwaitingInput),
                Control::Advance(n) => {
                    proof {
                        // The dispatched cell held a recognized (so
                        // non-zero) opcode, hence it lay inside the
                        // materialized memory.
                        assert(old(self)@.ip < old(self)@.mem.len());
                    }
                    self.instruction_ptr = self.instruction_ptr + n + 1;
                    None
                },
                Control::JumpTo(t) => {
                    self.instruction_ptr = t;
                    None
                },
            },
        }
    }

    /// Run up to `fuel` instructions: the reported result and the final
    /// machine and channel states are exactly those that `fuel` small
    /// steps of the transition function reach from the starting
    /// configuration — stopping early, unchanged thereafter, when the
    /// program halts, faults, or needs input that the pending queue
    /// cannot serve. `Running` means the instruction budget ran out
    /// first; calling again continues the program where it stopped.
    #[verifier::rlimit(50)]
    pub fn execute(&mut self, io: &mut IoPorts, fuel: u64) -> (r: RunResult)
        requires
            old(self).wf(),
            old(io).wf(),
        ensures
            final(self).wf(),
            final(io).wf(),
            run_n(old(self)@, old(io)@, fuel as nat) == (r, final(self)@, final(io)@),
    {
        let ghost s0 = self@;
        let ghost c0 = io@;
        let mut k: u64 = 0;
        while k < fuel
            invariant
                self.wf(),
                io.wf(),
                k <= fuel,
                s0 == old(self)@,
                c0 == old(io)@,
                run_n(s0, c0, k as nat) == (RunResult::Running, self@, io@),
            decreases fuel - k,
        {
            let ghost s_pre = self@;
            let ghost c_pre = io@;
            let r = self.step_once(io);
            proof {
                lemma_run_n_extend(s0, c0, s_pre, c_pre, k as nat);
            }
            k = k + 1;
            match r {
                Some(res) => {
                    proof {
                        crate::semantics::lemma_step_never_running(s_pre, c_pre);
                        crate::semantics::lemma_run_n_absorb(s0, c0, k as nat, fuel as nat);
                    }
                    return res;
                },
                None => {
                },
            }
        }
        RunResult::Running
    }
}

} // verus!

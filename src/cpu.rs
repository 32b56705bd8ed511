use vstd::prelude::*;

use crate::opcodes::{decode_op, OpCode};
use crate::ram::{initial_memory, with_program, EmulatedRam, MAX_ADDRESS, MEMORY_SIZE, PROGRAM_START_ADDRESS};
use crate::screen::{blank_screen, draw_sprite, EmulatedScreen};

verus! {

/// Index of the flag register VF.
pub const FLAG_REGISTER: usize = 15;

/// Deepest call nesting that the depth counter can record.
pub const MAX_STACK_DEPTH: u8 = 255;

/// Why an instruction could not be carried out.
#[derive(Debug, PartialEq, Eq, Structural, Clone, Copy)]
pub enum Fault {
    /// A memory access outside `0..=0xFFF`.
    AddressOutOfRange,
    /// A return with an empty call stack.
    StackUnderflow,
    /// A call with the depth counter at its maximum.
    StackOverflow,
}

/// The delay timer; nothing in this core decrements it.
pub struct DelayTimer {
    pub val: u8,
}

impl DelayTimer {
    /// A timer at zero.
    pub fn new() -> (r: DelayTimer)
        ensures
            r.val == 0,
    {
        DelayTimer { val: 0 }
    }
}

/// The machine as a mathematical value.
#[verifier::ext_equal]
pub struct MachineState {
    pub pc: u16,
    pub i_reg: u16,
    /// Saved return addresses, the most recent last.
    pub stack: Seq<u16>,
    /// The 16 registers V0 ..= VF.
    pub v: Seq<u8>,
    /// The 4096 bytes of memory.
    pub mem: Seq<u8>,
    /// 32 rows of 64 pixels.
    pub screen: Seq<Seq<bool>>,
    pub delay: u8,
}

/// `n` reduced modulo 2^8.
pub open spec fn wrap8(n: int) -> u8 {
    (n % 0x100) as u8
}

/// `n` reduced modulo 2^16.
pub open spec fn wrap16(n: int) -> u16 {
    (n % 0x10000) as u16
}

/// Register `x` of `s`.
pub open spec fn reg(s: MachineState, x: u8) -> u8 {
    s.v[x as int]
}

/// `count` consecutive addresses from `start` on all lie in memory.
pub open spec fn block_in_memory(start: u16, count: int) -> bool {
    count == 0 || start + count - 1 <= MAX_ADDRESS
}

/// The `n` bytes of `mem` from `start` on.
pub open spec fn bytes_at(mem: Seq<u8>, start: u16, n: int) -> Seq<u8> {
    Seq::new(n as nat, |k: int| mem[start + k])
}

/// The big-endian instruction word at `pc`: `(mem[pc] << 8) | mem[pc + 1]`.
pub open spec fn fetch_word(mem: Seq<u8>, pc: u16) -> u16 {
    ((mem[pc as int] as u16) << 8u16) | (mem[pc + 1] as u16)
}

/// `s` with register `x` set to `val`.
pub open spec fn set_reg(s: MachineState, x: u8, val: u8) -> MachineState {
    MachineState { v: s.v.update(x as int, val), ..s }
}

/// `s` with register `x` set to `val`, then the flag register to `flag`.
pub open spec fn set_reg_flag(s: MachineState, x: u8, val: u8, flag: u8) -> MachineState {
    MachineState { v: s.v.update(x as int, val).update(FLAG_REGISTER as int, flag), ..s }
}

/// `s` with the next instruction skipped when `cond` holds.
pub open spec fn skip_if(s: MachineState, cond: bool) -> MachineState {
    if cond {
        MachineState { pc: wrap16(s.pc + 2), ..s }
    } else {
        s
    }
}

/// The effect of `op` on `s`, with `rnd` as the random byte that `RAND`
/// draws: the new state, or the fault that stops the instruction.
pub open spec fn step_op(s: MachineState, op: OpCode, rnd: u8) -> Result<MachineState, Fault> {
    match op {
        OpCode::CLR => Ok(MachineState { screen: blank_screen(), ..s }),
        OpCode::JMP(a) => Ok(MachineState { pc: a, ..s }),
        OpCode::RET => if s.stack.len() == 0 {
            Err(Fault::StackUnderflow)
        } else {
            Ok(MachineState { pc: s.stack.last(), stack: s.stack.drop_last(), ..s })
        },
        OpCode::CALL(a) => if s.stack.len() >= MAX_STACK_DEPTH {
            Err(Fault::StackOverflow)
        } else {
            Ok(MachineState { pc: a, stack: s.stack.push(s.pc), ..s })
        },
        OpCode::SkipEqualNN(x, kk) => Ok(skip_if(s, reg(s, x) == kk)),
        OpCode::SkipNotEqualNN(x, kk) => Ok(skip_if(s, reg(s, x) != kk)),
        OpCode::SkipEqualXY(x, y) => Ok(skip_if(s, reg(s, x) == reg(s, y))),
        OpCode::SET(x, kk) => Ok(set_reg(s, x, kk)),
        OpCode::ADD(x, kk) => Ok(set_reg(s, x, wrap8(reg(s, x) + kk))),
        OpCode::LDXY(x, y) => Ok(set_reg(s, x, reg(s, y))),
        OpCode::BOR(x, y) => Ok(set_reg(s, x, reg(s, x) | reg(s, y))),
        OpCode::BAND(x, y) => Ok(set_reg(s, x, reg(s, x) & reg(s, y))),
        OpCode::BXOR(x, y) => Ok(set_reg(s, x, reg(s, x) ^ reg(s, y))),
        OpCode::AddXY(x, y) => Ok(
            set_reg_flag(
                s,
                x,
                wrap8(reg(s, x) + reg(s, y)),
                if reg(s, x) + reg(s, y) > 255 {
                    1
                } else {
                    0
                },
            ),
        ),
        OpCode::SubXY(x, y) => Ok(
            set_reg_flag(
                s,
                x,
                wrap8(reg(s, x) - reg(s, y)),
                if reg(s, x) >= reg(s, y) {
                    1
                } else {
                    0
                },
            ),
        ),
        OpCode::SHR(x, y) => Ok(set_reg_flag(s, x, reg(s, y) >> 1u8, reg(s, y) & 1u8)),
        OpCode::SUBN(x, y) => Ok(
            set_reg_flag(
                s,
                x,
                wrap8(reg(s, y) - reg(s, x)),
                if reg(s, y) >= reg(s, x) {
                    1
                } else {
                    0
                },
            ),
        ),
        OpCode::SHL(x, y) => Ok(set_reg_flag(s, x, reg(s, y) << 1u8, (reg(s, y) >> 7u8) & 1u8)),
        OpCode::SkipNotEqualXY(x, y) => Ok(skip_if(s, reg(s, x) != reg(s, y))),
        OpCode::SetAddrReg(a) => Ok(MachineState { i_reg: a, ..s }),
        OpCode::JumpPlusV0(a) => Ok(MachineState { pc: wrap16(a + reg(s, 0)), ..s }),
        OpCode::RAND(x, kk) => Ok(set_reg(s, x, rnd & kk)),
        OpCode::DXYN(x, y, n) => if !block_in_memory(s.i_reg, n as int) {
            Err(Fault::AddressOutOfRange)
        } else {
            let drawn = draw_sprite(s.screen, reg(s, x), reg(s, y), bytes_at(s.mem, s.i_reg, n as int));
            Ok(
                MachineState {
                    screen: drawn.0,
                    v: s.v.update(
                        FLAG_REGISTER as int,
                        if drawn.1 {
                            1u8
                        } else {
                            0u8
                        },
                    ),
                    ..s
                },
            )
        },
        OpCode::AddVxToI(x) => Ok(MachineState { i_reg: wrap16(s.i_reg + reg(s, x)), ..s }),
        OpCode::SaveBCD(x) => if !block_in_memory(s.i_reg, 3) {
            Err(Fault::AddressOutOfRange)
        } else {
            let val = reg(s, x);
            Ok(
                MachineState {
                    mem: s.mem.update(s.i_reg as int, val / 100).update(
                        s.i_reg + 1,
                        (val / 10) % 10,
                    ).update(s.i_reg + 2, val % 10),
                    ..s
                },
            )
        },
        OpCode::StoreV0ToVx(x) => if !block_in_memory(s.i_reg, x + 1) {
            Err(Fault::AddressOutOfRange)
        } else {
            Ok(
                MachineState {
                    mem: Seq::new(
                        s.mem.len(),
                        |a: int|
                            if s.i_reg <= a <= s.i_reg + x {
                                s.v[a - s.i_reg]
                            } else {
                                s.mem[a]
                            },
                    ),
                    ..s
                },
            )
        },
        OpCode::ReadV0ToVx(x) => if !block_in_memory(s.i_reg, x + 1) {
            Err(Fault::AddressOutOfRange)
        } else {
            Ok(
                MachineState {
                    v: Seq::new(
                        s.v.len(),
                        |r: int|
                            if r <= x {
                                s.mem[s.i_reg + r]
                            } else {
                                s.v[r]
                            },
                    ),
                    ..s
                },
            )
        },
        OpCode::UNFINISHED => Ok(s),
    }
}

/// An operation ran as `expected` says: on success the machine is in the
/// expected state; on a fault the fault is reported and nothing changed.
pub open spec fn outcome(
    before: MachineState,
    after: MachineState,
    r: Result<(), Fault>,
    expected: Result<MachineState, Fault>,
) -> bool {
    match expected {
        Ok(s) => r == Ok::<(), Fault>(()) && after == s,
        Err(f) => r == Err::<(), Fault>(f) && after == before,
    }
}

/// One fetch-decode-execute cycle from `s`, with `rnd` as the random byte:
/// the word at the program counter is fetched, the counter advanced by 2, and
/// the decoded operation applied. Fetching past the end of memory is a fault.
pub open spec fn cycle_spec(s: MachineState, rnd: u8) -> Result<MachineState, Fault> {
    if s.pc >= MAX_ADDRESS {
        Err(Fault::AddressOutOfRange)
    } else {
        step_op(
            MachineState { pc: (s.pc + 2) as u16, ..s },
            decode_op(fetch_word(s.mem, s.pc)),
            rnd,
        )
    }
}

/// Running one cycle per byte of `rnds` (each the random byte of its cycle)
/// from `s`, stopping at the first fault: the final state and the result.
pub open spec fn run_spec(s: MachineState, rnds: Seq<u8>) -> (MachineState, Result<(), Fault>)
    decreases rnds.len(),
{
    if rnds.len() == 0 {
        (s, Ok(()))
    } else {
        let prev = run_spec(s, rnds.drop_last());
        if prev.1 is Err {
            prev
        } else {
            match cycle_spec(prev.0, rnds.last()) {
                Ok(next) => (next, Ok(())),
                Err(f) => (prev.0, Err(f)),
            }
        }
    }
}

/// `s` with the program counter set to `pc`.
pub open spec fn with_pc(s: MachineState, pc: u16) -> MachineState {
    MachineState { pc, ..s }
}

/// Number of cycles that `Chip8::run` executes.
pub const RUN_CYCLES: usize = 50;

/// How many bytes from the index register on `op` reads or writes.
pub open spec fn memory_span(op: OpCode) -> int {
    match op {
        OpCode::DXYN(_, _, n) => n as int,
        OpCode::SaveBCD(_) => 3,
        OpCode::StoreV0ToVx(x) => x + 1,
        OpCode::ReadV0ToVx(x) => x + 1,
        _ => 0,
    }
}

/// A call followed by a return restores the machine exactly: the call pushes
/// the program counter and jumps, and the return pops it back.
pub proof fn lemma_call_then_return(s: MachineState, addr: u16, b1: u8, b2: u8)
    requires
        s.stack.len() < MAX_STACK_DEPTH,
    ensures
        step_op(s, OpCode::CALL(addr), b1) is Ok,
        step_op(s, OpCode::CALL(addr), b1)->Ok_0.pc == addr,
        step_op(s, OpCode::CALL(addr), b1)->Ok_0.stack == s.stack.push(s.pc),
        step_op(step_op(s, OpCode::CALL(addr), b1)->Ok_0, OpCode::RET, b2) == Ok::<
            MachineState,
            Fault,
        >(s),
{
    let called = step_op(s, OpCode::CALL(addr), b1)->Ok_0;
    assert(called.stack.drop_last() =~= s.stack);
    assert(step_op(called, OpCode::RET, b2)->Ok_0 =~= s);
}

/// A return with an empty call stack is a fault.
pub proof fn lemma_return_on_empty_stack_faults(s: MachineState, b: u8)
    requires
        s.stack.len() == 0,
    ensures
        step_op(s, OpCode::RET, b) == Err::<MachineState, Fault>(Fault::StackUnderflow),
{
}

/// An operation that would touch memory beyond the last address is a fault,
/// and so is fetching an instruction there.
pub proof fn lemma_out_of_range_access_faults(s: MachineState, op: OpCode, b: u8)
    ensures
        !block_in_memory(s.i_reg, memory_span(op)) ==> step_op(s, op, b) == Err::<
            MachineState,
            Fault,
        >(Fault::AddressOutOfRange),
        s.pc >= MAX_ADDRESS ==> cycle_spec(s, b) == Err::<MachineState, Fault>(
            Fault::AddressOutOfRange,
        ),
{
}

/// Only `RAND` depends on the random byte.
pub proof fn lemma_step_ignores_random(s: MachineState, op: OpCode, b1: u8, b2: u8)
    requires
        !(op is RAND),
    ensures
        step_op(s, op, b1) == step_op(s, op, b2),
{
}

/// The interpreter: registers, call stack, memory and display.
pub struct Chip8 {
    pub pc: u16,
    pub i_reg: u16,
    pub address_stack: Vec<u16>,
    pub stack_pointer: u8,
    pub delay_timer: DelayTimer,
    pub v_registers: [u8; 16],
    pub screen: EmulatedScreen,
    pub ram: EmulatedRam,
}

impl View for Chip8 {
    type V = MachineState;

    open spec fn view(&self) -> MachineState {
        MachineState {
            pc: self.pc,
            i_reg: self.i_reg,
            stack: self.address_stack@,
            v: self.v_registers@,
            mem: self.ram.data@,
            screen: self.screen@,
            delay: self.delay_timer.val,
        }
    }
}

/// Relies on rand::random for a byte drawn from the thread-local generator;
/// nothing is promised of its value. It takes no input; it panics only when the
/// operating system's entropy source cannot seed that generator.
#[verifier::external_body]
fn random_byte() -> (r: u8) {
    rand::random::<u8>()
}

/// Whether `count` bytes from `start` on all lie in memory.
fn block_fits(start: u16, count: u8) -> (r: bool)
    ensures
        r == block_in_memory(start, count as int),
{
    count == 0 || start as u32 + count as u32 - 1 <= MAX_ADDRESS as u32
}

impl Chip8 {
    /// The depth counter agrees with the call stack.
    pub open spec fn wf(&self) -> bool {
        self.stack_pointer as int == self.address_stack@.len()
    }

    /// A machine with cleared registers, stack and display, the glyph table in
    /// memory, and the program counter at 0.
    pub fn new() -> (r: Chip8)
        ensures
            r.wf(),
            r@ == (MachineState {
                pc: 0,
                i_reg: 0,
                stack: Seq::empty(),
                v: Seq::new(16, |k: int| 0u8),
                mem: initial_memory(),
                screen: blank_screen(),
                delay: 0,
            }),
    {
        let r = Chip8 {
            pc: 0,
            i_reg: 0,
            address_stack: Vec::new(),
            stack_pointer: 0,
            delay_timer: DelayTimer::new(),
            v_registers: [0x0; 16],
            screen: EmulatedScreen::new(),
            ram: EmulatedRam::new(),
        };
        assert(r.v_registers@ =~= Seq::new(16, |k: int| 0u8));
        r
    }

    /// A copy of the display grid.
    pub fn get_screen(&self) -> (r: [[bool; 64]; 32])
        ensures
            r == self.screen.pixels,
    {
        self.screen.get_screen()
    }

    /// Copies `program` into memory from address 0x200 on; the program counter
    /// is left as it is.
    pub fn load_program(&mut self, program: Vec<u8>)
        requires
            program@.len() <= MEMORY_SIZE - PROGRAM_START_ADDRESS,
        ensures
            final(self)@ == (MachineState { mem: with_program(old(self)@.mem, program@), ..old(self)@ }),
            final(self).stack_pointer == old(self).stack_pointer,
    {
        self.ram.load_program(program);
    }

    /// Reads the big-endian word at the program counter and advances the
    /// counter by 2.
    pub fn fetch(&mut self) -> (r: u16)
        requires
            old(self).pc < MAX_ADDRESS,
        ensures
            r == fetch_word(old(self)@.mem, old(self).pc),
            r as int == old(self)@.mem[old(self).pc as int] * 256 + old(self)@.mem[old(self).pc + 1],
            final(self)@ == (MachineState { pc: (old(self).pc + 2) as u16, ..old(self)@ }),
            final(self).stack_pointer == old(self).stack_pointer,
    {
        let hi = self.ram.read_byte(self.pc);
        let lo = self.ram.read_byte(self.pc + 1);
        let word: u16 = (hi as u16) << 8 | lo as u16;
        assert(((hi as u16) << 8u16) | (lo as u16) == hi * 256 + lo) by (bit_vector);
        self.pc += 2;
        word
    }

    /// Applies `op_code`, drawing a random byte for `RAND`. On a fault nothing
    /// changes. A return with an empty call stack is admitted and reported as
    /// `Fault::StackUnderflow` rather than excluded by the precondition, so that
    /// a malformed program stops with a descriptive fault instead of a panic.
    pub fn execute(&mut self, op_code: OpCode) -> (r: Result<(), Fault>)
        requires
            old(self).wf(),
            op_code.wf(),
        ensures
            final(self).wf(),
            exists|b: u8|
                outcome(old(self)@, final(self)@, r, #[trigger] step_op(old(self)@, op_code, b)),
    {
        let ghost s = self@;
        let b: u8 = match op_code {
            OpCode::RAND(_, _) => random_byte(),
            _ => 0,
        };
        let r = self.execute_with_random(op_code, b);
        assert(outcome(s, self@, r, step_op(s, op_code, b)));
        r
    }

    /// One fetch-decode-execute cycle. On a fault the machine is left as it
    /// was before the cycle.
    pub fn cycle(&mut self) -> (r: Result<(), Fault>)
        requires
            old(self).wf(),
        ensures
            final(self).wf(),
            exists|b: u8| outcome(old(self)@, final(self)@, r, #[trigger] cycle_spec(old(self)@, b)),
    {
        let ghost s = self@;
        if self.pc >= MAX_ADDRESS {
            assert(outcome(s, self@, Err(Fault::AddressOutOfRange), cycle_spec(s, 0)));
            return Err(Fault::AddressOutOfRange);
        }
        let pc = self.pc;
        let instruction = self.fetch();
        let op_code = self.decode(instruction);
        let ghost fetched = self@;
        let r = self.execute(op_code);
        let ghost b = choose|b: u8| outcome(fetched, self@, r, #[trigger] step_op(fetched, op_code, b));
        if r.is_err() {
            self.pc = pc;
            assert(self@ =~= s);
        }
        assert(outcome(s, self@, r, cycle_spec(s, b)));
        r
    }

    /// Sets the program counter to the program start and runs `RUN_CYCLES`
    /// cycles, stopping at the first fault.
    pub fn run(&mut self) -> (r: Result<(), Fault>)
        requires
            old(self).wf(),
        ensures
            final(self).wf(),
            exists|rnds: Seq<u8>|
                rnds.len() == RUN_CYCLES && #[trigger] run_spec(
                    with_pc(old(self)@, PROGRAM_START_ADDRESS),
                    rnds,
                ) == (final(self)@, r),
    {
        self.pc = PROGRAM_START_ADDRESS;
        let ghost start = self@;
        let ghost mut rnds: Seq<u8> = Seq::empty();
        let mut result: Result<(), Fault> = Ok(());
        let mut i: usize = 0;
        while i < RUN_CYCLES
            invariant
                i <= RUN_CYCLES,
                self.wf(),
                rnds.len() == i,
                run_spec(start, rnds) == (self@, result),
            decreases RUN_CYCLES - i,
        {
            let ghost prev_rnds = rnds;
            if result.is_ok() {
                let ghost before = self@;
                result = self.cycle();
                let ghost b = choose|b: u8|
                    outcome(before, self@, result, #[trigger] cycle_spec(before, b));
                proof {
                    rnds = rnds.push(b);
                }
            } else {
                proof {
                    rnds = rnds.push(0);
                }
            }
            assert(rnds.drop_last() =~= prev_rnds);
            i += 1;
        }
        assert(start =~= with_pc(old(self)@, PROGRAM_START_ADDRESS));
        result
    }

    /// Applies `op_code` with `random_byte` standing for the byte that `RAND`
    /// draws. On a fault nothing changes.
    pub fn execute_with_random(&mut self, op_code: OpCode, random_byte: u8) -> (r: Result<
        (),
        Fault,
    >)
        requires
            old(self).wf(),
            op_code.wf(),
        ensures
            final(self).wf(),
            outcome(old(self)@, final(self)@, r, step_op(old(self)@, op_code, random_byte)),
    {
        match op_code {
            OpCode::DXYN(x, y, n) => self.draw_op(x, y, n),
            OpCode::SaveBCD(x) => self.save_bcd(x),
            OpCode::StoreV0ToVx(x) => self.store_registers(x),
            OpCode::ReadV0ToVx(x) => self.read_registers(x),
            OpCode::SET(_, _) | OpCode::ADD(_, _) | OpCode::LDXY(_, _) | OpCode::BOR(_, _)
            | OpCode::BAND(_, _) | OpCode::BXOR(_, _) | OpCode::RAND(_, _) => {
                self.register_op(op_code, random_byte);
                Ok(())
            },
            OpCode::AddXY(_, _) | OpCode::SubXY(_, _) | OpCode::SHR(_, _) | OpCode::SUBN(_, _)
            | OpCode::SHL(_, _) => {
                self.flag_op(op_code);
                Ok(())
            },
            OpCode::RET | OpCode::CALL(_) => self.stack_op(op_code),
            _ => {
                self.control_op(op_code);
                Ok(())
            },
        }
    }

    /// Subroutine calls and returns.
    fn stack_op(&mut self, op_code: OpCode) -> (r: Result<(), Fault>)
        requires
            old(self).wf(),
            op_code is RET || op_code is CALL,
        ensures
            final(self).wf(),
            outcome(old(self)@, final(self)@, r, step_op(old(self)@, op_code, 0)),
    {
        let ghost s = self@;
        match op_code {
            OpCode::CALL(nnn) => {
                if self.stack_pointer == MAX_STACK_DEPTH {
                    return Err(Fault::StackOverflow);
                }
                self.stack_pointer += 1;
                self.address_stack.push(self.pc);
                self.pc = nnn;
            },
            _ => {
                if self.stack_pointer == 0 {
                    return Err(Fault::StackUnderflow);
                }
                self.stack_pointer -= 1;
                self.pc = self.address_stack.pop().unwrap();
            },
        }
        assert(self@ =~= step_op(s, op_code, 0)->Ok_0);
        Ok(())
    }

    /// Jumps, skips, index updates, clearing, and the no-op.
    fn control_op(&mut self, op_code: OpCode)
        requires
            old(self).wf(),
            op_code.wf(),
            op_code is CLR || op_code is JMP || op_code is SkipEqualNN || op_code is SkipNotEqualNN
                || op_code is SkipEqualXY || op_code is SkipNotEqualXY || op_code is SetAddrReg
                || op_code is JumpPlusV0 || op_code is AddVxToI || op_code is UNFINISHED,
        ensures
            final(self).wf(),
            step_op(old(self)@, op_code, 0) == Ok::<MachineState, Fault>(final(self)@),
    {
        let ghost s = self@;
        match op_code {
            OpCode::CLR => self.screen.clear(),
            OpCode::JMP(addr) => self.pc = addr,
            OpCode::SkipEqualNN(x, kk) => {
                if self.v_registers[x as usize] == kk {
                    self.pc = self.pc.wrapping_add(2);
                }
            },
            OpCode::SkipNotEqualNN(x, kk) => {
                if self.v_registers[x as usize] != kk {
                    self.pc = self.pc.wrapping_add(2);
                }
            },
            OpCode::SkipEqualXY(x, y) => {
                if self.v_registers[x as usize] == self.v_registers[y as usize] {
                    self.pc = self.pc.wrapping_add(2);
                }
            },
            OpCode::SkipNotEqualXY(x, y) => {
                if self.v_registers[x as usize] != self.v_registers[y as usize] {
                    self.pc = self.pc.wrapping_add(2);
                }
            },
            OpCode::SetAddrReg(addr) => self.i_reg = addr,
            OpCode::JumpPlusV0(nnn) => {
                self.pc = nnn.wrapping_add(self.v_registers[0] as u16);
            },
            OpCode::AddVxToI(x) => {
                self.i_reg = self.i_reg.wrapping_add(self.v_registers[x as usize] as u16);
            },
            _ => {},
        }
        assert(self@ =~= step_op(s, op_code, 0)->Ok_0);
    }

    /// Operations that set one register and nothing else.
    fn register_op(&mut self, op_code: OpCode, random_byte: u8)
        requires
            old(self).wf(),
            op_code.wf(),
            op_code is SET || op_code is ADD || op_code is LDXY || op_code is BOR
                || op_code is BAND || op_code is BXOR || op_code is RAND,
        ensures
            final(self).wf(),
            step_op(old(self)@, op_code, random_byte) == Ok::<MachineState, Fault>(final(self)@),
    {
        let ghost s = self@;
        match op_code {
            OpCode::SET(x, kk) => self.v_registers[x as usize] = kk,
            OpCode::ADD(x, kk) => {
                self.v_registers[x as usize] = self.v_registers[x as usize].wrapping_add(kk);
            },
            OpCode::LDXY(x, y) => {
                self.v_registers[x as usize] = self.v_registers[y as usize];
            },
            OpCode::BOR(x, y) => {
                self.v_registers[x as usize] = self.v_registers[x as usize]
                    | self.v_registers[y as usize];
            },
            OpCode::BAND(x, y) => {
                self.v_registers[x as usize] = self.v_registers[x as usize]
                    & self.v_registers[y as usize];
            },
            OpCode::BXOR(x, y) => {
                self.v_registers[x as usize] = self.v_registers[x as usize]
                    ^ self.v_registers[y as usize];
            },
            OpCode::RAND(x, kk) => {
                self.v_registers[x as usize] = random_byte & kk;
            },
            _ => {},
        }
        assert(self@ =~= step_op(s, op_code, random_byte)->Ok_0);
    }

    /// Arithmetic and shifts that also set the flag register.
    fn flag_op(&mut self, op_code: OpCode)
        requires
            old(self).wf(),
            op_code.wf(),
            op_code is AddXY || op_code is SubXY || op_code is SHR || op_code is SUBN
                || op_code is SHL,
        ensures
            final(self).wf(),
            step_op(old(self)@, op_code, 0) == Ok::<MachineState, Fault>(final(self)@),
    {
        let ghost s = self@;
        match op_code {
            OpCode::AddXY(x, y) => {
                let vx = self.v_registers[x as usize];
                let vy = self.v_registers[y as usize];
                let carry: u8 = if vx as u16 + vy as u16 > 255 {
                    1
                } else {
                    0
                };
                self.v_registers[x as usize] = vx.wrapping_add(vy);
                self.v_registers[FLAG_REGISTER] = carry;
            },
            OpCode::SubXY(x, y) => {
                let vx = self.v_registers[x as usize];
                let vy = self.v_registers[y as usize];
                let no_borrow: u8 = if vx >= vy {
                    1
                } else {
                    0
                };
                self.v_registers[x as usize] = vx.wrapping_sub(vy);
                self.v_registers[FLAG_REGISTER] = no_borrow;
            },
            OpCode::SHR(x, y) => {
                let vy = self.v_registers[y as usize];
                self.v_registers[x as usize] = vy >> 1;
                self.v_registers[FLAG_REGISTER] = vy & 1;
            },
            OpCode::SUBN(x, y) => {
                let vx = self.v_registers[x as usize];
                let vy = self.v_registers[y as usize];
                let no_borrow: u8 = if vy >= vx {
                    1
                } else {
                    0
                };
                self.v_registers[x as usize] = vy.wrapping_sub(vx);
                self.v_registers[FLAG_REGISTER] = no_borrow;
            },
            OpCode::SHL(x, y) => {
                let vy = self.v_registers[y as usize];
                self.v_registers[x as usize] = vy << 1;
                self.v_registers[FLAG_REGISTER] = (vy >> 7) & 1;
            },
            _ => {},
        }
        assert(self@ =~= step_op(s, op_code, 0)->Ok_0);
    }

    /// Draws the `n`-row sprite at I at (VX, VY) and sets VF to the collision.
    fn draw_op(&mut self, x: u8, y: u8, n: u8) -> (r: Result<(), Fault>)
        requires
            old(self).wf(),
            OpCode::DXYN(x, y, n).wf(),
        ensures
            final(self).wf(),
            outcome(old(self)@, final(self)@, r, step_op(old(self)@, OpCode::DXYN(x, y, n), 0)),
    {
        let ghost s = self@;
        if !block_fits(self.i_reg, n) {
            return Err(Fault::AddressOutOfRange);
        }
        let v_x = self.v_registers[x as usize];
        let v_y = self.v_registers[y as usize];
        let mut sprite: Vec<u8> = Vec::new();
        let mut row: u8 = 0;
        while row < n
            invariant
                row <= n,
                block_in_memory(self.i_reg, n as int),
                self.ram.data@.len() == MEMORY_SIZE,
                sprite@ == bytes_at(self.ram.data@, self.i_reg, row as int),
            decreases n - row,
        {
            sprite.push(self.ram.read_byte(self.i_reg + row as u16));
            row += 1;
            assert(sprite@ =~= bytes_at(self.ram.data@, self.i_reg, row as int));
        }
        let collision = self.screen.draw(v_x, v_y, sprite.as_slice());
        self.v_registers[FLAG_REGISTER] = if collision {
            1
        } else {
            0
        };
        assert(self@ =~= step_op(s, OpCode::DXYN(x, y, n), 0)->Ok_0);
        Ok(())
    }

    /// Writes the decimal digits of VX to I, I + 1 and I + 2.
    fn save_bcd(&mut self, x: u8) -> (r: Result<(), Fault>)
        requires
            old(self).wf(),
            x < 16,
        ensures
            final(self).wf(),
            outcome(old(self)@, final(self)@, r, step_op(old(self)@, OpCode::SaveBCD(x), 0)),
    {
        let ghost s = self@;
        if !block_fits(self.i_reg, 3) {
            return Err(Fault::AddressOutOfRange);
        }
        let val = self.v_registers[x as usize];
        self.ram.write_byte(self.i_reg, val / 100);
        self.ram.write_byte(self.i_reg + 1, (val / 10) % 10);
        self.ram.write_byte(self.i_reg + 2, val % 10);
        assert(self@ =~= step_op(s, OpCode::SaveBCD(x), 0)->Ok_0);
        Ok(())
    }

    /// Writes V0 ..= VX to memory from I on.
    fn store_registers(&mut self, x: u8) -> (r: Result<(), Fault>)
        requires
            old(self).wf(),
            x < 16,
        ensures
            final(self).wf(),
            outcome(old(self)@, final(self)@, r, step_op(old(self)@, OpCode::StoreV0ToVx(x), 0)),
    {
        let ghost s = self@;
        if !block_fits(self.i_reg, x + 1) {
            return Err(Fault::AddressOutOfRange);
        }
        let mut i: u8 = 0;
        while i <= x
            invariant
                x < 16,
                i <= x + 1,
                block_in_memory(s.i_reg, x + 1),
                self.wf(),
                self@ == (MachineState { mem: self@.mem, ..s }),
                self.ram.data@.len() == MEMORY_SIZE,
                forall|a: int|
                    0 <= a < MEMORY_SIZE ==> #[trigger] self.ram.data@[a] == if s.i_reg <= a
                        < s.i_reg + i {
                        s.v[a - s.i_reg]
                    } else {
                        s.mem[a]
                    },
            decreases x + 1 - i,
        {
            self.ram.write_byte(self.i_reg + i as u16, self.v_registers[i as usize]);
            i += 1;
        }
        assert(self@ =~= step_op(s, OpCode::StoreV0ToVx(x), 0)->Ok_0);
        Ok(())
    }

    /// Loads V0 ..= VX from memory from I on.
    fn read_registers(&mut self, x: u8) -> (r: Result<(), Fault>)
        requires
            old(self).wf(),
            x < 16,
        ensures
            final(self).wf(),
            outcome(old(self)@, final(self)@, r, step_op(old(self)@, OpCode::ReadV0ToVx(x), 0)),
    {
        let ghost s = self@;
        if !block_fits(self.i_reg, x + 1) {
            return Err(Fault::AddressOutOfRange);
        }
        let mut i: u8 = 0;
        while i <= x
            invariant
                x < 16,
                i <= x + 1,
                block_in_memory(s.i_reg, x + 1),
                self.wf(),
                self@ == (MachineState { v: self@.v, ..s }),
                forall|r: int|
                    0 <= r < 16 ==> #[trigger] self.v_registers@[r] == if r < i {
                        s.mem[s.i_reg + r]
                    } else {
                        s.v[r]
                    },
            decreases x + 1 - i,
        {
            self.v_registers[i as usize] = self.ram.read_byte(self.i_reg + i as u16);
            i += 1;
        }
        assert(self@ =~= step_op(s, OpCode::ReadV0ToVx(x), 0)->Ok_0);
        Ok(())
    }

    /// The operation that `instruction` stands for.
    pub fn decode(&self, instruction: u16) -> (r: OpCode)
        ensures
            r == decode_op(instruction),
            r.wf(),
    {
        let upper_byte = ((instruction & 0xFF00) >> 8) as u8;
        let lower_byte = (instruction & 0x00FF) as u8;
        let op = (upper_byte & 0xF0) >> 4;
        let x = upper_byte & 0x0F;
        let y = (lower_byte & 0xF0) >> 4;
        let d = lower_byte & 0x0F;
        let nnn = instruction & 0x0FFF;
        proof {
            let w = instruction;
            assert(((((w & 0xFF00u16) >> 8u16) as u8) & 0xF0u8) >> 4u8 == (w >> 12u16) as u8)
                by (bit_vector);
            assert((((w & 0xFF00u16) >> 8u16) as u8) & 0x0Fu8 == ((w >> 8u16) & 0xFu16) as u8)
                by (bit_vector);
            assert((((w & 0x00FFu16) as u8) & 0xF0u8) >> 4u8 == ((w >> 4u16) & 0xFu16) as u8)
                by (bit_vector);
            assert(((w & 0x00FFu16) as u8) & 0x0Fu8 == (w & 0xFu16) as u8) by (bit_vector);
            crate::opcodes::lemma_nibbles_small(w);
        }
        match (op, x, y, d) {
            (0, 0, 0xE, 0) => OpCode::CLR,
            (0, 0, 0xE, 0xE) => OpCode::RET,
            (0x1, _, _, _) => OpCode::JMP(nnn),
            (0x2, _, _, _) => OpCode::CALL(nnn),
            (0x3, _, _, _) => OpCode::SkipEqualNN(x, lower_byte),
            (0x4, _, _, _) => OpCode::SkipNotEqualNN(x, lower_byte),
            (0x5, _, _, 0) => OpCode::SkipEqualXY(x, y),
            (0x6, _, _, _) => OpCode::SET(x, lower_byte),
            (0x7, _, _, _) => OpCode::ADD(x, lower_byte),
            (0x8, _, _, 0) => OpCode::LDXY(x, y),
            (0x8, _, _, 1) => OpCode::BOR(x, y),
            (0x8, _, _, 2) => OpCode::BAND(x, y),
            (0x8, _, _, 3) => OpCode::BXOR(x, y),
            (0x8, _, _, 4) => OpCode::AddXY(x, y),
            (0x8, _, _, 5) => OpCode::SubXY(x, y),
            (0x8, _, _, 6) => OpCode::SHR(x, y),
            (0x8, _, _, 7) => OpCode::SUBN(x, y),
            (0x8, _, _, 0xE) => OpCode::SHL(x, y),
            (0x9, _, _, 0) => OpCode::SkipNotEqualXY(x, y),
            (0xA, _, _, _) => OpCode::SetAddrReg(nnn),
            (0xB, _, _, _) => OpCode::JumpPlusV0(nnn),
            (0xC, _, _, _) => OpCode::RAND(x, lower_byte),
            (0xD, _, _, _) => OpCode::DXYN(x, y, d),
            (0xF, _, 1, 0xE) => OpCode::AddVxToI(x),
            (0xF, _, 3, 3) => OpCode::SaveBCD(x),
            (0xF, _, 5, 5) => OpCode::StoreV0ToVx(x),
            (0xF, _, 6, 5) => OpCode::ReadV0ToVx(x),
            (_, _, _, _) => OpCode::UNFINISHED,
        }
    }
}

} // verus!

//! The machine as a mathematical value, and what each instruction does to it.
//!
//! The executable engine is specified against the functions of this module:
//! a step of the engine takes the view of the engine from one `MachineState`
//! to the `MachineState` that these functions name.

use vstd::prelude::*;
use crate::display::{
    collision, draw_grid, in_grid, is_grid, turned_off, uniform_grid, Grid, DISPLAY_HEIGHT,
    DISPLAY_WIDTH,
};
use crate::instruction::{decode_spec, Instruction, InstructionDecodeError};
use crate::keyboard::KEY_COUNT;
use crate::stack::{pop_spec, push_spec, StackError, STACK_SIZE};
use crate::vm::{VMError, MEMORY_SIZE, VREG_COUNT};

verus! {

/// Number of the register that instructions use for carry, borrow and
/// collision.
pub const FLAG_REGISTER: usize = 0xF;

/// Width of one instruction in bytes.
pub const INSTRUCTION_WIDTH: usize = 2;

/// Everything the machine holds, as plain mathematical values.
pub struct MachineState {
    pub memory: Seq<u8>,
    pub program_counter: int,
    pub index_register: u16,
    pub delay_timer: u8,
    pub sound_timer: u8,
    pub registers: Seq<u8>,
    /// Return addresses, the oldest first.
    pub stack: Seq<u16>,
    pub keys: Seq<bool>,
    pub display: Grid,
    pub shift_legacy: bool,
    pub chip48_mode: bool,
}

/// The machine as it is made: memory, registers, timers and program counter
/// zero, the stack empty, no key held down, the display dark, shifts in
/// the modern way and jumps with offset in the CHIP-48 way.
pub open spec fn initial_state() -> MachineState {
    MachineState {
        memory: Seq::new(MEMORY_SIZE as nat, |a: int| 0u8),
        program_counter: 0,
        index_register: 0,
        delay_timer: 0,
        sound_timer: 0,
        registers: Seq::new(VREG_COUNT as nat, |k: int| 0u8),
        stack: Seq::empty(),
        keys: Seq::new(KEY_COUNT as nat, |k: int| false),
        display: uniform_grid(false),
        shift_legacy: false,
        chip48_mode: true,
    }
}

impl MachineState {
    /// The parts have the sizes of the machine, and the program counter is no
    /// negative number.
    pub open spec fn wf(self) -> bool {
        &&& self.memory.len() == MEMORY_SIZE
        &&& self.registers.len() == VREG_COUNT
        &&& self.keys.len() == KEY_COUNT
        &&& self.stack.len() <= STACK_SIZE
        &&& is_grid(self.display)
        &&& 0 <= self.program_counter
    }

    pub open spec fn register(self, vx: usize) -> u8 {
        self.registers[vx as int]
    }

    /// The state with `value` in register `vx`.
    pub open spec fn set_register(self, vx: usize, value: u8) -> MachineState {
        MachineState { registers: self.registers.update(vx as int, value), ..self }
    }

    /// The state with 1 in the flag register where `on` holds, else 0.
    pub open spec fn set_flag(self, on: bool) -> MachineState {
        self.set_register(FLAG_REGISTER, if on { 1u8 } else { 0u8 })
    }

    /// The state with the program counter moved on by `by` bytes.
    pub open spec fn advance(self, by: int) -> MachineState {
        MachineState { program_counter: self.program_counter + by, ..self }
    }

    /// The state with the program counter past this instruction, and past
    /// the next one too where `skip` holds.
    pub open spec fn next(self, skip: bool) -> MachineState {
        self.advance(if skip { 2 * INSTRUCTION_WIDTH } else { INSTRUCTION_WIDTH as int })
    }

    /// The state with the program counter at `target`.
    pub open spec fn jump(self, target: int) -> MachineState {
        MachineState { program_counter: target, ..self }
    }

    /// Whether the key whose number is in register `vx` is held down.
    pub open spec fn key_down(self, vx: usize) -> bool {
        self.keys[self.register(vx) as int]
    }

    /// The state with `bytes` in memory from address `offset` on, and the
    /// rest of memory kept.
    pub open spec fn load(self, bytes: Seq<u8>, offset: int) -> MachineState {
        MachineState {
            memory: Seq::new(
                self.memory.len(),
                |a: int|
                    if offset <= a < offset + bytes.len() {
                        bytes[a - offset]
                    } else {
                        self.memory[a]
                    },
            ),
            ..self
        }
    }

    /// The word at the program counter, high byte first.
    pub open spec fn fetch_word(self) -> u16 {
        (self.memory[self.program_counter] as int * 256 + self.memory[self.program_counter + 1]
            as int) as u16
    }

    /// What a fetch decodes: the instruction at the program counter, or the
    /// failure of the decoder.
    pub open spec fn fetch_spec(self) -> Result<Instruction, InstructionDecodeError> {
        decode_spec(self.fetch_word())
    }

    /// Add-with-carry: the flag says whether the sum of the two registers
    /// exceeds 255; then register `vx` takes the sum of the two registers
    /// modulo 256.
    pub open spec fn add_with_carry(self, vx: usize, vy: usize) -> MachineState {
        let flagged = self.set_flag(self.register(vx) + self.register(vy) > u8::MAX);
        flagged.set_register(vx, ((flagged.register(vx) + flagged.register(vy)) % 256) as u8)
    }

    /// Subtraction of register `subtrahend` from register `minuend` into
    /// register `vx`: the flag says whether the minuend is greater than the
    /// subtrahend; then register `vx` takes the difference modulo 256.
    pub open spec fn subtract(self, vx: usize, minuend: usize, subtrahend: usize) -> MachineState {
        let flagged = self.set_flag(self.register(minuend) > self.register(subtrahend));
        flagged.set_register(
            vx,
            ((flagged.register(minuend) - flagged.register(subtrahend)) % 256) as u8,
        )
    }

    /// The register that a shift into `vx` takes its value from: `vx` itself
    /// in legacy mode, else `vy`.
    pub open spec fn shift_source(self, vx: usize, vy: usize) -> usize {
        if self.shift_legacy {
            vx
        } else {
            vy
        }
    }

    /// A shift by one bit, to the left where `left` holds, else to the
    /// right: the flag takes the low bit of the source register; then
    /// register `vx` takes the shifted value of the source register.
    pub open spec fn shift(self, vx: usize, vy: usize, left: bool) -> MachineState {
        let source = self.shift_source(vx, vy);
        let flagged = self.set_flag(self.register(source) % 2 == 1);
        let value = flagged.register(source);
        flagged.set_register(
            vx,
            if left {
                ((value * 2) % 256) as u8
            } else {
                (value / 2) as u8
            },
        )
    }

    /// Index register plus register `vx`; the flag says whether the sum is
    /// beyond the last address of memory.
    pub open spec fn add_to_index(self, vx: usize) -> MachineState {
        let sum = (self.index_register + self.register(vx)) as u16;
        MachineState { index_register: sum, ..self }.set_flag(sum >= MEMORY_SIZE)
    }

    /// The index register at the glyph of the digit in the low nibble of
    /// register `vx`.
    pub open spec fn font_char(self, vx: usize) -> MachineState {
        MachineState {
            index_register: ((self.register(vx) % 16) * crate::font::GLYPH_HEIGHT) as u16,
            ..self
        }
    }

    /// The hundreds, tens and ones of register `vx` at the index register and
    /// the two bytes after it.
    pub open spec fn store_decimal(self, vx: usize) -> MachineState {
        let value = self.register(vx) as int;
        let at = self.index_register as int;
        MachineState {
            memory: self.memory.update(at, (value / 100) as u8).update(
                at + 1,
                ((value / 10) % 10) as u8,
            ).update(at + 2, (value % 10) as u8),
            ..self
        }
    }

    /// Registers 0 to `vx` at the index register and the bytes after it.
    pub open spec fn save_registers(self, vx: usize) -> MachineState {
        let at = self.index_register as int;
        MachineState {
            memory: Seq::new(
                self.memory.len(),
                |a: int|
                    if at <= a <= at + vx {
                        self.registers[a - at]
                    } else {
                        self.memory[a]
                    },
            ),
            ..self
        }
    }

    /// Registers 0 to `vx` filled from the index register and the bytes
    /// after it.
    pub open spec fn load_registers(self, vx: usize) -> MachineState {
        let at = self.index_register as int;
        MachineState {
            registers: Seq::new(
                self.registers.len(),
                |k: int|
                    if k <= vx {
                        self.memory[at + k]
                    } else {
                        self.registers[k]
                    },
            ),
            ..self
        }
    }

    /// The sprite of `height` rows at the index register drawn at the
    /// position that registers `x` and `y` hold, reduced to the display's
    /// dimensions. The flag says whether the draw turned a pixel off.
    pub open spec fn draw(self, x: usize, y: usize, height: u16) -> MachineState {
        let dx = self.register(x) as int % (DISPLAY_WIDTH as int);
        let dy = self.register(y) as int % (DISPLAY_HEIGHT as int);
        let rows = self.memory.subrange(
            self.index_register as int,
            self.index_register + height,
        );
        let after = draw_grid(self.display, rows, dx, dy);
        MachineState { display: after, ..self }.set_flag(collision(self.display, after))
    }

    /// A return: the program counter at the address on top of the stack,
    /// which leaves the stack. Fails on an empty stack.
    pub open spec fn sub_return(self) -> (Result<(), VMError>, MachineState) {
        match pop_spec(self.stack) {
            (Ok(target), rest) => (Ok(()), MachineState { stack: rest, ..self }.jump(target as int)),
            (Err(StackError::StackOverflow), _) => (Err(VMError::StackOverflow), self),
            (Err(StackError::StackUnderflow), _) => (
                Err(VMError::StackUnderflow),
                self,
            ),
        }
    }

    /// A call: the address after this instruction on the stack, the program
    /// counter at `target`. Fails on a full stack.
    pub open spec fn sub_call(self, target: u16) -> (Result<(), VMError>, MachineState) {
        match push_spec(self.stack, (self.program_counter + INSTRUCTION_WIDTH) as u16) {
            (Ok(_), grown) => (Ok(()), MachineState { stack: grown, ..self }.jump(target as int)),
            (Err(StackError::StackOverflow), _) => (Err(VMError::StackOverflow), self),
            (Err(StackError::StackUnderflow), _) => (
                Err(VMError::StackUnderflow),
                self,
            ),
        }
    }

    /// What `instruction` needs of the state to be carried out: the
    /// instruction lies inside memory and is well formed, every byte of
    /// memory that it reads or writes exists, the key that it asks for
    /// exists, and the index register can hold its sum.
    pub open spec fn can_execute(self, instruction: Instruction) -> bool {
        &&& 0 <= self.program_counter
        &&& self.program_counter + 1 < MEMORY_SIZE
        &&& instruction.wf()
        &&& match instruction {
            Instruction::Draw { height, .. } => self.index_register + height <= MEMORY_SIZE,
            Instruction::SkipIfKey { vx }
            | Instruction::SkipIfNotKey { vx }
            | Instruction::GetKeyBlock { vx } => self.register(vx) < KEY_COUNT,
            Instruction::AddVXToIndexRegister { vx } => self.index_register + self.register(vx)
                <= u16::MAX,
            Instruction::BinaryCodedDecimalConversion { .. } => self.index_register + 2
                < MEMORY_SIZE,
            Instruction::SaveVXToMem { vx } | Instruction::LoadVXFromMem { vx } => self.index_register
                + vx < MEMORY_SIZE,
            _ => true,
        }
    }

    /// The outcome of carrying out `instruction`, with `random` as the byte
    /// that chance supplies: the result, and the state afterwards. A failing
    /// instruction leaves the state as it was.
    pub open spec fn execute_spec(self, instruction: Instruction, random: u8) -> (
        Result<(), VMError>,
        MachineState,
    ) {
        match instruction {
            Instruction::DisplayClear => (
                Ok(()),
                MachineState { display: uniform_grid(false), ..self }.next(false),
            ),
            Instruction::SubReturn => self.sub_return(),
            Instruction::Jump { target } => (Ok(()), self.jump(target as int)),
            Instruction::SubCall { target } => self.sub_call(target),
            Instruction::SetVX { index, value } => (
                Ok(()),
                self.set_register(index, value).next(false),
            ),
            Instruction::AddVX { index, value } => (
                Ok(()),
                self.set_register(index, ((self.register(index) + value) % 256) as u8).next(false),
            ),
            Instruction::SetIR { value } => (
                Ok(()),
                MachineState { index_register: value, ..self }.next(false),
            ),
            Instruction::Draw { x, y, height } => (Ok(()), self.draw(x, y, height).next(false)),
            Instruction::SkipEq { vx, nn } => (Ok(()), self.next(self.register(vx) == nn)),
            Instruction::SkipNotEq { vx, nn } => (Ok(()), self.next(self.register(vx) != nn)),
            Instruction::SkipVEq { vx, vy } => (
                Ok(()),
                self.next(self.register(vx) == self.register(vy)),
            ),
            Instruction::SkipVNotEq { vx, vy } => (
                Ok(()),
                self.next(self.register(vx) != self.register(vy)),
            ),
            Instruction::MSetVReg { vx, vy } => (
                Ok(()),
                self.set_register(vx, self.register(vy)).next(false),
            ),
            Instruction::MSetVRegOr { vx, vy } => (
                Ok(()),
                self.set_register(vx, self.register(vx) | self.register(vy)).next(false),
            ),
            Instruction::MSetVRegAnd { vx, vy } => (
                Ok(()),
                self.set_register(vx, self.register(vx) & self.register(vy)).next(false),
            ),
            Instruction::MSetVRegXor { vx, vy } => (
                Ok(()),
                self.set_register(vx, self.register(vx) ^ self.register(vy)).next(false),
            ),
            Instruction::MAddWithCarry { vx, vy } => (
                Ok(()),
                self.add_with_carry(vx, vy).next(false),
            ),
            Instruction::MSubWithBorrow { vx, vy } => (
                Ok(()),
                self.subtract(vx, vx, vy).next(false),
            ),
            Instruction::MSubInvWithBorrow { vx, vy } => (
                Ok(()),
                self.subtract(vx, vy, vx).next(false),
            ),
            Instruction::MShiftRight { vx, vy } => (Ok(()), self.shift(vx, vy, false).next(false)),
            Instruction::MShiftLeft { vx, vy } => (Ok(()), self.shift(vx, vy, true).next(false)),
            Instruction::JumpOffset { vx, offset } => (
                Ok(()),
                self.jump(
                    self.register(
                        if self.chip48_mode {
                            vx
                        } else {
                            0
                        },
                    ) + offset,
                ),
            ),
            Instruction::Random { vx, nn } => (
                Ok(()),
                self.set_register(vx, random & nn).next(false),
            ),
            Instruction::SkipIfKey { vx } => (Ok(()), self.next(self.key_down(vx))),
            Instruction::SkipIfNotKey { vx } => (Ok(()), self.next(!self.key_down(vx))),
            Instruction::SetVXToDelayTimer { vx } => (
                Ok(()),
                self.set_register(vx, self.delay_timer).next(false),
            ),
            Instruction::SetDelayTimerToVX { vx } => (
                Ok(()),
                MachineState { delay_timer: self.register(vx), ..self }.next(false),
            ),
            Instruction::SetSoundTimerToVX { vx } => (
                Ok(()),
                MachineState { sound_timer: self.register(vx), ..self }.next(false),
            ),
            Instruction::AddVXToIndexRegister { vx } => (
                Ok(()),
                self.add_to_index(vx).next(false),
            ),
            Instruction::GetKeyBlock { vx } => (
                Ok(()),
                if self.key_down(vx) {
                    self.next(false)
                } else {
                    self
                },
            ),
            Instruction::FontChar { vx } => (Ok(()), self.font_char(vx).next(false)),
            Instruction::BinaryCodedDecimalConversion { vx } => (
                Ok(()),
                self.store_decimal(vx).next(false),
            ),
            Instruction::SaveVXToMem { vx } => (Ok(()), self.save_registers(vx).next(false)),
            Instruction::LoadVXFromMem { vx } => (Ok(()), self.load_registers(vx).next(false)),
        }
    }

    /// Whether the instruction at the program counter draws a byte by
    /// chance.
    pub open spec fn draws_random(self) -> bool {
        self.fetch_spec() matches Ok(Instruction::Random { .. })
    }

    /// The state after one period of the timers: each timer that is not zero
    /// is one less.
    pub open spec fn count_down(self) -> MachineState {
        MachineState {
            delay_timer: if self.delay_timer > 0 {
                (self.delay_timer - 1) as u8
            } else {
                0u8
            },
            sound_timer: if self.sound_timer > 0 {
                (self.sound_timer - 1) as u8
            } else {
                0u8
            },
            ..self
        }
    }

    /// A tick can be carried out: the word at the program counter lies
    /// inside memory and, where it decodes, the state has what the
    /// instruction needs.
    pub open spec fn can_tick(self) -> bool {
        &&& 0 <= self.program_counter
        &&& self.program_counter + 1 < MEMORY_SIZE
        &&& match self.fetch_spec() {
            Ok(instruction) => self.can_execute(instruction),
            Err(_) => true,
        }
    }

    /// The outcome of one tick, with `random` as the byte that chance
    /// supplies: a word that does not decode fails the tick and leaves the
    /// state as it was; an instruction is carried out.
    pub open spec fn tick_spec(self, random: u8) -> (Result<(), VMError>, MachineState) {
        match self.fetch_spec() {
            Ok(instruction) => self.execute_spec(instruction, random),
            Err(_) => (Err(VMError::UnsupportedInstruction), self),
        }
    }

    /// The state after one tick for each byte of `randoms`, in order, each
    /// tick with its byte as the one that chance supplies.
    pub open spec fn run_spec(self, randoms: Seq<u8>) -> MachineState
        decreases randoms.len(),
    {
        if randoms.len() == 0 {
            self
        } else {
            self.tick_spec(randoms.first()).1.run_spec(randoms.drop_first())
        }
    }
}

/// Only the random instruction depends on the byte that chance supplies:
/// every other instruction has one outcome, whatever that byte is.
pub proof fn lemma_chance_only_in_random(
    state: MachineState,
    instruction: Instruction,
    random: u8,
    other: u8,
)
    requires
        !(instruction is Random),
    ensures
        state.execute_spec(instruction, random) == state.execute_spec(instruction, other),
{
}

/// After a draw the flag register holds 1 if at least one pixel went from
/// on to off during the draw, and 0 if none did.
pub proof fn lemma_draw_flags_collision(state: MachineState, x: usize, y: usize, height: u16)
    requires
        state.wf(),
    ensures
        ({
            let after = state.draw(x, y, height);
            &&& after.register(FLAG_REGISTER) == 1 <==> exists|px: int, py: int|
                in_grid(px, py) && #[trigger] turned_off(state.display, after.display, px, py)
            &&& after.register(FLAG_REGISTER) == 0 <==> forall|px: int, py: int|
                in_grid(px, py) ==> !#[trigger] turned_off(state.display, after.display, px, py)
        }),
{
    let after = state.draw(x, y, height);
    let hit = collision(state.display, after.display);
    assert(after.register(FLAG_REGISTER) == if hit {
        1int
    } else {
        0int
    });
    if hit {
        let (px, py) = choose|px: int, py: int|
            in_grid(px, py) && #[trigger] turned_off(state.display, after.display, px, py);
        assert(in_grid(px, py) && turned_off(state.display, after.display, px, py));
    }
}

/// Add-with-carry on two registers other than the flag register: the flag
/// is 1 exactly where the sum exceeds 255, and register `vx` holds the sum
/// modulo 256.
pub proof fn lemma_add_with_carry_values(state: MachineState, vx: usize, vy: usize)
    requires
        state.wf(),
        vx < FLAG_REGISTER,
        vy < FLAG_REGISTER,
    ensures
        ({
            let sum = state.register(vx) + state.register(vy);
            let after = state.add_with_carry(vx, vy);
            &&& after.register(FLAG_REGISTER) == if sum > 255 {
                1int
            } else {
                0int
            }
            &&& after.register(vx) == sum % 256
        }),
{
}

/// Subtract-with-borrow on two registers other than the flag register: the
/// flag is 1 exactly where the minuend is greater than the subtrahend, and
/// register `vx` holds the difference modulo 256.
pub proof fn lemma_subtract_values(state: MachineState, vx: usize, minuend: usize, subtrahend: usize)
    requires
        state.wf(),
        vx < FLAG_REGISTER,
        minuend < FLAG_REGISTER,
        subtrahend < FLAG_REGISTER,
    ensures
        ({
            let after = state.subtract(vx, minuend, subtrahend);
            &&& after.register(FLAG_REGISTER) == if state.register(minuend) > state.register(
                subtrahend,
            ) {
                1int
            } else {
                0int
            }
            &&& after.register(vx) == (state.register(minuend) - state.register(subtrahend)) % 256
        }),
{
}

/// A tick that fails leaves the machine as it was.
pub proof fn lemma_failed_tick_changes_nothing(state: MachineState, random: u8)
    ensures
        state.tick_spec(random).0 is Err ==> state.tick_spec(random).1 == state,
{
}

/// A tick fails in three cases and no other: the word at the program counter
/// does not decode, a return finds the stack empty, or a call finds it
/// full.
pub proof fn lemma_tick_failures(state: MachineState, random: u8)
    requires
        state.wf(),
    ensures
        state.tick_spec(random).0 == Err::<(), VMError>(VMError::UnsupportedInstruction)
            <==> state.fetch_spec() is Err,
        state.tick_spec(random).0 == Err::<(), VMError>(VMError::StackUnderflow) <==> (
        state.fetch_spec() == Ok::<Instruction, InstructionDecodeError>(Instruction::SubReturn)
            && state.stack.len() == 0),
        state.tick_spec(random).0 == Err::<(), VMError>(VMError::StackOverflow) <==> (
        state.fetch_spec() matches Ok(Instruction::SubCall { .. }) && state.stack.len()
            == STACK_SIZE),
{
}

/// A tick that can be carried out takes a well-formed machine to a
/// well-formed machine: the parts keep their sizes, and the stack never
/// holds more than its capacity.
pub proof fn lemma_tick_keeps_wf(state: MachineState, random: u8)
    requires
        state.wf(),
        state.can_tick(),
    ensures
        state.tick_spec(random).1.wf(),
{
    match state.fetch_spec() {
        Ok(instruction) => {
            lemma_execute_keeps_wf(state, instruction, random);
        },
        Err(_) => {},
    }
}

/// An instruction that can be carried out takes a well-formed machine to a
/// well-formed machine.
pub proof fn lemma_execute_keeps_wf(state: MachineState, instruction: Instruction, random: u8)
    requires
        state.wf(),
        state.can_execute(instruction),
    ensures
        state.execute_spec(instruction, random).1.wf(),
{
}

/// While the key that a key-wait asks for is up, ticks change nothing,
/// however many there are: the program counter stays on the key-wait.
pub proof fn lemma_key_wait_parks(state: MachineState, vx: usize, randoms: Seq<u8>)
    requires
        state.fetch_spec() == Ok::<Instruction, InstructionDecodeError>(
            Instruction::GetKeyBlock { vx },
        ),
        !state.key_down(vx),
    ensures
        state.run_spec(randoms) == state,
    decreases randoms.len(),
{
    if randoms.len() > 0 {
        lemma_key_wait_parks(state, vx, randoms.drop_first());
    }
}

/// Once the key that a key-wait asks for is down, the next tick moves the
/// program counter past the key-wait and changes nothing else.
pub proof fn lemma_key_wait_resumes(state: MachineState, vx: usize, random: u8)
    requires
        state.fetch_spec() == Ok::<Instruction, InstructionDecodeError>(
            Instruction::GetKeyBlock { vx },
        ),
        state.key_down(vx),
    ensures
        state.tick_spec(random) == (Ok::<(), VMError>(()), state.advance(INSTRUCTION_WIDTH as int)),
{
}

/// A key-wait from start to end: ticks with the key up leave the machine
/// parked; when the host then sets the keys so that the key is down, the
/// next tick moves the program counter on by one instruction.
pub proof fn lemma_key_wait(
    state: MachineState,
    vx: usize,
    randoms: Seq<u8>,
    keys: Seq<bool>,
    random: u8,
)
    requires
        state.fetch_spec() == Ok::<Instruction, InstructionDecodeError>(
            Instruction::GetKeyBlock { vx },
        ),
        !state.key_down(vx),
        keys[state.register(vx) as int],
    ensures
        state.run_spec(randoms).program_counter == state.program_counter,
        (MachineState { keys, ..state.run_spec(randoms) }).tick_spec(random) == (
            Ok::<(), VMError>(()),
            (MachineState { keys, ..state }).advance(INSTRUCTION_WIDTH as int),
        ),
{
    lemma_key_wait_parks(state, vx, randoms);
    let pressed = MachineState { keys, ..state };
    assert(pressed.fetch_spec() == state.fetch_spec());
    lemma_key_wait_resumes(pressed, vx, random);
}

} // verus!

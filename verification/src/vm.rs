//! The execution engine: memory, registers, stack, keypad and display, and
//! the fetch-decode-execute step over them.

use vstd::prelude::*;
use crate::display::{Display, DISPLAY_HEIGHT, DISPLAY_WIDTH};
use crate::instruction::{decode, Instruction, InstructionDecodeError};
use crate::keyboard::{Keyboard, KEY_COUNT};
use crate::font::GLYPH_HEIGHT;
use crate::machine::{
    initial_state, lemma_chance_only_in_random, MachineState, FLAG_REGISTER, INSTRUCTION_WIDTH,
};
use crate::stack::{Stack, StackError};

verus! {

pub const MEMORY_SIZE: usize = 4096;

pub const VREG_COUNT: usize = 16;

/// The machine. Its view is the `MachineState` that its fields hold.
pub struct VM {
    pub memory: [u8; MEMORY_SIZE],
    pub program_counter: usize,
    pub index_register: u16,
    pub delay_timer: u8,
    pub sound_timer: u8,
    pub variable_registers: [u8; VREG_COUNT],
    pub stack: Stack,
    pub keyboard: Keyboard,
    pub display: Display,
    pub shift_legacy: bool,
    pub chip48_mode: bool,
}

/// Why a step of the machine failed.
#[derive(Debug, Clone, Copy, PartialEq, Eq)]
pub enum VMError {
    /// A call found the stack full.
    StackOverflow,
    /// A return found the stack empty.
    StackUnderflow,
    /// The word at the program counter encodes no instruction.
    UnsupportedInstruction,
}

impl View for VM {
    type V = MachineState;

    open spec fn view(&self) -> MachineState {
        MachineState {
            memory: self.memory@,
            program_counter: self.program_counter as int,
            index_register: self.index_register,
            delay_timer: self.delay_timer,
            sound_timer: self.sound_timer,
            registers: self.variable_registers@,
            stack: self.stack@,
            keys: self.keyboard.keys@,
            display: self.display@,
            shift_legacy: self.shift_legacy,
            chip48_mode: self.chip48_mode,
        }
    }
}

impl VM {
    /// A machine in its initial state.
    pub fn new() -> (vm: VM)
        ensures
            vm@ == initial_state(),
    {
        let vm = VM {
            memory: [0; MEMORY_SIZE],
            program_counter: 0,
            index_register: 0,
            delay_timer: 0,
            sound_timer: 0,
            variable_registers: [0; VREG_COUNT],
            stack: Stack::new(),
            keyboard: Keyboard::new(),
            display: Display::new(),
            shift_legacy: false,
            chip48_mode: true,
        };
        assert(vm@.memory =~= initial_state().memory);
        assert(vm@.registers =~= initial_state().registers);
        vm
    }

    /// Copies `buf` into memory from address `offset` on.
    pub fn mem_copy(&mut self, buf: &[u8], offset: usize)
        requires
            offset + buf@.len() <= MEMORY_SIZE,
        ensures
            final(self)@ == old(self)@.load(buf@, offset as int),
    {
        let count: usize = buf.len();
        let mut i: usize = 0;
        assert(self@.memory =~= old(self)@.load(buf@.take(0), offset as int).memory);
        while i < count
            invariant
                count == buf@.len(),
                offset + count <= MEMORY_SIZE,
                0 <= i <= count,
                self@ == old(self)@.load(buf@.take(i as int), offset as int),
            decreases count - i,
        {
            self.memory[offset + i] = buf[i];
            i += 1;
            assert(self@.memory =~= old(self)@.load(buf@.take(i as int), offset as int).memory);
        }
        assert(buf@.take(count as int) =~= buf@);
    }

    /// Reads the word at the program counter, high byte first, and decodes
    /// it.
    pub fn fetch(&self) -> (fetched: Result<Instruction, InstructionDecodeError>)
        requires
            self.program_counter + 1 < MEMORY_SIZE,
        ensures
            fetched == self@.fetch_spec(),
    {
        let high: u8 = self.memory[self.program_counter];
        let low: u8 = self.memory[self.program_counter + 1];
        let raw_inst: u16 = ((high as u16) << 8) | (low as u16);
        assert(raw_inst == high as int * 256 + low as int) by {
            assert((((high as u16) << 8) | (low as u16)) == (high as u16) * 256 + (low as u16))
                by (bit_vector);
        }
        decode(raw_inst)
    }

    /// Puts `value` into register `vx`.
    fn set_register(&mut self, vx: usize, value: u8)
        requires
            vx < VREG_COUNT,
        ensures
            final(self)@ == old(self)@.set_register(vx, value),
    {
        self.variable_registers[vx] = value;
    }

    /// Puts 1 into the flag register where `on` holds, else 0.
    fn set_flag(&mut self, on: bool)
        ensures
            final(self)@ == old(self)@.set_flag(on),
    {
        self.variable_registers[FLAG_REGISTER] = if on {
            1
        } else {
            0
        };
    }

    /// Whether the key whose number is in register `vx` is held down.
    fn key_down(&self, vx: usize) -> (down: bool)
        requires
            vx < VREG_COUNT,
            self@.register(vx) < KEY_COUNT,
        ensures
            down == self@.key_down(vx),
    {
        self.keyboard.keys[self.variable_registers[vx] as usize]
    }

    /// Return from a subroutine.
    fn sub_return(&mut self) -> (outcome: Result<(), VMError>)
        ensures
            (outcome, final(self)@) == old(self)@.sub_return(),
    {
        match self.stack.pop() {
            Ok(target) => {
                self.program_counter = target as usize;
                Ok(())
            },
            Err(StackError::StackOverflow) => Err(VMError::StackOverflow),
            Err(StackError::StackUnderflow) => Err(VMError::StackUnderflow),
        }
    }

    /// Call of the subroutine at `target`.
    fn sub_call(&mut self, target: u16) -> (outcome: Result<(), VMError>)
        requires
            old(self).program_counter + 1 < MEMORY_SIZE,
        ensures
            (outcome, final(self)@) == old(self)@.sub_call(target),
    {
        let return_address: u16 = (self.program_counter + INSTRUCTION_WIDTH) as u16;
        match self.stack.push(return_address) {
            Ok(_) => {
                self.program_counter = target as usize;
                Ok(())
            },
            Err(StackError::StackOverflow) => Err(VMError::StackOverflow),
            Err(StackError::StackUnderflow) => Err(VMError::StackUnderflow),
        }
    }

    /// Add-with-carry of register `vy` into register `vx`.
    fn add_with_carry(&mut self, vx: usize, vy: usize)
        requires
            vx < VREG_COUNT,
            vy < VREG_COUNT,
        ensures
            final(self)@ == old(self)@.add_with_carry(vx, vy),
    {
        let carry: bool = self.variable_registers[vx] > u8::MAX - self.variable_registers[vy];
        self.set_flag(carry);
        let sum: u8 = self.variable_registers[vx].wrapping_add(self.variable_registers[vy]);
        self.set_register(vx, sum);
    }

    /// Subtraction of register `subtrahend` from register `minuend` into
    /// register `vx`.
    fn subtract(&mut self, vx: usize, minuend: usize, subtrahend: usize)
        requires
            vx < VREG_COUNT,
            minuend < VREG_COUNT,
            subtrahend < VREG_COUNT,
        ensures
            final(self)@ == old(self)@.subtract(vx, minuend, subtrahend),
    {
        let no_borrow: bool = self.variable_registers[minuend]
            > self.variable_registers[subtrahend];
        self.set_flag(no_borrow);
        let difference: u8 = self.variable_registers[minuend].wrapping_sub(
            self.variable_registers[subtrahend],
        );
        self.set_register(vx, difference);
    }

    /// Shift by one bit into register `vx`, to the left where `left` holds.
    fn shift(&mut self, vx: usize, vy: usize, left: bool)
        requires
            vx < VREG_COUNT,
            vy < VREG_COUNT,
        ensures
            final(self)@ == old(self)@.shift(vx, vy, left),
    {
        let source: usize = if self.shift_legacy {
            vx
        } else {
            vy
        };
        let low_bit: u8 = self.variable_registers[source] & 0x01;
        assert(low_bit == 1 <==> self.variable_registers[source as int] % 2 == 1) by {
            let v = self.variable_registers[source as int];
            assert((v & 0x01) == 1 <==> v % 2 == 1) by (bit_vector);
        }
        self.set_flag(low_bit == 1);
        let value: u8 = self.variable_registers[source];
        let shifted: u8 = if left {
            value << 1
        } else {
            value >> 1
        };
        assert(shifted == if left {
            (value * 2) % 256
        } else {
            value as int / 2
        }) by {
            assert((value << 1) == (value * 2) % 256) by (bit_vector);
            assert((value >> 1) == value / 2) by (bit_vector);
        }
        self.set_register(vx, shifted);
    }

    /// Adds register `vx` to the index register.
    fn add_to_index(&mut self, vx: usize)
        requires
            vx < VREG_COUNT,
            old(self).index_register + old(self)@.register(vx) <= u16::MAX,
        ensures
            final(self)@ == old(self)@.add_to_index(vx),
    {
        self.index_register += self.variable_registers[vx] as u16;
        let beyond: bool = self.index_register > 0xFFF;
        self.set_flag(beyond);
    }

    /// Points the index register at the glyph of the digit in register `vx`.
    fn font_char(&mut self, vx: usize)
        requires
            vx < VREG_COUNT,
        ensures
            final(self)@ == old(self)@.font_char(vx),
    {
        let digit: u8 = self.variable_registers[vx] & 0x0F;
        assert(digit == self.variable_registers[vx as int] % 16) by {
            let v = self.variable_registers[vx as int];
            assert((v & 0x0F) == v % 16) by (bit_vector);
        }
        self.index_register = digit as u16 * GLYPH_HEIGHT as u16;
    }

    /// Stores the decimal digits of register `vx` at the index register.
    fn store_decimal(&mut self, vx: usize)
        requires
            vx < VREG_COUNT,
            old(self).index_register + 2 < MEMORY_SIZE,
        ensures
            final(self)@ == old(self)@.store_decimal(vx),
    {
        let mut value: u8 = self.variable_registers[vx];
        let ones: u8 = value % 10;
        value /= 10;
        let tens: u8 = value % 10;
        value /= 10;
        let hundreds: u8 = value % 10;
        let at: usize = self.index_register as usize;
        self.memory[at] = hundreds;
        self.memory[at + 1] = tens;
        self.memory[at + 2] = ones;
    }

    /// Stores registers 0 to `vx` at the index register.
    fn save_registers(&mut self, vx: usize)
        requires
            vx < VREG_COUNT,
            old(self).index_register + vx < MEMORY_SIZE,
        ensures
            final(self)@ == old(self)@.save_registers(vx),
    {
        let at: usize = self.index_register as usize;
        let mut i: usize = 0;
        while i <= vx
            invariant
                vx < VREG_COUNT,
                at == old(self).index_register,
                at + vx < MEMORY_SIZE,
                0 <= i <= vx + 1,
                self@ == (MachineState { memory: self@.memory, ..old(self)@ }),
                forall|a: int|
                    0 <= a < MEMORY_SIZE ==> #[trigger] self@.memory[a] == if at <= a < at + i {
                        old(self)@.registers[a - at]
                    } else {
                        old(self)@.memory[a]
                    },
            decreases vx + 1 - i,
        {
            self.memory[at + i] = self.variable_registers[i];
            i += 1;
        }
        assert(self@.memory =~= old(self)@.save_registers(vx).memory);
    }

    /// Fills registers 0 to `vx` from the index register on.
    fn load_registers(&mut self, vx: usize)
        requires
            vx < VREG_COUNT,
            old(self).index_register + vx < MEMORY_SIZE,
        ensures
            final(self)@ == old(self)@.load_registers(vx),
    {
        let at: usize = self.index_register as usize;
        let mut i: usize = 0;
        while i <= vx
            invariant
                vx < VREG_COUNT,
                at == old(self).index_register,
                at + vx < MEMORY_SIZE,
                0 <= i <= vx + 1,
                self@ == (MachineState { registers: self@.registers, ..old(self)@ }),
                forall|k: int|
                    0 <= k < VREG_COUNT ==> #[trigger] self@.registers[k] == if k < i {
                        old(self)@.memory[at + k]
                    } else {
                        old(self)@.registers[k]
                    },
            decreases vx + 1 - i,
        {
            self.variable_registers[i] = self.memory[at + i];
            i += 1;
        }
        assert(self@.registers =~= old(self)@.load_registers(vx).registers);
    }

    /// Draws the sprite of `height` rows at the index register at the
    /// position in registers `x` and `y`.
    fn draw(&mut self, x: usize, y: usize, height: u16)
        requires
            x < VREG_COUNT,
            y < VREG_COUNT,
            height < 16,
            old(self).index_register + height <= MEMORY_SIZE,
        ensures
            final(self)@ == old(self)@.draw(x, y, height),
    {
        let dx: usize = self.variable_registers[x] as usize % DISPLAY_WIDTH;
        let dy: usize = self.variable_registers[y] as usize % DISPLAY_HEIGHT;
        self.set_flag(false);
        let hit: bool = self.display.draw_sprite(
            &self.memory,
            self.index_register as usize,
            height as usize,
            dx,
            dy,
        );
        if hit {
            self.set_flag(true);
        }
        assert(self@.registers =~= old(self)@.draw(x, y, height).registers);
    }

    /// Tests whether the state has what `instruction` needs to be carried
    /// out.
    pub fn can_execute(&self, instruction: &Instruction) -> (ok: bool)
        ensures
            ok == self@.can_execute(*instruction),
    {
        if self.program_counter >= MEMORY_SIZE - 1 || !instruction.is_wf() {
            return false;
        }
        let index: usize = self.index_register as usize;
        match *instruction {
            Instruction::Draw { height, .. } => index + height as usize <= MEMORY_SIZE,
            Instruction::SkipIfKey { vx }
            | Instruction::SkipIfNotKey { vx }
            | Instruction::GetKeyBlock { vx } => (self.variable_registers[vx] as usize) < KEY_COUNT,
            Instruction::AddVXToIndexRegister { vx } => index + self.variable_registers[vx] as usize
                <= 0xFFFF,
            Instruction::BinaryCodedDecimalConversion { .. } => index + 2 < MEMORY_SIZE,
            Instruction::SaveVXToMem { vx } | Instruction::LoadVXFromMem { vx } => index + vx
                < MEMORY_SIZE,
            _ => true,
        }
    }

    /// Tests whether a tick can be carried out.
    pub fn can_tick(&self) -> (ok: bool)
        ensures
            ok == self@.can_tick(),
    {
        if self.program_counter >= MEMORY_SIZE - 1 {
            return false;
        }
        match self.fetch() {
            Ok(instruction) => self.can_execute(&instruction),
            Err(_) => true,
        }
    }

    /// Carries out `instruction`, with `random` as the byte that the random
    /// instruction uses, and moves the program counter as the instruction
    /// asks. A failing instruction changes nothing.
    pub fn execute(&mut self, instruction: &Instruction, random: u8) -> (outcome: Result<
        (),
        VMError,
    >)
        requires
            old(self)@.can_execute(*instruction),
        ensures
            (outcome, final(self)@) == old(self)@.execute_spec(*instruction, random),
            outcome is Err ==> final(self)@ == old(self)@,
    {
        let mut increment: usize = INSTRUCTION_WIDTH;
        match *instruction {
            Instruction::DisplayClear => {
                self.display.clear(false);
            },
            Instruction::SubReturn => {
                return self.sub_return();
            },
            Instruction::Jump { target } => {
                self.program_counter = target as usize;
                increment = 0;
            },
            Instruction::SubCall { target } => {
                return self.sub_call(target);
            },
            Instruction::SetVX { index, value } => {
                self.set_register(index, value);
            },
            Instruction::AddVX { index, value } => {
                let sum: u8 = self.variable_registers[index].wrapping_add(value);
                self.set_register(index, sum);
            },
            Instruction::SetIR { value } => {
                self.index_register = value;
            },
            Instruction::Draw { x, y, height } => {
                self.draw(x, y, height);
            },
            Instruction::SkipEq { vx, nn } => {
                if self.variable_registers[vx] == nn {
                    increment += INSTRUCTION_WIDTH;
                }
            },
            Instruction::SkipNotEq { vx, nn } => {
                if self.variable_registers[vx] != nn {
                    increment += INSTRUCTION_WIDTH;
                }
            },
            Instruction::SkipVEq { vx, vy } => {
                if self.variable_registers[vx] == self.variable_registers[vy] {
                    increment += INSTRUCTION_WIDTH;
                }
            },
            Instruction::SkipVNotEq { vx, vy } => {
                if self.variable_registers[vx] != self.variable_registers[vy] {
                    increment += INSTRUCTION_WIDTH;
                }
            },
            Instruction::MSetVReg { vx, vy } => {
                let value: u8 = self.variable_registers[vy];
                self.set_register(vx, value);
            },
            Instruction::MSetVRegOr { vx, vy } => {
                let value: u8 = self.variable_registers[vx] | self.variable_registers[vy];
                self.set_register(vx, value);
            },
            Instruction::MSetVRegAnd { vx, vy } => {
                let value: u8 = self.variable_registers[vx] & self.variable_registers[vy];
                self.set_register(vx, value);
            },
            Instruction::MSetVRegXor { vx, vy } => {
                let value: u8 = self.variable_registers[vx] ^ self.variable_registers[vy];
                self.set_register(vx, value);
            },
            Instruction::MAddWithCarry { vx, vy } => {
                self.add_with_carry(vx, vy);
            },
            Instruction::MSubWithBorrow { vx, vy } => {
                self.subtract(vx, vx, vy);
            },
            Instruction::MSubInvWithBorrow { vx, vy } => {
                self.subtract(vx, vy, vx);
            },
            Instruction::MShiftRight { vx, vy } => {
                self.shift(vx, vy, false);
            },
            Instruction::MShiftLeft { vx, vy } => {
                self.shift(vx, vy, true);
            },
            Instruction::JumpOffset { vx, offset } => {
                let base: u8 = if self.chip48_mode {
                    self.variable_registers[vx]
                } else {
                    self.variable_registers[0]
                };
                self.program_counter = base as usize + offset as usize;
                increment = 0;
            },
            Instruction::Random { vx, nn } => {
                self.set_register(vx, random & nn);
            },
            Instruction::SkipIfKey { vx } => {
                if self.key_down(vx) {
                    increment += INSTRUCTION_WIDTH;
                }
            },
            Instruction::SkipIfNotKey { vx } => {
                if !self.key_down(vx) {
                    increment += INSTRUCTION_WIDTH;
                }
            },
            Instruction::SetVXToDelayTimer { vx } => {
                let value: u8 = self.delay_timer;
                self.set_register(vx, value);
            },
            Instruction::SetDelayTimerToVX { vx } => {
                self.delay_timer = self.variable_registers[vx];
            },
            Instruction::SetSoundTimerToVX { vx } => {
                self.sound_timer = self.variable_registers[vx];
            },
            Instruction::AddVXToIndexRegister { vx } => {
                self.add_to_index(vx);
            },
            Instruction::GetKeyBlock { vx } => {
                if !self.key_down(vx) {
                    increment = 0;
                }
            },
            Instruction::FontChar { vx } => {
                self.font_char(vx);
            },
            Instruction::BinaryCodedDecimalConversion { vx } => {
                self.store_decimal(vx);
            },
            Instruction::SaveVXToMem { vx } => {
                self.save_registers(vx);
            },
            Instruction::LoadVXFromMem { vx } => {
                self.load_registers(vx);
            },
        }
        self.program_counter += increment;
        Ok(())
    }

    /// One fetch-decode-execute step. A word that does not decode, a return
    /// on an empty stack and a call on a full one fail the step and change
    /// nothing. The random instruction draws its byte from the generator of
    /// the calling thread, so the step is the step of the model for some
    /// byte; for every other instruction the step is determined.
    pub fn tick(&mut self) -> (outcome: Result<(), VMError>)
        requires
            old(self)@.can_tick(),
        ensures
            exists|random: u8| (outcome, final(self)@) == #[trigger] old(self)@.tick_spec(random),
            !old(self)@.draws_random() ==> forall|random: u8|
                (outcome, final(self)@) == #[trigger] old(self)@.tick_spec(random),
            outcome is Err ==> final(self)@ == old(self)@,
    {
        match self.fetch() {
            Ok(instruction) => {
                let random: u8 = match instruction {
                    Instruction::Random { .. } => {
                        let mut generator = rand::thread_rng();
                        random_byte(&mut generator)
                    },
                    _ => 0,
                };
                let outcome = self.execute(&instruction, random);
                proof {
                    assert((outcome, self@) == old(self)@.tick_spec(random));
                    if !old(self)@.draws_random() {
                        assert forall|other: u8|
                            (outcome, self@) == #[trigger] old(self)@.tick_spec(other) by {
                            lemma_chance_only_in_random(old(self)@, instruction, random, other);
                        }
                    }
                }
                outcome
            },
            Err(InstructionDecodeError::UnsupportedOpcode { .. }) => {
                assert((Err::<(), VMError>(VMError::UnsupportedInstruction), self@) == old(
                    self,
                )@.tick_spec(0));
                Err(VMError::UnsupportedInstruction)
            },
        }
    }

    /// One period of the timers: each timer that is not zero goes down by
    /// one.
    pub fn tick_timers(&mut self)
        ensures
            final(self)@ == old(self)@.count_down(),
    {
        if self.delay_timer > 0 {
            self.delay_timer -= 1;
        }
        if self.sound_timer > 0 {
            self.sound_timer -= 1;
        }
    }
}

/// `rand::rngs::ThreadRng`, the handle to the random number generator of a
/// thread. Nothing inside it is visible here.
#[verifier::external_type_specification]
#[verifier::external_body]
pub struct ExThreadRng(rand::rngs::ThreadRng);

/// `rand::thread_rng` hands out the random number generator of the calling
/// thread, which the operating system seeds. Nothing is claimed of the
/// generator.
pub assume_specification[ rand::thread_rng ]() -> (generator: rand::rngs::ThreadRng);

/// Calls `rand::Rng::gen_range` on the full range of a byte: a byte drawn
/// from `generator`. Nothing is claimed of which byte it is; the range is
/// not empty, so the call does not panic.
#[verifier::external_body]
fn random_byte(generator: &mut rand::rngs::ThreadRng) -> (byte: u8) {
    rand::Rng::gen_range(generator, 0u8..=255u8)
}

} // verus!

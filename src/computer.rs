use vstd::prelude::*;

use crate::assembler::c_word;
use crate::bits::{bit_of, get_bit, get_bit_slice, slice_of};

verus! {

/// Address of the memory-mapped keyboard word.
pub const KBD_ADDRESS: usize = 24576;

/// Address of the first word of screen memory.
pub const SCR_ADDRESS: usize = 16384;

/// Number of instruction slots in ROM.
pub const ROM_SIZE: usize = 1000;

/// Number of words of RAM (data, screen and keyboard).
pub const RAM_SIZE: usize = 24577;

/// The state of the machine as plain values.
pub struct Machine {
    pub d: i16,
    pub a: i16,
    pub pc: i16,
    pub rom: Seq<Option<i16>>,
    pub ram: Seq<i16>,
}

/// A Hack computer: registers, program memory and data memory.
pub struct Computer {
    pub d_register: i16,
    pub a_register: i16,
    pub pc: i16,
    pub rom: Vec<Option<i16>>,
    pub memory: Vec<i16>,
}

impl View for Computer {
    type V = Machine;

    open spec fn view(&self) -> Machine {
        Machine {
            d: self.d_register,
            a: self.a_register,
            pc: self.pc,
            rom: self.rom@,
            ram: self.memory@,
        }
    }
}

/// `v` reduced to 16 bits, two's complement.
pub open spec fn wrap16(v: int) -> i16 {
    if v > 32767 {
        (v - 65536) as i16
    } else if v < -32768 {
        (v + 65536) as i16
    } else {
        v as i16
    }
}

/// The ALU: `(out, zr, ng)` for inputs `x`, `y` and control bits `zx nx zy ny f no` (bits 5 to 0).
pub open spec fn alu_spec(x: i16, y: i16, ctrl: i16) -> (i16, bool, bool) {
    let x1: i16 = if bit_of(ctrl, 5) { 0i16 } else { x };
    let x2: i16 = if bit_of(ctrl, 4) { !x1 } else { x1 };
    let y1: i16 = if bit_of(ctrl, 3) { 0i16 } else { y };
    let y2: i16 = if bit_of(ctrl, 2) { !y1 } else { y1 };
    let o: i16 = if bit_of(ctrl, 1) { wrap16(x2 + y2) } else { x2 & y2 };
    let out: i16 = if bit_of(ctrl, 0) { !o } else { o };
    (out, out == 0, out < 0)
}

/// The instruction at `pc`; an empty or missing slot reads as 0.
pub open spec fn fetch(rom: Seq<Option<i16>>, pc: i16) -> i16 {
    if 0 <= pc < rom.len() {
        match rom[pc as int] {
            Some(w) => w,
            None => 0,
        }
    } else {
        0
    }
}

/// The RAM cell that register A selects, clamped into RAM.
pub open spec fn ram_index(a: i16) -> int {
    if a < 0 {
        0
    } else if a as int >= RAM_SIZE as int {
        RAM_SIZE as int - 1
    } else {
        a as int
    }
}

/// A program counter value clamped into ROM.
pub open spec fn rom_index(p: int) -> i16 {
    if p < 0 {
        0
    } else if p >= ROM_SIZE as int {
        (ROM_SIZE - 1) as i16
    } else {
        p as i16
    }
}

/// Whether the jump field `j` is taken for ALU flags `zr` and `ng`.
pub open spec fn jump_taken(j: i16, zr: bool, ng: bool) -> bool {
    match j {
        0i16 => false,
        1i16 => !(zr || ng),
        2i16 => zr,
        3i16 => !ng,
        4i16 => ng,
        5i16 => !zr,
        6i16 => ng || zr,
        _ => true,
    }
}

/// The machine after executing one instruction.
pub open spec fn step_spec(m: Machine) -> Machine {
    let instr = fetch(m.rom, m.pc);
    if !bit_of(instr, 15) {
        Machine { a: instr, pc: rom_index(m.pc + 1), ..m }
    } else {
        let y = if bit_of(instr, 12) { m.ram[ram_index(m.a)] } else { m.a };
        let (out, zr, ng) = alu_spec(m.d, y, slice_of(instr, 6, 12));
        let dest = slice_of(instr, 3, 6);
        let a = if bit_of(dest, 2) { out } else { m.a };
        let d = if bit_of(dest, 1) { out } else { m.d };
        let ram = if bit_of(dest, 0) { m.ram.update(ram_index(a), out) } else { m.ram };
        let pc = if jump_taken(slice_of(instr, 0, 3), zr, ng) {
            rom_index(a as int)
        } else {
            rom_index(m.pc + 1)
        };
        Machine { d, a, pc, rom: m.rom, ram }
    }
}

/// The lit pixels of one screen word whose first pixel is at offset `n`, for its bits below `i`.
pub open spec fn word_pixels(w: i16, n: int, i: int) -> Seq<(u16, u16)>
    decreases i,
{
    if i <= 0 {
        Seq::empty()
    } else {
        let before = word_pixels(w, n, i - 1);
        if bit_of(w, i - 1) {
            before.push((((n % 512) + i - 1) as u16, (255 - n / 512) as u16))
        } else {
            before
        }
    }
}

/// The lit pixels of the first `k` screen words, word by word, least significant bit first.
pub open spec fn screen_pixels_upto(ram: Seq<i16>, k: int) -> Seq<(u16, u16)>
    decreases k,
{
    if k <= 0 {
        Seq::empty()
    } else {
        screen_pixels_upto(ram, k - 1) + word_pixels(ram[SCR_ADDRESS + k - 1], 16 * (k - 1), 16)
    }
}

/// Adds two words with two's-complement wrap-around.
fn add16(x: i16, y: i16) -> (r: i16)
    ensures
        r == wrap16(x + y),
{
    let s: i32 = x as i32 + y as i32;
    if s > 32767 {
        (s - 65536) as i16
    } else if s < -32768 {
        (s + 65536) as i16
    } else {
        s as i16
    }
}

impl Computer {
    /// Both memories have their fixed sizes.
    pub open spec fn wf(&self) -> bool {
        self.rom@.len() == ROM_SIZE && self.memory@.len() == RAM_SIZE
    }

    /// A computer with empty ROM, zeroed RAM and zeroed registers.
    pub fn new() -> (c: Computer)
        ensures
            c.wf(),
            c.d_register == 0 && c.a_register == 0 && c.pc == 0,
            forall|i: int| 0 <= i < ROM_SIZE ==> c.rom@[i] is None,
            forall|i: int| 0 <= i < RAM_SIZE ==> c.memory@[i] == 0,
    {
        let mut rom: Vec<Option<i16>> = Vec::new();
        while rom.len() < ROM_SIZE
            invariant
                rom@.len() <= ROM_SIZE,
                forall|i: int| 0 <= i < rom@.len() ==> rom@[i] is None,
            decreases ROM_SIZE - rom@.len(),
        {
            rom.push(None);
        }
        let mut memory: Vec<i16> = Vec::new();
        while memory.len() < RAM_SIZE
            invariant
                memory@.len() <= RAM_SIZE,
                forall|i: int| 0 <= i < memory@.len() ==> memory@[i] == 0,
            decreases RAM_SIZE - memory@.len(),
        {
            memory.push(0);
        }
        Computer { d_register: 0, a_register: 0, pc: 0, rom, memory }
    }

    /// Puts `program` into ROM from address 0.
    pub fn load(&mut self, program: &Vec<i16>)
        requires
            old(self).wf(),
            program@.len() <= ROM_SIZE,
        ensures
            final(self).wf(),
            final(self).d_register == old(self).d_register,
            final(self).a_register == old(self).a_register,
            final(self).pc == old(self).pc,
            final(self).memory@ == old(self).memory@,
            forall|i: int| 0 <= i < program@.len() ==> final(self).rom@[i] == Some(program@[i]),
            forall|i: int|
                program@.len() <= i < ROM_SIZE ==> final(self).rom@[i] == old(self).rom@[i],
    {
        let mut i: usize = 0;
        while i < program.len()
            invariant
                i <= program@.len() <= ROM_SIZE,
                self.wf(),
                self.d_register == old(self).d_register,
                self.a_register == old(self).a_register,
                self.pc == old(self).pc,
                self.memory@ == old(self).memory@,
                forall|k: int| 0 <= k < i ==> self.rom@[k] == Some(program@[k]),
                forall|k: int| i <= k < ROM_SIZE ==> self.rom@[k] == old(self).rom@[k],
            decreases program@.len() - i,
        {
            self.rom.set(i, Some(program[i]));
            i = i + 1;
        }
    }

    /// The ALU applied to `x` and `y` under the six control bits of `comp_bits`.
    fn alu(&self, x: i16, y: i16, comp_bits: i16) -> (r: (i16, bool, bool))
        ensures
            r == alu_spec(x, y, comp_bits),
    {
        let mut x = x;
        let mut y = y;
        let zx = get_bit(comp_bits, 5);
        let nx = get_bit(comp_bits, 4);
        let zy = get_bit(comp_bits, 3);
        let ny = get_bit(comp_bits, 2);
        let f = get_bit(comp_bits, 1);
        let no = get_bit(comp_bits, 0);

        if zx {
            x = 0;
        }
        if nx {
            x = !x;
        }
        if zy {
            y = 0;
        }
        if ny {
            y = !y;
        }
        let mut out = if f {
            add16(x, y)
        } else {
            x & y
        };
        if no {
            out = !out;
        }
        (out, out == 0, out < 0)
    }

    /// Executes the instruction at `pc`.
    pub fn step(&mut self)
        requires
            old(self).wf(),
        ensures
            final(self).wf(),
            final(self)@ == step_spec(old(self)@),
            0 <= final(self).pc < ROM_SIZE,
    {
        let instr: i16 = if 0 <= self.pc && (self.pc as usize) < self.rom.len() {
            match self.rom[self.pc as usize] {
                Some(w) => w,
                None => 0,
            }
        } else {
            0
        };
        let is_a_instr = !get_bit(instr, 15);
        let next_pc: i16 = if self.pc < 0 {
            0
        } else if self.pc as usize + 1 >= ROM_SIZE {
            (ROM_SIZE - 1) as i16
        } else {
            self.pc + 1
        };

        if is_a_instr {
            self.a_register = instr;
            self.pc = next_pc;
        } else {
            let a_bit = get_bit(instr, 12);
            let comp_bits = get_bit_slice(instr, 6, 12);
            let dest_bits = get_bit_slice(instr, 3, 6);
            let jump_bits = get_bit_slice(instr, 0, 3);
            let x = self.d_register;
            let y = if !a_bit {
                self.a_register
            } else {
                self.memory[Self::ram_slot(self.a_register)]
            };
            let (alu_output, zr, ng) = self.alu(x, y, comp_bits);

            if get_bit(dest_bits, 2) {
                self.a_register = alu_output;
            }
            if get_bit(dest_bits, 1) {
                self.d_register = alu_output;
            }
            if get_bit(dest_bits, 0) {
                let slot = Self::ram_slot(self.a_register);
                self.memory.set(slot, alu_output);
            }

            let should_jump = match jump_bits {
                0 => false,
                1 => !(zr || ng),
                2 => zr,
                3 => !ng,
                4 => ng,
                5 => !zr,
                6 => ng || zr,
                _ => true,
            };

            self.pc = if should_jump {
                Self::rom_slot(self.a_register)
            } else {
                next_pc
            };
        }
    }

    /// The RAM address that `a` selects, clamped into RAM.
    fn ram_slot(a: i16) -> (r: usize)
        ensures
            r as int == ram_index(a),
            r < RAM_SIZE,
    {
        if a < 0 {
            0
        } else if a as usize >= RAM_SIZE {
            RAM_SIZE - 1
        } else {
            a as usize
        }
    }

    /// The ROM address that `a` selects, clamped into ROM.
    fn rom_slot(a: i16) -> (r: i16)
        ensures
            r == rom_index(a as int),
    {
        if a < 0 {
            0
        } else if a as usize >= ROM_SIZE {
            (ROM_SIZE - 1) as i16
        } else {
            a
        }
    }

    /// The word at RAM address `addr`.
    pub fn read_ram(&self, addr: usize) -> (r: i16)
        requires
            self.wf(),
            addr < RAM_SIZE,
        ensures
            r == self.memory@[addr as int],
    {
        self.memory[addr]
    }

    /// Stores `word` at RAM address `addr`.
    pub fn write_ram(&mut self, addr: usize, word: i16)
        requires
            old(self).wf(),
            addr < RAM_SIZE,
        ensures
            final(self)@ == (Machine { ram: old(self)@.ram.update(addr as int, word), ..old(self)@ }),
    {
        self.memory.set(addr, word);
    }

    /// Puts a key code into the keyboard word.
    pub fn inject_key(&mut self, code: i16)
        requires
            old(self).wf(),
        ensures
            final(self)@ == (Machine {
                ram: old(self)@.ram.update(KBD_ADDRESS as int, code),
                ..old(self)@
            }),
    {
        self.memory.set(KBD_ADDRESS, code);
    }

    /// Sets the keyboard word back to 0 (no key pressed).
    pub fn clear_key(&mut self)
        requires
            old(self).wf(),
        ensures
            final(self)@ == (Machine { ram: old(self)@.ram.update(KBD_ADDRESS as int, 0), ..old(self)@ }),
    {
        self.memory.set(KBD_ADDRESS, 0);
    }

    /// The lit pixels of the screen as `(x, y)` pairs: bit `i` of the word at pixel offset
    /// `n` lights `(n % 512 + i, 255 - n / 512)`.
    pub fn screen_pixels(&self) -> (r: Vec<(u16, u16)>)
        requires
            self.wf(),
        ensures
            r@ == screen_pixels_upto(self.memory@, (KBD_ADDRESS - SCR_ADDRESS) as int),
    {
        let mut coords: Vec<(u16, u16)> = Vec::new();
        let mut k: usize = 0;
        while k < KBD_ADDRESS - SCR_ADDRESS
            invariant
                self.wf(),
                k <= KBD_ADDRESS - SCR_ADDRESS,
                coords@ == screen_pixels_upto(self.memory@, k as int),
            decreases KBD_ADDRESS - SCR_ADDRESS - k,
        {
            let word = self.memory[SCR_ADDRESS + k];
            let n: usize = 16 * k;
            let x: u16 = (n % 512) as u16;
            let y: u16 = (255 - n / 512) as u16;
            let ghost before = coords@;
            let mut i: u16 = 0;
            while i < 16
                invariant
                    0 <= i <= 16,
                    n == 16 * k,
                    k < KBD_ADDRESS - SCR_ADDRESS,
                    x as int == n as int % 512,
                    y as int == 255 - n as int / 512,
                    coords@ == before + word_pixels(word, n as int, i as int),
                decreases 16 - i,
            {
                if get_bit(word, i) {
                    coords.push((x + i, y));
                }
                proof {
                    assert(coords@ =~= before + word_pixels(word, n as int, i + 1));
                }
                i = i + 1;
            }
            k = k + 1;
        }
        coords
    }
}


/// The ALU control bits of comp `D`, and how they act: the output is `x`.
proof fn lemma_alu_passes_d(x: i16, y: i16)
    ensures
        alu_spec(x, y, 0b001100i16) == (x, x == 0, x < 0),
{
    let ctrl = 0b001100i16;
    assert(!bit_of(ctrl, 5) && !bit_of(ctrl, 4) && bit_of(ctrl, 3) && bit_of(ctrl, 2) && !bit_of(ctrl, 1)
        && !bit_of(ctrl, 0)) by (bit_vector)
        requires
            ctrl == 0b001100i16,
    ;
    assert(x & !0i16 == x) by (bit_vector);
}

/// Running `@k` and then `D;JMP` (or `D;JGT` with D = 0) from `pc`: the jump goes to `k`
/// (the untaken jump goes on to the next instruction).
pub proof fn lemma_load_then_jump(m: Machine, k: i16, jgt: bool)
    requires
        m.rom.len() == ROM_SIZE,
        m.ram.len() == RAM_SIZE,
        0 <= m.pc,
        m.pc + 2 < ROM_SIZE,
        0 <= k < ROM_SIZE,
        m.rom[m.pc as int] == Some(k),
        m.rom[m.pc + 1] == Some(if jgt { c_word(0b0001100, 0, 1) } else { c_word(0b0001100, 0, 7) }),
        jgt ==> m.d == 0,
    ensures
        step_spec(step_spec(m)).pc == if jgt { m.pc + 2 } else { k as int },
        step_spec(step_spec(m)).a == k,
        step_spec(step_spec(m)).d == m.d,
        step_spec(step_spec(m)).ram == m.ram,
{
    assert(!bit_of(k, 15)) by (bit_vector)
        requires
            0 <= k,
    ;
    let m1 = step_spec(m);
    assert(m1.a == k && m1.pc == m.pc + 1 && m1.d == m.d && m1.ram == m.ram && m1.rom == m.rom);
    let w = if jgt { c_word(0b0001100, 0, 1) } else { c_word(0b0001100, 0, 7) };
    let jbits: i16 = if jgt { 1 } else { 7 };
    assert(w == (0b0001100i16 * 64 + jbits - 8192) as i16);
    assert(fetch(m1.rom, m1.pc) == w);
    assert(bit_of(w, 15) && !bit_of(w, 12) && slice_of(w, 6, 12) == 0b001100i16 && slice_of(w, 3, 6) == 0
        && slice_of(w, 0, 3) == jbits) by (bit_vector)
        requires
            w == (0b0001100i16 * 64 + jbits - 8192) as i16,
            jbits == 1 || jbits == 7,
    ;
    lemma_alu_passes_d(m.d, k);
    assert(!bit_of(0i16, 2) && !bit_of(0i16, 1) && !bit_of(0i16, 0)) by (bit_vector);
}

} // verus!

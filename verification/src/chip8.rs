//! The CHIP-8 machine state, its mathematical model, and the
//! fetch-decode-execute engine.

use vstd::prelude::*;

use crate::instructions::add_i_vx_spec;
use crate::instructions::add_vx_byte_spec;
use crate::instructions::add_vx_vy_spec;
use crate::instructions::and_vx_vy_spec;
use crate::instructions::call_addr_spec;
use crate::instructions::cls_spec;
use crate::instructions::drw_spec;
use crate::instructions::jp_addr_spec;
use crate::instructions::jp_v0_addr_spec;
use crate::instructions::ld_b_vx_spec;
use crate::instructions::ld_dt_vx_spec;
use crate::instructions::ld_f_vx_spec;
use crate::instructions::ld_i_addr_spec;
use crate::instructions::ld_i_vx_spec;
use crate::instructions::ld_st_vx_spec;
use crate::instructions::ld_vx_byte_spec;
use crate::instructions::ld_vx_dt_spec;
use crate::instructions::ld_vx_i_spec;
use crate::instructions::ld_vx_k_spec;
use crate::instructions::ld_vx_vy_spec;
use crate::instructions::or_vx_vy_spec;
use crate::instructions::ret_spec;
use crate::instructions::rnd_vx_byte_spec;
use crate::instructions::se_vx_byte_spec;
use crate::instructions::se_vx_vy_spec;
use crate::instructions::shl_vx_vy_spec;
use crate::instructions::shr_vx_vy_spec;
use crate::instructions::skp_vx_spec;
use crate::instructions::sknp_vx_spec;
use crate::instructions::sne_vx_byte_spec;
use crate::instructions::sne_vx_vy_spec;
use crate::instructions::sub_vx_vy_spec;
use crate::instructions::subn_vx_vy_spec;
use crate::instructions::sys_addr_spec;
use crate::instructions::xor_vx_vy_spec;
use crate::instructions::{
    add_i_vx, add_vx_byte, add_vx_vy, and_vx_vy, call_addr, cls, drw_vx_vy_nibble, jp_addr,
    jp_v0_addr, ld_b_vx, ld_dt_vx, ld_f_vx, ld_i_addr, ld_i_vx, ld_st_vx, ld_vx_byte, ld_vx_dt,
    ld_vx_i, ld_vx_k, ld_vx_vy, or_vx_vy, ret, rnd_vx_byte, se_vx_byte, se_vx_vy, shl_vx_vy,
    shr_vx_vy, skp_vx, sknp_vx, sne_vx_byte, sne_vx_vy, sub_vx_vy, subn_vx_vy, sys_addr,
    xor_vx_vy,
};
use crate::utils::gen_rand_u8;
use crate::utils::n_of;
use crate::utils::nib0_of;
use crate::utils::opcode_to_variables;
use crate::utils::x_of;
use crate::utils::y_of;

verus! {

/// The two run-modes of the engine: normally it fetches and executes one
/// instruction per cycle; after a `Fx0A` instruction it waits for a key press
/// and remembers which register the key value is owed to.
#[derive(Clone, Copy, Debug, PartialEq, Eq, Structural)]
pub enum RunMode {
    Running,
    AwaitingKey(u8),
}

/// The errors a cycle or a program load can surface. None is retried
/// internally: each is reported to the caller, who decides whether to halt or
/// reset.
#[derive(Clone, Copy, Debug, PartialEq, Eq, Structural)]
pub enum EmulationError {
    /// The fetched word matches no opcode pattern; carries the word.
    InvalidOpcode(u16),
    /// A fetch or a memory instruction would reach past the 4096 bytes of
    /// memory; carries the offending base address.
    OutOfBounds(u16),
    /// A `2nnn` call was attempted with all 16 stack entries in use.
    StackOverflow,
    /// A `00EE` return was attempted with an empty stack.
    StackUnderflow,
    /// A program image larger than the 3584 bytes from `0x200` to the end of
    /// memory was offered.
    RomTooLarge,
}

/// What a successful cycle reports back to the host.
#[derive(Clone, Copy, Debug, PartialEq, Eq, Structural)]
pub struct CycleOutcome {
    /// The draw flag as the cycle left it: the rendering host redraws when set.
    pub drew: bool,
    /// Whether the sound timer is nonzero after the cycle: a tone-on signal.
    pub sound_active: bool,
}

/// The mathematical model of the machine: every contract in this crate speaks
/// about values of this type.
pub ghost struct MachineView {
    pub opcode: int,
    pub memory: Seq<u8>,
    pub v: Seq<u8>,
    pub i: int,
    pub pc: int,
    pub gfx: Seq<u8>,
    pub stack: Seq<u16>,
    pub sp: int,
    pub key: Seq<bool>,
    pub delay_timer: int,
    pub sound_timer: int,
    pub should_draw: bool,
    pub mode: RunMode,
}

impl MachineView {
    /// Well-formedness: the sizes of the state vectors, the ranges of the
    /// scalar registers, the stack discipline (`sp` is the depth, entries
    /// below it are return addresses inside memory), and the framebuffer
    /// holding only 0/1 cells.
    pub open spec fn wf(self) -> bool {
        &&& self.memory.len() == 4096
        &&& self.v.len() == 16
        &&& self.gfx.len() == 2048
        &&& self.stack.len() == 16
        &&& self.key.len() == 16
        &&& 0 <= self.opcode < 0x10000
        &&& 0 <= self.i < 0x10000
        &&& 0 <= self.pc < 0x10000
        &&& 0 <= self.sp <= 16
        &&& forall|k: int| 0 <= k < self.sp ==> (#[trigger] self.stack[k]) < 4096
        &&& forall|p: int| 0 <= p < 2048 ==> (#[trigger] self.gfx[p]) <= 1
        &&& 0 <= self.delay_timer < 256
        &&& 0 <= self.sound_timer < 256
        &&& match self.mode {
            RunMode::Running => true,
            RunMode::AwaitingKey(x) => x < 16 && self.pc < 4095,
        }
    }
}

/// The machine: 4K of memory with the font table at its base, sixteen 8-bit
/// registers of which `V[0xF]` doubles as the flag register, the index
/// register `I`, the program counter, the 64x32 one-bit framebuffer stored
/// row-major, a 16-entry call stack with its depth `sp`, the hex keypad
/// state, and the two 8-bit timers.
pub struct Chip8 {
    pub opcode: u16,
    pub memory: Vec<u8>,
    pub v: Vec<u8>,
    pub i: u16,
    pub pc: u16,
    pub gfx: Vec<u8>,
    pub stack: Vec<u16>,
    pub sp: u16,
    pub key: Vec<bool>,
    pub delay_timer: u8,
    pub sound_timer: u8,
    pub should_draw: bool,
    pub mode: RunMode,
}

impl View for Chip8 {
    type V = MachineView;

    open spec fn view(&self) -> MachineView {
        MachineView {
            opcode: self.opcode as int,
            memory: self.memory@,
            v: self.v@,
            i: self.i as int,
            pc: self.pc as int,
            gfx: self.gfx@,
            stack: self.stack@,
            sp: self.sp as int,
            key: self.key@,
            delay_timer: self.delay_timer as int,
            sound_timer: self.sound_timer as int,
            should_draw: self.should_draw,
            mode: self.mode,
        }
    }
}

/// The 80-byte font table: 16 glyphs of 5 bytes each, one glyph per hex
/// digit, preloaded at the base of memory.
pub open spec fn font_seq() -> Seq<u8> {
    seq![
        0xF0u8, 0x90u8, 0x90u8, 0x90u8, 0xF0u8, // "0"
        0x20u8, 0x60u8, 0x20u8, 0x20u8, 0x70u8, // "1"
        0xF0u8, 0x10u8, 0xF0u8, 0x80u8, 0xF0u8, // "2"
        0xF0u8, 0x10u8, 0xF0u8, 0x10u8, 0xF0u8, // "3"
        0x90u8, 0x90u8, 0xF0u8, 0x10u8, 0x10u8, // "4"
        0xF0u8, 0x80u8, 0xF0u8, 0x10u8, 0xF0u8, // "5"
        0xF0u8, 0x80u8, 0xF0u8, 0x90u8, 0xF0u8, // "6"
        0xF0u8, 0x10u8, 0x20u8, 0x40u8, 0x40u8, // "7"
        0xF0u8, 0x90u8, 0xF0u8, 0x90u8, 0xF0u8, // "8"
        0xF0u8, 0x90u8, 0xF0u8, 0x10u8, 0xF0u8, // "9"
        0xF0u8, 0x90u8, 0xF0u8, 0x90u8, 0x90u8, // "A"
        0xE0u8, 0x90u8, 0xE0u8, 0x90u8, 0xE0u8, // "B"
        0xF0u8, 0x80u8, 0x80u8, 0x80u8, 0xF0u8, // "C"
        0xE0u8, 0x90u8, 0x90u8, 0x90u8, 0xE0u8, // "D"
        0xF0u8, 0x80u8, 0xF0u8, 0x80u8, 0xF0u8, // "E"
        0xF0u8, 0x80u8, 0xF0u8, 0x80u8, 0x80u8, // "F"
    ]
}

/// The state a machine starts in: font table at the base of memory,
/// everything else zeroed, and the program counter at `0x200`.
pub open spec fn initial_state() -> MachineView {
    MachineView {
        opcode: 0,
        memory: Seq::new(4096, |k: int| if k < 80 { font_seq()[k] } else { 0u8 }),
        v: Seq::new(16, |k: int| 0u8),
        i: 0,
        pc: 0x200,
        gfx: Seq::new(2048, |k: int| 0u8),
        stack: Seq::new(16, |k: int| 0u16),
        sp: 0,
        key: Seq::new(16, |k: int| false),
        delay_timer: 0,
        sound_timer: 0,
        should_draw: false,
        mode: RunMode::Running,
    }
}

/// Memory after a program image is copied in at `0x200`.
pub open spec fn loaded_memory(mem: Seq<u8>, rom: Seq<u8>) -> Seq<u8> {
    Seq::new(4096, |k: int| if 0x200 <= k < 0x200 + rom.len() { rom[k - 0x200] } else { mem[k] })
}

/// One tick of the two timers: each decrements by one while nonzero and
/// clamps at zero.
pub open spec fn tick_spec(s: MachineView) -> MachineView {
    MachineView {
        delay_timer: if s.delay_timer > 0 { s.delay_timer - 1 } else { 0 },
        sound_timer: if s.sound_timer > 0 { s.sound_timer - 1 } else { 0 },
        ..s
    }
}

/// A key press or release reaches the keypad; a press while the machine
/// awaits one (after `Fx0A`) also stores the key in the owed register,
/// advances past the waiting instruction, and resumes execution.
pub open spec fn set_key_spec(s: MachineView, k: int, value: bool) -> MachineView {
    match s.mode {
        RunMode::AwaitingKey(x) => {
            if value {
                MachineView {
                    key: s.key.update(k, value),
                    v: s.v.update(x as int, k as u8),
                    pc: s.pc + 2,
                    mode: RunMode::Running,
                    ..s
                }
            } else {
                MachineView { key: s.key.update(k, value), ..s }
            }
        },
        RunMode::Running => MachineView { key: s.key.update(k, value), ..s },
    }
}

/// The instruction word at the program counter: two bytes composed
/// big-endian.
pub open spec fn word_at(s: MachineView) -> int {
    s.memory[s.pc] * 256 + s.memory[s.pc + 1]
}

/// Whether a word matches one of the 35 opcode patterns the dispatcher
/// knows.
pub open spec fn valid_word(w: int) -> bool {
    let a = nib0_of(w);
    let y1 = y_of(w);
    let d = n_of(w);
    if a == 0x5 {
        d == 0
    } else if a == 0x8 {
        d == 0 || d == 1 || d == 2 || d == 3 || d == 4 || d == 5 || d == 6 || d == 7 || d == 0xE
    } else if a == 0x9 {
        d == 0
    } else if a == 0xE {
        (y1 == 0x9 && d == 0xE) || (y1 == 0xA && d == 1)
    } else if a == 0xF {
        (y1 == 0x0 && d == 0x7) || (y1 == 0x0 && d == 0xA) || (y1 == 0x1 && d == 0x5) || (y1
            == 0x1 && d == 0x8) || (y1 == 0x1 && d == 0xE) || (y1 == 0x2 && d == 0x9) || (y1 == 0x3
            && d == 0x3) || (y1 == 0x5 && d == 0x5) || (y1 == 0x6 && d == 0x5)
    } else {
        true
    }
}

/// The error a fetched instruction reports, if any: an unmatched pattern, a
/// stack fault, or a memory instruction reaching past the end of memory.
/// `None` when the instruction executes.
pub open spec fn instr_err(s: MachineView) -> Option<EmulationError> {
    let w = s.opcode;
    let a = nib0_of(w);
    let x1 = x_of(w);
    let y1 = y_of(w);
    let d = n_of(w);
    if !valid_word(w) {
        Some(EmulationError::InvalidOpcode(w as u16))
    } else if a == 0x0 && x1 == 0 && y1 == 0xE && d == 0xE && s.sp == 0 {
        Some(EmulationError::StackUnderflow)
    } else if a == 0x2 && s.sp == 16 {
        Some(EmulationError::StackOverflow)
    } else if a == 0xD && s.i + d > 4096 {
        Some(EmulationError::OutOfBounds(s.i as u16))
    } else if a == 0xF && y1 == 0x3 && d == 0x3 && s.i + 3 > 4096 {
        Some(EmulationError::OutOfBounds(s.i as u16))
    } else if a == 0xF && ((y1 == 0x5 && d == 0x5) || (y1 == 0x6 && d == 0x5)) && s.i + x1 + 1
        > 4096 {
        Some(EmulationError::OutOfBounds(s.i as u16))
    } else {
        None
    }
}

/// The machine after a valid, error-free instruction executes. `rnd` is the
/// random byte a `Cxkk` instruction consumes; every other instruction
/// ignores it.
pub open spec fn exec_instr_spec(s: MachineView, rnd: u8) -> MachineView {
    let w = s.opcode;
    let a = nib0_of(w);
    let x1 = x_of(w);
    let y1 = y_of(w);
    let d = n_of(w);
    if a == 0x0 {
        if x1 == 0 && y1 == 0xE && d == 0 {
            cls_spec(s)
        } else if x1 == 0 && y1 == 0xE && d == 0xE {
            ret_spec(s)
        } else {
            sys_addr_spec(s)
        }
    } else if a == 0x1 {
        jp_addr_spec(s)
    } else if a == 0x2 {
        call_addr_spec(s)
    } else if a == 0x3 {
        se_vx_byte_spec(s)
    } else if a == 0x4 {
        sne_vx_byte_spec(s)
    } else if a == 0x5 {
        se_vx_vy_spec(s)
    } else if a == 0x6 {
        ld_vx_byte_spec(s)
    } else if a == 0x7 {
        add_vx_byte_spec(s)
    } else if a == 0x8 {
        if d == 0 {
            ld_vx_vy_spec(s)
        } else if d == 1 {
            or_vx_vy_spec(s)
        } else if d == 2 {
            and_vx_vy_spec(s)
        } else if d == 3 {
            xor_vx_vy_spec(s)
        } else if d == 4 {
            add_vx_vy_spec(s)
        } else if d == 5 {
            sub_vx_vy_spec(s)
        } else if d == 6 {
            shr_vx_vy_spec(s)
        } else if d == 7 {
            subn_vx_vy_spec(s)
        } else {
            shl_vx_vy_spec(s)
        }
    } else if a == 0x9 {
        sne_vx_vy_spec(s)
    } else if a == 0xA {
        ld_i_addr_spec(s)
    } else if a == 0xB {
        jp_v0_addr_spec(s)
    } else if a == 0xC {
        rnd_vx_byte_spec(s, rnd)
    } else if a == 0xD {
        drw_spec(s)
    } else if a == 0xE {
        if y1 == 0x9 {
            skp_vx_spec(s)
        } else {
            sknp_vx_spec(s)
        }
    } else {
        if y1 == 0x0 && d == 0x7 {
            ld_vx_dt_spec(s)
        } else if y1 == 0x0 && d == 0xA {
            ld_vx_k_spec(s)
        } else if y1 == 0x1 && d == 0x5 {
            ld_dt_vx_spec(s)
        } else if y1 == 0x1 && d == 0x8 {
            ld_st_vx_spec(s)
        } else if y1 == 0x1 && d == 0xE {
            add_i_vx_spec(s)
        } else if y1 == 0x2 && d == 0x9 {
            ld_f_vx_spec(s)
        } else if y1 == 0x3 && d == 0x3 {
            ld_b_vx_spec(s)
        } else if y1 == 0x5 && d == 0x5 {
            ld_i_vx_spec(s)
        } else {
            ld_vx_i_spec(s)
        }
    }
}

/// Everything one engine cycle may do: while a key is awaited only the
/// timers move; otherwise the instruction at the program counter is fetched,
/// dispatched and executed and the timers tick, or the cycle reports its
/// error with the machine left as the fetch found it.
pub open spec fn cycle_rel(
    pre: MachineView,
    post: MachineView,
    r: Result<CycleOutcome, EmulationError>,
) -> bool {
    if pre.mode != RunMode::Running {
        &&& r == Ok::<CycleOutcome, EmulationError>(
            CycleOutcome { drew: post.should_draw, sound_active: post.sound_timer > 0 },
        )
        &&& post == tick_spec(pre)
    } else if pre.pc >= 4095 {
        &&& r == Err::<CycleOutcome, EmulationError>(EmulationError::OutOfBounds(pre.pc as u16))
        &&& post == pre
    } else {
        let s1 = MachineView { opcode: word_at(pre), ..pre };
        match instr_err(s1) {
            Some(e) => r == Err::<CycleOutcome, EmulationError>(e) && post == s1,
            None => {
                &&& r == Ok::<CycleOutcome, EmulationError>(
                    CycleOutcome { drew: post.should_draw, sound_active: post.sound_timer > 0 },
                )
                &&& exists|rb: u8| post == tick_spec(exec_instr_spec(s1, rb))
            },
        }
    }
}

fn font_table() -> (v: Vec<u8>)
    ensures
        v@ == font_seq(),
{
    let mut v: Vec<u8> = Vec::new();
    v.push(0xF0); v.push(0x90); v.push(0x90); v.push(0x90); v.push(0xF0); // "0"
    v.push(0x20); v.push(0x60); v.push(0x20); v.push(0x20); v.push(0x70); // "1"
    v.push(0xF0); v.push(0x10); v.push(0xF0); v.push(0x80); v.push(0xF0); // "2"
    v.push(0xF0); v.push(0x10); v.push(0xF0); v.push(0x10); v.push(0xF0); // "3"
    v.push(0x90); v.push(0x90); v.push(0xF0); v.push(0x10); v.push(0x10); // "4"
    v.push(0xF0); v.push(0x80); v.push(0xF0); v.push(0x10); v.push(0xF0); // "5"
    v.push(0xF0); v.push(0x80); v.push(0xF0); v.push(0x90); v.push(0xF0); // "6"
    v.push(0xF0); v.push(0x10); v.push(0x20); v.push(0x40); v.push(0x40); // "7"
    v.push(0xF0); v.push(0x90); v.push(0xF0); v.push(0x90); v.push(0xF0); // "8"
    v.push(0xF0); v.push(0x90); v.push(0xF0); v.push(0x10); v.push(0xF0); // "9"
    v.push(0xF0); v.push(0x90); v.push(0xF0); v.push(0x90); v.push(0x90); // "A"
    v.push(0xE0); v.push(0x90); v.push(0xE0); v.push(0x90); v.push(0xE0); // "B"
    v.push(0xF0); v.push(0x80); v.push(0x80); v.push(0x80); v.push(0xF0); // "C"
    v.push(0xE0); v.push(0x90); v.push(0x90); v.push(0x90); v.push(0xE0); // "D"
    v.push(0xF0); v.push(0x80); v.push(0xF0); v.push(0x80); v.push(0xF0); // "E"
    v.push(0xF0); v.push(0x80); v.push(0xF0); v.push(0x80); v.push(0x80); // "F"
    proof {
        assert(v@ =~= font_seq());
    }
    v
}

fn zeroed_bytes(n: usize) -> (v: Vec<u8>)
    ensures
        v@ =~= Seq::new(n as nat, |k: int| 0u8),
{
    let mut v: Vec<u8> = Vec::new();
    while v.len() < n
        invariant
            v@.len() <= n,
            forall|k: int| 0 <= k < v@.len() ==> (#[trigger] v@[k]) == 0u8,
        decreases n - v@.len(),
    {
        v.push(0);
    }
    v
}

impl Chip8 {
    /// Create a machine in its start state: registers, memory, timers and
    /// framebuffer zeroed, the font table copied to the base of memory, and
    /// the program counter at `0x200`.
    pub fn initialize() -> (r: Self)
        ensures
            r@ == initial_state(),
            r@.wf(),
    {
        let mut memory = zeroed_bytes(4096);
        let fonts = font_table();
        let mut idx: usize = 0;
        while idx < 80
            invariant
                memory@.len() == 4096,
                fonts@ == font_seq(),
                idx <= 80,
                forall|k: int| 0 <= k < idx ==> (#[trigger] memory@[k]) == font_seq()[k],
                forall|k: int| idx <= k < 4096 ==> (#[trigger] memory@[k]) == 0u8,
            decreases 80 - idx,
        {
            let b = fonts[idx];
            memory.set(idx, b);
            idx += 1;
        }

        let mut v: Vec<u8> = zeroed_bytes(16);
        let gfx: Vec<u8> = zeroed_bytes(2048);

        let mut stack: Vec<u16> = Vec::new();
        while stack.len() < 16
            invariant
                stack@.len() <= 16,
                forall|k: int| 0 <= k < stack@.len() ==> (#[trigger] stack@[k]) == 0u16,
            decreases 16 - stack@.len(),
        {
            stack.push(0);
        }

        let mut key: Vec<bool> = Vec::new();
        while key.len() < 16
            invariant
                key@.len() <= 16,
                forall|k: int| 0 <= k < key@.len() ==> (#[trigger] key@[k]) == false,
            decreases 16 - key@.len(),
        {
            key.push(false);
        }

        let chip8 = Chip8 {
            opcode: 0,
            memory,
            v,
            i: 0,
            pc: 0x200,
            gfx,
            stack,
            sp: 0,
            key,
            delay_timer: 0,
            sound_timer: 0,
            should_draw: false,
            mode: RunMode::Running,
        };
        proof {
            assert(chip8@.memory =~= initial_state().memory);
            assert(chip8@.v =~= initial_state().v);
            assert(chip8@.gfx =~= initial_state().gfx);
            assert(chip8@.stack =~= initial_state().stack);
            assert(chip8@.key =~= initial_state().key);
        }
        chip8
    }

    /// Copy a program image into memory starting at `0x200`. An image that
    /// would run past the end of memory is rejected whole with
    /// [`EmulationError::RomTooLarge`] and the machine is left unchanged.
    pub fn load_rom(&mut self, rom: &Vec<u8>) -> (r: Result<(), EmulationError>)
        requires
            old(self)@.wf(),
        ensures
            final(self)@.wf(),
            rom@.len() > 3584 ==> r == Err::<(), EmulationError>(EmulationError::RomTooLarge)
                && final(self)@ == old(self)@,
            rom@.len() <= 3584 ==> r == Ok::<(), EmulationError>(())
                && final(self)@ == (MachineView {
                    memory: loaded_memory(old(self)@.memory, rom@),
                    ..old(self)@
                }),
    {
        if rom.len() > 3584 {
            return Err(EmulationError::RomTooLarge);
        }
        let mut idx: usize = 0;
        while idx < rom.len()
            invariant
                old(self)@.wf(),
                rom@.len() <= 3584,
                idx <= rom@.len(),
                self.memory@.len() == 4096,
                forall|k: int| 0x200 <= k < 0x200 + idx ==> (#[trigger] self.memory@[k]) == rom@[k - 0x200],
                forall|k: int| 0 <= k < 4096 && !(0x200 <= k < 0x200 + idx) ==> (#[trigger] self.memory@[k]) == old(self)@.memory[k],
                *self == (Chip8 { memory: self.memory, ..*old(self) }),
            decreases rom@.len() - idx,
        {
            let b = rom[idx];
            self.memory.set(0x200 + idx, b);
            idx += 1;
        }
        proof {
            assert(self@.memory =~= loaded_memory(old(self)@.memory, rom@));
        }
        Ok(())
    }

    /// The draw flag as the last cycle left it.
    pub fn should_draw(&self) -> (r: bool)
        ensures
            r == self@.should_draw,
    {
        self.should_draw
    }

    /// Read and clear the draw flag: the rendering host consumes it once per
    /// frame.
    pub fn take_draw_flag(&mut self) -> (r: bool)
        ensures
            r == old(self)@.should_draw,
            final(self)@ == (MachineView { should_draw: false, ..old(self)@ }),
    {
        let r = self.should_draw;
        self.should_draw = false;
        r
    }

    /// True while the sound timer is nonzero: the audio host keeps a tone
    /// playing exactly while this holds.
    pub fn is_sound_active(&self) -> (r: bool)
        ensures
            r == (self@.sound_timer > 0),
    {
        self.sound_timer > 0
    }

    /// The 2048-cell framebuffer, row-major, index `y * 64 + x`.
    pub fn framebuffer(&self) -> (r: &Vec<u8>)
        ensures
            r@ == self@.gfx,
    {
        &self.gfx
    }

    /// Store key press state. A press delivered while the machine awaits a
    /// key (`Fx0A`) also stores the key value in the owed register and
    /// resumes execution.
    pub fn set_key(&mut self, key: usize, value: bool)
        requires
            old(self)@.wf(),
            key < 16,
        ensures
            final(self)@.wf(),
            final(self)@ == set_key_spec(old(self)@, key as int, value),
    {
        self.key.set(key, value);
        match self.mode {
            RunMode::AwaitingKey(x) => {
                if value {
                    self.v.set(x as usize, key as u8);
                    self.pc = self.pc + 2;
                    self.mode = RunMode::Running;
                }
            },
            RunMode::Running => {},
        }
    }

    /// One cycle of the engine: fetch the word at the program counter,
    /// decode it, dispatch to the matching handler, tick the timers, and
    /// report whether a redraw is due and whether the tone is on. While a
    /// key is awaited nothing is fetched and only the timers move. A fetch
    /// past the end of memory, an unmatched pattern, a stack fault or a
    /// memory instruction reaching out of memory is reported as the typed
    /// error, with the machine left exactly as the fetch found it.
    pub fn emulate_cycle(&mut self) -> (r: Result<CycleOutcome, EmulationError>)
        requires
            old(self)@.wf(),
        ensures
            final(self)@.wf(),
            cycle_rel(old(self)@, final(self)@, r),
    {
        match self.mode {
            RunMode::AwaitingKey(_) => {
                self.tick_timers();
                return Ok(CycleOutcome {
                    drew: self.should_draw,
                    sound_active: self.sound_timer > 0,
                });
            },
            RunMode::Running => {},
        }

        // fetch opcode
        if self.pc >= 4095 {
            return Err(EmulationError::OutOfBounds(self.pc));
        }
        let counter = self.pc as usize;
        let high_byte = self.memory[counter];
        let low_byte = self.memory[counter + 1];
        self.opcode = (high_byte as u16) * 256 + (low_byte as u16);

        let ghost s1 = self@;
        proof {
            assert(s1 == (MachineView { opcode: word_at(old(self)@), ..old(self)@ }));
        }

        // decode opcode
        let vars = opcode_to_variables(&self.opcode);

        // match opcodes to instructions
        match (vars.nibbles[0], vars.nibbles[1], vars.nibbles[2], vars.nibbles[3]) {
            (0x0, 0x0, 0xE, 0x0) => {
                cls(self);
                proof {
                    assert(instr_err(s1) == None::<EmulationError>);
                    assert(self@ == exec_instr_spec(s1, 0u8));
                    assert(exists|rb: u8| self@ == exec_instr_spec(s1, rb));
                }
            },
            (0x0, 0x0, 0xE, 0xE) => {
                match ret(self) {
                    Ok(()) => {
                        proof {
                            assert(instr_err(s1) == None::<EmulationError>);
                            assert(self@ == exec_instr_spec(s1, 0u8));
                            assert(exists|rb: u8| self@ == exec_instr_spec(s1, rb));
                        }
                    },
                    Err(e) => {
                        proof {
                            assert(instr_err(s1) == Some(e));
                            assert(self@ == s1);
                        }
                        return Err(e);
                    },
                }
            },
            (0x0, _, _, _) => {
                sys_addr(self);
                proof {
                    assert(instr_err(s1) == None::<EmulationError>);
                    assert(self@ == exec_instr_spec(s1, 0u8));
                    assert(exists|rb: u8| self@ == exec_instr_spec(s1, rb));
                }
            },
            (0x1, _, _, _) => {
                jp_addr(self);
                proof {
                    assert(instr_err(s1) == None::<EmulationError>);
                    assert(self@ == exec_instr_spec(s1, 0u8));
                    assert(exists|rb: u8| self@ == exec_instr_spec(s1, rb));
                }
            },
            (0x2, _, _, _) => {
                match call_addr(self) {
                    Ok(()) => {
                        proof {
                            assert(instr_err(s1) == None::<EmulationError>);
                            assert(self@ == exec_instr_spec(s1, 0u8));
                            assert(exists|rb: u8| self@ == exec_instr_spec(s1, rb));
                        }
                    },
                    Err(e) => {
                        proof {
                            assert(instr_err(s1) == Some(e));
                            assert(self@ == s1);
                        }
                        return Err(e);
                    },
                }
            },
            (0x3, _, _, _) => {
                se_vx_byte(self);
                proof {
                    assert(instr_err(s1) == None::<EmulationError>);
                    assert(self@ == exec_instr_spec(s1, 0u8));
                    assert(exists|rb: u8| self@ == exec_instr_spec(s1, rb));
                }
            },
            (0x4, _, _, _) => {
                sne_vx_byte(self);
                proof {
                    assert(instr_err(s1) == None::<EmulationError>);
                    assert(self@ == exec_instr_spec(s1, 0u8));
                    assert(exists|rb: u8| self@ == exec_instr_spec(s1, rb));
                }
            },
            (0x5, _, _, 0x0) => {
                se_vx_vy(self);
                proof {
                    assert(instr_err(s1) == None::<EmulationError>);
                    assert(self@ == exec_instr_spec(s1, 0u8));
                    assert(exists|rb: u8| self@ == exec_instr_spec(s1, rb));
                }
            },
            (0x6, _, _, _) => {
                ld_vx_byte(self);
                proof {
                    assert(instr_err(s1) == None::<EmulationError>);
                    assert(self@ == exec_instr_spec(s1, 0u8));
                    assert(exists|rb: u8| self@ == exec_instr_spec(s1, rb));
                }
            },
            (0x7, _, _, _) => {
                add_vx_byte(self);
                proof {
                    assert(instr_err(s1) == None::<EmulationError>);
                    assert(self@ == exec_instr_spec(s1, 0u8));
                    assert(exists|rb: u8| self@ == exec_instr_spec(s1, rb));
                }
            },
            (0x8, _, _, 0x0) => {
                ld_vx_vy(self);
                proof {
                    assert(instr_err(s1) == None::<EmulationError>);
                    assert(self@ == exec_instr_spec(s1, 0u8));
                    assert(exists|rb: u8| self@ == exec_instr_spec(s1, rb));
                }
            },
            (0x8, _, _, 0x1) => {
                or_vx_vy(self);
                proof {
                    assert(instr_err(s1) == None::<EmulationError>);
                    assert(self@ == exec_instr_spec(s1, 0u8));
                    assert(exists|rb: u8| self@ == exec_instr_spec(s1, rb));
                }
            },
            (0x8, _, _, 0x2) => {
                and_vx_vy(self);
                proof {
                    assert(instr_err(s1) == None::<EmulationError>);
                    assert(self@ == exec_instr_spec(s1, 0u8));
                    assert(exists|rb: u8| self@ == exec_instr_spec(s1, rb));
                }
            },
            (0x8, _, _, 0x3) => {
                xor_vx_vy(self);
                proof {
                    assert(instr_err(s1) == None::<EmulationError>);
                    assert(self@ == exec_instr_spec(s1, 0u8));
                    assert(exists|rb: u8| self@ == exec_instr_spec(s1, rb));
                }
            },
            (0x8, _, _, 0x4) => {
                add_vx_vy(self);
                proof {
                    assert(instr_err(s1) == None::<EmulationError>);
                    assert(self@ == exec_instr_spec(s1, 0u8));
                    assert(exists|rb: u8| self@ == exec_instr_spec(s1, rb));
                }
            },
            (0x8, _, _, 0x5) => {
                sub_vx_vy(self);
                proof {
                    assert(instr_err(s1) == None::<EmulationError>);
                    assert(self@ == exec_instr_spec(s1, 0u8));
                    assert(exists|rb: u8| self@ == exec_instr_spec(s1, rb));
                }
            },
            (0x8, _, _, 0x6) => {
                shr_vx_vy(self);
                proof {
                    assert(instr_err(s1) == None::<EmulationError>);
                    assert(self@ == exec_instr_spec(s1, 0u8));
                    assert(exists|rb: u8| self@ == exec_instr_spec(s1, rb));
                }
            },
            (0x8, _, _, 0x7) => {
                subn_vx_vy(self);
                proof {
                    assert(instr_err(s1) == None::<EmulationError>);
                    assert(self@ == exec_instr_spec(s1, 0u8));
                    assert(exists|rb: u8| self@ == exec_instr_spec(s1, rb));
                }
            },
            (0x8, _, _, 0xE) => {
                shl_vx_vy(self);
                proof {
                    assert(instr_err(s1) == None::<EmulationError>);
                    assert(self@ == exec_instr_spec(s1, 0u8));
                    assert(exists|rb: u8| self@ == exec_instr_spec(s1, rb));
                }
            },
            (0x9, _, _, 0x0) => {
                sne_vx_vy(self);
                proof {
                    assert(instr_err(s1) == None::<EmulationError>);
                    assert(self@ == exec_instr_spec(s1, 0u8));
                    assert(exists|rb: u8| self@ == exec_instr_spec(s1, rb));
                }
            },
            (0xA, _, _, _) => {
                ld_i_addr(self);
                proof {
                    assert(instr_err(s1) == None::<EmulationError>);
                    assert(self@ == exec_instr_spec(s1, 0u8));
                    assert(exists|rb: u8| self@ == exec_instr_spec(s1, rb));
                }
            },
            (0xB, _, _, _) => {
                jp_v0_addr(self);
                proof {
                    assert(instr_err(s1) == None::<EmulationError>);
                    assert(self@ == exec_instr_spec(s1, 0u8));
                    assert(exists|rb: u8| self@ == exec_instr_spec(s1, rb));
                }
            },
            (0xC, _, _, _) => {
                let rnd = gen_rand_u8();
                rnd_vx_byte(self, rnd);
                proof {
                    assert(instr_err(s1) == None::<EmulationError>);
                    assert(self@ == exec_instr_spec(s1, rnd));
                    assert(exists|rb: u8| self@ == exec_instr_spec(s1, rb));
                }
            },
            (0xD, _, _, _) => {
                match drw_vx_vy_nibble(self) {
                    Ok(()) => {
                        proof {
                            assert(instr_err(s1) == None::<EmulationError>);
                            assert(self@ == exec_instr_spec(s1, 0u8));
                            assert(exists|rb: u8| self@ == exec_instr_spec(s1, rb));
                        }
                    },
                    Err(e) => {
                        proof {
                            assert(instr_err(s1) == Some(e));
                            assert(self@ == s1);
                        }
                        return Err(e);
                    },
                }
            },
            (0xE, _, 0x9, 0xE) => {
                skp_vx(self);
                proof {
                    assert(instr_err(s1) == None::<EmulationError>);
                    assert(self@ == exec_instr_spec(s1, 0u8));
                    assert(exists|rb: u8| self@ == exec_instr_spec(s1, rb));
                }
            },
            (0xE, _, 0xA, 0x1) => {
                sknp_vx(self);
                proof {
                    assert(instr_err(s1) == None::<EmulationError>);
                    assert(self@ == exec_instr_spec(s1, 0u8));
                    assert(exists|rb: u8| self@ == exec_instr_spec(s1, rb));
                }
            },
            (0xF, _, 0x0, 0x7) => {
                ld_vx_dt(self);
                proof {
                    assert(instr_err(s1) == None::<EmulationError>);
                    assert(self@ == exec_instr_spec(s1, 0u8));
                    assert(exists|rb: u8| self@ == exec_instr_spec(s1, rb));
                }
            },
            (0xF, _, 0x0, 0xA) => {
                ld_vx_k(self);
                proof {
                    assert(instr_err(s1) == None::<EmulationError>);
                    assert(self@ == exec_instr_spec(s1, 0u8));
                    assert(exists|rb: u8| self@ == exec_instr_spec(s1, rb));
                }
            },
            (0xF, _, 0x1, 0x5) => {
                ld_dt_vx(self);
                proof {
                    assert(instr_err(s1) == None::<EmulationError>);
                    assert(self@ == exec_instr_spec(s1, 0u8));
                    assert(exists|rb: u8| self@ == exec_instr_spec(s1, rb));
                }
            },
            (0xF, _, 0x1, 0x8) => {
                ld_st_vx(self);
                proof {
                    assert(instr_err(s1) == None::<EmulationError>);
                    assert(self@ == exec_instr_spec(s1, 0u8));
                    assert(exists|rb: u8| self@ == exec_instr_spec(s1, rb));
                }
            },
            (0xF, _, 0x1, 0xE) => {
                add_i_vx(self);
                proof {
                    assert(instr_err(s1) == None::<EmulationError>);
                    assert(self@ == exec_instr_spec(s1, 0u8));
                    assert(exists|rb: u8| self@ == exec_instr_spec(s1, rb));
                }
            },
            (0xF, _, 0x2, 0x9) => {
                ld_f_vx(self);
                proof {
                    assert(instr_err(s1) == None::<EmulationError>);
                    assert(self@ == exec_instr_spec(s1, 0u8));
                    assert(exists|rb: u8| self@ == exec_instr_spec(s1, rb));
                }
            },
            (0xF, _, 0x3, 0x3) => {
                match ld_b_vx(self) {
                    Ok(()) => {
                        proof {
                            assert(instr_err(s1) == None::<EmulationError>);
                            assert(self@ == exec_instr_spec(s1, 0u8));
                            assert(exists|rb: u8| self@ == exec_instr_spec(s1, rb));
                        }
                    },
                    Err(e) => {
                        proof {
                            assert(instr_err(s1) == Some(e));
                            assert(self@ == s1);
                        }
                        return Err(e);
                    },
                }
            },
            (0xF, _, 0x5, 0x5) => {
                match ld_i_vx(self) {
                    Ok(()) => {
                        proof {
                            assert(instr_err(s1) == None::<EmulationError>);
                            assert(self@ == exec_instr_spec(s1, 0u8));
                            assert(exists|rb: u8| self@ == exec_instr_spec(s1, rb));
                        }
                    },
                    Err(e) => {
                        proof {
                            assert(instr_err(s1) == Some(e));
                            assert(self@ == s1);
                        }
                        return Err(e);
                    },
                }
            },
            (0xF, _, 0x6, 0x5) => {
                match ld_vx_i(self) {
                    Ok(()) => {
                        proof {
                            assert(instr_err(s1) == None::<EmulationError>);
                            assert(self@ == exec_instr_spec(s1, 0u8));
                            assert(exists|rb: u8| self@ == exec_instr_spec(s1, rb));
                        }
                    },
                    Err(e) => {
                        proof {
                            assert(instr_err(s1) == Some(e));
                            assert(self@ == s1);
                        }
                        return Err(e);
                    },
                }
            },
            _ => {
                proof {
                    assert(!valid_word(s1.opcode));
                    assert(instr_err(s1) == Some(EmulationError::InvalidOpcode(s1.opcode as u16)));
                    assert(self@ == s1);
                }
                return Err(EmulationError::InvalidOpcode(self.opcode));
            },
        }

        // update timers
        let ghost mid = self@;
        self.tick_timers();

        proof {
            let rb = choose|rb: u8| mid == exec_instr_spec(s1, rb);
            assert(self@ == tick_spec(exec_instr_spec(s1, rb)));
            assert(exists|rb2: u8| self@ == tick_spec(exec_instr_spec(s1, rb2)));
        }
        Ok(CycleOutcome { drew: self.should_draw, sound_active: self.sound_timer > 0 })
    }

    /// One tick of the two timers, decoupled from instruction dispatch so a
    /// host can run it on its own fixed-rate schedule.
    pub fn tick_timers(&mut self)
        ensures
            final(self)@ == tick_spec(old(self)@),
            old(self)@.wf() ==> final(self)@.wf(),
    {
        if self.delay_timer > 0 {
            self.delay_timer = self.delay_timer - 1;
        }
        if self.sound_timer > 0 {
            self.sound_timer = self.sound_timer - 1;
        }
    }
}

} // verus!

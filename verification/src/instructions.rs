//! One handler per CHIP-8 opcode. Each handler is specified by a pure
//! transition function on [`MachineView`]; the engine's cycle contract is
//! assembled from these same transition functions.

use vstd::prelude::*;

use crate::chip8::Chip8;
use crate::chip8::EmulationError;
use crate::chip8::MachineView;
use crate::chip8::RunMode;
use crate::utils::kk_of;
use crate::utils::n_of;
use crate::utils::nnn_of;
use crate::utils::opcode_to_variables;
use crate::utils::x_of;
use crate::utils::y_of;
use vstd::arithmetic::div_mod::lemma_add_mod_noop_right;
use vstd::arithmetic::div_mod::lemma_fundamental_div_mod;
use vstd::arithmetic::div_mod::lemma_fundamental_div_mod_converse_div;
use vstd::arithmetic::div_mod::lemma_fundamental_div_mod_converse_mod;
use vstd::arithmetic::div_mod::lemma_mod_division_less_than_divisor;
use vstd::arithmetic::div_mod::lemma_mod_sub_multiples_vanish;
use vstd::arithmetic::div_mod::lemma_small_mod;

verus! {

/// `0nnn` - Jump to a machine code routine at nnn (legacy; treated as a jump).
pub open spec fn sys_addr_spec(s: MachineView) -> MachineView {
    MachineView { pc: nnn_of(s.opcode), ..s }
}

/// 0nnn - Jump to a machine code routine at nnn.
pub fn sys_addr(chip8: &mut Chip8)
    requires
        old(chip8)@.wf(),
        old(chip8)@.mode == RunMode::Running,
    ensures
        final(chip8)@.wf(),
        final(chip8)@ == sys_addr_spec(old(chip8)@),
{
    chip8.pc = chip8.opcode % 0x1000;
}

/// `00E0` - Clear the display: every framebuffer cell back to 0.
pub open spec fn cls_spec(s: MachineView) -> MachineView {
    MachineView { gfx: Seq::new(2048, |p: int| 0u8), pc: s.pc + 2, ..s }
}

/// 00E0 - Clear the display.
pub fn cls(chip8: &mut Chip8)
    requires
        old(chip8)@.wf(),
        old(chip8)@.mode == RunMode::Running,
        old(chip8)@.pc < 4095,
    ensures
        final(chip8)@.wf(),
        final(chip8)@ == cls_spec(old(chip8)@),
{
    let mut idx: usize = 0;
    while idx < 2048
        invariant
            idx <= 2048,
            chip8.gfx@.len() == 2048,
            forall|p: int| 0 <= p < idx ==> (#[trigger] chip8.gfx@[p]) == 0u8,
            *chip8 == (Chip8 { gfx: chip8.gfx, ..*old(chip8) }),
        decreases 2048 - idx,
    {
        chip8.gfx.set(idx, 0);
        idx += 1;
    }
    chip8.pc = chip8.pc + 2;
    proof {
        assert(chip8@.gfx =~= cls_spec(old(chip8)@).gfx);
    }
}

/// `00EE` - Return from a subroutine: pop the saved address and resume just
/// past the call instruction. The pop is owed only to a nonempty stack.
pub open spec fn ret_spec(s: MachineView) -> MachineView {
    MachineView { pc: s.stack[s.sp - 1] + 2, sp: s.sp - 1, ..s }
}

/// 00EE - Return from a subroutine.
pub fn ret(chip8: &mut Chip8) -> (r: Result<(), EmulationError>)
    requires
        old(chip8)@.wf(),
        old(chip8)@.mode == RunMode::Running,
    ensures
        final(chip8)@.wf(),
        old(chip8)@.sp == 0 ==> r == Err::<(), EmulationError>(EmulationError::StackUnderflow)
            && final(chip8)@ == old(chip8)@,
        old(chip8)@.sp > 0 ==> r == Ok::<(), EmulationError>(())
            && final(chip8)@ == ret_spec(old(chip8)@),
{
    if chip8.sp == 0 {
        return Err(EmulationError::StackUnderflow);
    }
    let top = chip8.sp - 1;
    chip8.pc = chip8.stack[top as usize] + 2;
    chip8.sp = top;
    Ok(())
}

/// `1nnn` - Jump to location nnn.
pub open spec fn jp_addr_spec(s: MachineView) -> MachineView {
    MachineView { pc: nnn_of(s.opcode), ..s }
}

/// `1nnn` - Jump to location nnn.
pub fn jp_addr(chip8: &mut Chip8)
    requires
        old(chip8)@.wf(),
        old(chip8)@.mode == RunMode::Running,
    ensures
        final(chip8)@.wf(),
        final(chip8)@ == jp_addr_spec(old(chip8)@),
{
    let vars = opcode_to_variables(&chip8.opcode);
    chip8.pc = vars.nnn;
}

/// `2nnn` - Call the subroutine at nnn: save the address of the call
/// instruction on the stack and jump. The push is owed only while fewer than
/// 16 entries are in use.
pub open spec fn call_addr_spec(s: MachineView) -> MachineView {
    MachineView {
        stack: s.stack.update(s.sp, s.pc as u16),
        sp: s.sp + 1,
        pc: nnn_of(s.opcode),
        ..s
    }
}

/// `2nnn` - Call subroutine at nnn.
pub fn call_addr(chip8: &mut Chip8) -> (r: Result<(), EmulationError>)
    requires
        old(chip8)@.wf(),
        old(chip8)@.mode == RunMode::Running,
        old(chip8)@.pc < 4095,
    ensures
        final(chip8)@.wf(),
        old(chip8)@.sp == 16 ==> r == Err::<(), EmulationError>(EmulationError::StackOverflow)
            && final(chip8)@ == old(chip8)@,
        old(chip8)@.sp < 16 ==> r == Ok::<(), EmulationError>(())
            && final(chip8)@ == call_addr_spec(old(chip8)@),
{
    if chip8.sp >= 16 {
        return Err(EmulationError::StackOverflow);
    }
    let vars = opcode_to_variables(&chip8.opcode);
    chip8.stack.set(chip8.sp as usize, chip8.pc);
    chip8.sp = chip8.sp + 1;
    chip8.pc = vars.nnn;
    Ok(())
}

/// `3xkk` - Skip the next instruction if V[x] = kk.
pub open spec fn se_vx_byte_spec(s: MachineView) -> MachineView {
    MachineView {
        pc: s.pc + if s.v[x_of(s.opcode)] as int == kk_of(s.opcode) { 4int } else { 2int },
        ..s
    }
}

/// `3xkk` - Skip next instruction if Vx = kk.
pub fn se_vx_byte(chip8: &mut Chip8)
    requires
        old(chip8)@.wf(),
        old(chip8)@.mode == RunMode::Running,
        old(chip8)@.pc < 4095,
    ensures
        final(chip8)@.wf(),
        final(chip8)@ == se_vx_byte_spec(old(chip8)@),
{
    let vars = opcode_to_variables(&chip8.opcode);

    if chip8.v[vars.x] == vars.kk {
        chip8.pc = chip8.pc + 4;
    } else {
        chip8.pc = chip8.pc + 2;
    }
}

/// `4xkk` - Skip the next instruction if V[x] != kk.
pub open spec fn sne_vx_byte_spec(s: MachineView) -> MachineView {
    MachineView {
        pc: s.pc + if s.v[x_of(s.opcode)] as int != kk_of(s.opcode) { 4int } else { 2int },
        ..s
    }
}

/// `4xkk` - Skip next instruction if Vx != kk.
pub fn sne_vx_byte(chip8: &mut Chip8)
    requires
        old(chip8)@.wf(),
        old(chip8)@.mode == RunMode::Running,
        old(chip8)@.pc < 4095,
    ensures
        final(chip8)@.wf(),
        final(chip8)@ == sne_vx_byte_spec(old(chip8)@),
{
    let vars = opcode_to_variables(&chip8.opcode);

    if chip8.v[vars.x] != vars.kk {
        chip8.pc = chip8.pc + 4;
    } else {
        chip8.pc = chip8.pc + 2;
    }
}

/// `5xy0` - Skip the next instruction if V[x] = V[y].
pub open spec fn se_vx_vy_spec(s: MachineView) -> MachineView {
    MachineView {
        pc: s.pc + if s.v[x_of(s.opcode)] == s.v[y_of(s.opcode)] { 4int } else { 2int },
        ..s
    }
}

/// `5xy0` - Skip next instruction if Vx = Vy.
pub fn se_vx_vy(chip8: &mut Chip8)
    requires
        old(chip8)@.wf(),
        old(chip8)@.mode == RunMode::Running,
        old(chip8)@.pc < 4095,
    ensures
        final(chip8)@.wf(),
        final(chip8)@ == se_vx_vy_spec(old(chip8)@),
{
    let vars = opcode_to_variables(&chip8.opcode);

    if chip8.v[vars.x] == chip8.v[vars.y] {
        chip8.pc = chip8.pc + 4;
    } else {
        chip8.pc = chip8.pc + 2;
    }
}

/// `6xkk` - Set V[x] = kk.
pub open spec fn ld_vx_byte_spec(s: MachineView) -> MachineView {
    MachineView {
        v: s.v.update(x_of(s.opcode), kk_of(s.opcode) as u8),
        pc: s.pc + 2,
        ..s
    }
}

/// `6xkk` - Set Vx = kk.
pub fn ld_vx_byte(chip8: &mut Chip8)
    requires
        old(chip8)@.wf(),
        old(chip8)@.mode == RunMode::Running,
        old(chip8)@.pc < 4095,
    ensures
        final(chip8)@.wf(),
        final(chip8)@ == ld_vx_byte_spec(old(chip8)@),
{
    let vars = opcode_to_variables(&chip8.opcode);
    chip8.v.set(vars.x, vars.kk);
    chip8.pc = chip8.pc + 2;
}

/// `7xkk` - Set V[x] = V[x] + kk with 8-bit wraparound; the flag register is
/// not touched.
pub open spec fn add_vx_byte_spec(s: MachineView) -> MachineView {
    MachineView {
        v: s.v.update(
            x_of(s.opcode),
            ((s.v[x_of(s.opcode)] + kk_of(s.opcode)) % 256) as u8,
        ),
        pc: s.pc + 2,
        ..s
    }
}

/// `7xkk` - Set Vx = Vx + kk.
pub fn add_vx_byte(chip8: &mut Chip8)
    requires
        old(chip8)@.wf(),
        old(chip8)@.mode == RunMode::Running,
        old(chip8)@.pc < 4095,
    ensures
        final(chip8)@.wf(),
        final(chip8)@ == add_vx_byte_spec(old(chip8)@),
{
    let vars = opcode_to_variables(&chip8.opcode);
    let sum: u16 = chip8.v[vars.x] as u16 + vars.kk as u16;
    chip8.v.set(vars.x, (sum % 256) as u8);
    chip8.pc = chip8.pc + 2;
}

/// `8xy0` - Set V[x] = V[y].
pub open spec fn ld_vx_vy_spec(s: MachineView) -> MachineView {
    MachineView {
        v: s.v.update(x_of(s.opcode), s.v[y_of(s.opcode)]),
        pc: s.pc + 2,
        ..s
    }
}

/// `8xy0` - Set Vx = Vy.
pub fn ld_vx_vy(chip8: &mut Chip8)
    requires
        old(chip8)@.wf(),
        old(chip8)@.mode == RunMode::Running,
        old(chip8)@.pc < 4095,
    ensures
        final(chip8)@.wf(),
        final(chip8)@ == ld_vx_vy_spec(old(chip8)@),
{
    let vars = opcode_to_variables(&chip8.opcode);
    let vy = chip8.v[vars.y];
    chip8.v.set(vars.x, vy);
    chip8.pc = chip8.pc + 2;
}

/// `8xy1` - Set V[x] = V[x] OR V[y].
pub open spec fn or_vx_vy_spec(s: MachineView) -> MachineView {
    MachineView {
        v: s.v.update(x_of(s.opcode), s.v[x_of(s.opcode)] | s.v[y_of(s.opcode)]),
        pc: s.pc + 2,
        ..s
    }
}

/// `8xy1` - Set Vx = Vx OR Vy.
pub fn or_vx_vy(chip8: &mut Chip8)
    requires
        old(chip8)@.wf(),
        old(chip8)@.mode == RunMode::Running,
        old(chip8)@.pc < 4095,
    ensures
        final(chip8)@.wf(),
        final(chip8)@ == or_vx_vy_spec(old(chip8)@),
{
    let vars = opcode_to_variables(&chip8.opcode);
    let r = chip8.v[vars.x] | chip8.v[vars.y];
    chip8.v.set(vars.x, r);
    chip8.pc = chip8.pc + 2;
}

/// `8xy2` - Set V[x] = V[x] AND V[y].
pub open spec fn and_vx_vy_spec(s: MachineView) -> MachineView {
    MachineView {
        v: s.v.update(x_of(s.opcode), s.v[x_of(s.opcode)] & s.v[y_of(s.opcode)]),
        pc: s.pc + 2,
        ..s
    }
}

/// `8xy2` - Set Vx = Vx AND Vy.
pub fn and_vx_vy(chip8: &mut Chip8)
    requires
        old(chip8)@.wf(),
        old(chip8)@.mode == RunMode::Running,
        old(chip8)@.pc < 4095,
    ensures
        final(chip8)@.wf(),
        final(chip8)@ == and_vx_vy_spec(old(chip8)@),
{
    let vars = opcode_to_variables(&chip8.opcode);
    let r = chip8.v[vars.x] & chip8.v[vars.y];
    chip8.v.set(vars.x, r);
    chip8.pc = chip8.pc + 2;
}

/// `8xy3` - Set V[x] = V[x] XOR V[y].
pub open spec fn xor_vx_vy_spec(s: MachineView) -> MachineView {
    MachineView {
        v: s.v.update(x_of(s.opcode), s.v[x_of(s.opcode)] ^ s.v[y_of(s.opcode)]),
        pc: s.pc + 2,
        ..s
    }
}

/// `8xy3` - Set Vx = Vx XOR Vy.
pub fn xor_vx_vy(chip8: &mut Chip8)
    requires
        old(chip8)@.wf(),
        old(chip8)@.mode == RunMode::Running,
        old(chip8)@.pc < 4095,
    ensures
        final(chip8)@.wf(),
        final(chip8)@ == xor_vx_vy_spec(old(chip8)@),
{
    let vars = opcode_to_variables(&chip8.opcode);
    let r = chip8.v[vars.x] ^ chip8.v[vars.y];
    chip8.v.set(vars.x, r);
    chip8.pc = chip8.pc + 2;
}

/// `8xy4` - Set V[x] = V[x] + V[y] with wraparound; VF reports the carry:
/// 1 when the true sum exceeds 255, else 0. When x is 15 the flag wins.
pub open spec fn add_vx_vy_spec(s: MachineView) -> MachineView {
    let sum = s.v[x_of(s.opcode)] + s.v[y_of(s.opcode)];
    MachineView {
        v: s.v
            .update(x_of(s.opcode), (sum % 256) as u8)
            .update(15, if sum > 255 { 1u8 } else { 0u8 }),
        pc: s.pc + 2,
        ..s
    }
}

/// `8xy4` - Set Vx = Vx + Vy, set VF = carry.
pub fn add_vx_vy(chip8: &mut Chip8)
    requires
        old(chip8)@.wf(),
        old(chip8)@.mode == RunMode::Running,
        old(chip8)@.pc < 4095,
    ensures
        final(chip8)@.wf(),
        final(chip8)@ == add_vx_vy_spec(old(chip8)@),
{
    let vars = opcode_to_variables(&chip8.opcode);
    let sum: u16 = chip8.v[vars.x] as u16 + chip8.v[vars.y] as u16;
    chip8.v.set(vars.x, (sum % 256) as u8);
    chip8.v.set(0xF, if sum > 255 { 1 } else { 0 });
    chip8.pc = chip8.pc + 2;
}

/// `8xy5` - Set V[x] = V[x] - V[y], always performed with wraparound; VF
/// reports NOT borrow: 1 when V[x] >= V[y], else 0. When x is 15 the flag
/// wins.
pub open spec fn sub_vx_vy_spec(s: MachineView) -> MachineView {
    let d = s.v[x_of(s.opcode)] - s.v[y_of(s.opcode)];
    MachineView {
        v: s.v
            .update(x_of(s.opcode), (if d >= 0 { d } else { d + 256 }) as u8)
            .update(15, if d >= 0 { 1u8 } else { 0u8 }),
        pc: s.pc + 2,
        ..s
    }
}

/// `8xy5` - Set Vx = Vx - Vy, set VF = NOT borrow.
pub fn sub_vx_vy(chip8: &mut Chip8)
    requires
        old(chip8)@.wf(),
        old(chip8)@.mode == RunMode::Running,
        old(chip8)@.pc < 4095,
    ensures
        final(chip8)@.wf(),
        final(chip8)@ == sub_vx_vy_spec(old(chip8)@),
{
    let vars = opcode_to_variables(&chip8.opcode);
    let vx = chip8.v[vars.x];
    let vy = chip8.v[vars.y];
    let diff: u8 = if vx >= vy {
        vx - vy
    } else {
        ((vx as u16 + 256) - vy as u16) as u8
    };
    chip8.v.set(vars.x, diff);
    chip8.v.set(0xF, if vx >= vy { 1 } else { 0 });
    chip8.pc = chip8.pc + 2;
}

/// `8xy6` - Set V[x] = V[x] SHR 1; VF receives the bit shifted out (the low
/// bit before the shift). When x is 15 the flag wins.
pub open spec fn shr_vx_vy_spec(s: MachineView) -> MachineView {
    MachineView {
        v: s.v
            .update(x_of(s.opcode), (s.v[x_of(s.opcode)] / 2) as u8)
            .update(15, (s.v[x_of(s.opcode)] % 2) as u8),
        pc: s.pc + 2,
        ..s
    }
}

/// `8xy6` - Set Vx = Vx SHR 1.
pub fn shr_vx_vy(chip8: &mut Chip8)
    requires
        old(chip8)@.wf(),
        old(chip8)@.mode == RunMode::Running,
        old(chip8)@.pc < 4095,
    ensures
        final(chip8)@.wf(),
        final(chip8)@ == shr_vx_vy_spec(old(chip8)@),
{
    let vars = opcode_to_variables(&chip8.opcode);
    let vx = chip8.v[vars.x];
    chip8.v.set(vars.x, vx / 2);
    chip8.v.set(0xF, vx % 2);
    chip8.pc = chip8.pc + 2;
}

/// `8xy7` - Set V[x] = V[y] - V[x], always performed with wraparound; VF
/// reports NOT borrow: 1 when V[y] >= V[x], else 0. When x is 15 the flag
/// wins.
pub open spec fn subn_vx_vy_spec(s: MachineView) -> MachineView {
    let d = s.v[y_of(s.opcode)] - s.v[x_of(s.opcode)];
    MachineView {
        v: s.v
            .update(x_of(s.opcode), (if d >= 0 { d } else { d + 256 }) as u8)
            .update(15, if d >= 0 { 1u8 } else { 0u8 }),
        pc: s.pc + 2,
        ..s
    }
}

/// `8xy7` - Set Vx = Vy - Vx, set VF = NOT borrow.
pub fn subn_vx_vy(chip8: &mut Chip8)
    requires
        old(chip8)@.wf(),
        old(chip8)@.mode == RunMode::Running,
        old(chip8)@.pc < 4095,
    ensures
        final(chip8)@.wf(),
        final(chip8)@ == subn_vx_vy_spec(old(chip8)@),
{
    let vars = opcode_to_variables(&chip8.opcode);
    let vx = chip8.v[vars.x];
    let vy = chip8.v[vars.y];
    let diff: u8 = if vy >= vx {
        vy - vx
    } else {
        ((vy as u16 + 256) - vx as u16) as u8
    };
    chip8.v.set(vars.x, diff);
    chip8.v.set(0xF, if vy >= vx { 1 } else { 0 });
    chip8.pc = chip8.pc + 2;
}

/// `8xyE` - Set V[x] = V[x] SHL 1 with wraparound; VF receives the bit
/// shifted out (the high bit before the shift). When x is 15 the flag wins.
pub open spec fn shl_vx_vy_spec(s: MachineView) -> MachineView {
    MachineView {
        v: s.v
            .update(x_of(s.opcode), ((s.v[x_of(s.opcode)] * 2) % 256) as u8)
            .update(15, (s.v[x_of(s.opcode)] / 128) as u8),
        pc: s.pc + 2,
        ..s
    }
}

/// `8xyE` - Set Vx = Vx SHL 1.
pub fn shl_vx_vy(chip8: &mut Chip8)
    requires
        old(chip8)@.wf(),
        old(chip8)@.mode == RunMode::Running,
        old(chip8)@.pc < 4095,
    ensures
        final(chip8)@.wf(),
        final(chip8)@ == shl_vx_vy_spec(old(chip8)@),
{
    let vars = opcode_to_variables(&chip8.opcode);
    let vx = chip8.v[vars.x];
    let doubled: u16 = vx as u16 * 2;
    chip8.v.set(vars.x, (doubled % 256) as u8);
    chip8.v.set(0xF, vx / 128);
    chip8.pc = chip8.pc + 2;
}

/// `9xy0` - Skip the next instruction if V[x] != V[y].
pub open spec fn sne_vx_vy_spec(s: MachineView) -> MachineView {
    MachineView {
        pc: s.pc + if s.v[x_of(s.opcode)] != s.v[y_of(s.opcode)] { 4int } else { 2int },
        ..s
    }
}

/// `9xy0` - Skip next instruction if Vx != Vy.
pub fn sne_vx_vy(chip8: &mut Chip8)
    requires
        old(chip8)@.wf(),
        old(chip8)@.mode == RunMode::Running,
        old(chip8)@.pc < 4095,
    ensures
        final(chip8)@.wf(),
        final(chip8)@ == sne_vx_vy_spec(old(chip8)@),
{
    let vars = opcode_to_variables(&chip8.opcode);
    if chip8.v[vars.x] != chip8.v[vars.y] {
        chip8.pc = chip8.pc + 4;
    } else {
        chip8.pc = chip8.pc + 2;
    }
}

/// `Annn` - Set I = nnn.
pub open spec fn ld_i_addr_spec(s: MachineView) -> MachineView {
    MachineView { i: nnn_of(s.opcode), pc: s.pc + 2, ..s }
}

/// `Annn` - Set I = nnn.
pub fn ld_i_addr(chip8: &mut Chip8)
    requires
        old(chip8)@.wf(),
        old(chip8)@.mode == RunMode::Running,
        old(chip8)@.pc < 4095,
    ensures
        final(chip8)@.wf(),
        final(chip8)@ == ld_i_addr_spec(old(chip8)@),
{
    let vars = opcode_to_variables(&chip8.opcode);
    chip8.i = vars.nnn;
    chip8.pc = chip8.pc + 2;
}

/// `Bnnn` - Jump to location nnn + V[0].
pub open spec fn jp_v0_addr_spec(s: MachineView) -> MachineView {
    MachineView { pc: nnn_of(s.opcode) + s.v[0], ..s }
}

/// `Bnnn` - Jump to location nnn + V0.
pub fn jp_v0_addr(chip8: &mut Chip8)
    requires
        old(chip8)@.wf(),
        old(chip8)@.mode == RunMode::Running,
    ensures
        final(chip8)@.wf(),
        final(chip8)@ == jp_v0_addr_spec(old(chip8)@),
{
    let vars = opcode_to_variables(&chip8.opcode);
    chip8.pc = vars.nnn + chip8.v[0] as u16;
}

/// `Cxkk` - Set V[x] = random byte AND kk. The random byte is drawn by the
/// caller; this transition is deterministic in it.
pub open spec fn rnd_vx_byte_spec(s: MachineView, rnd: u8) -> MachineView {
    MachineView {
        v: s.v.update(x_of(s.opcode), (kk_of(s.opcode) as u8) & rnd),
        pc: s.pc + 2,
        ..s
    }
}

/// `Cxkk` - Set Vx = random byte AND kk.
pub fn rnd_vx_byte(chip8: &mut Chip8, rnd: u8)
    requires
        old(chip8)@.wf(),
        old(chip8)@.mode == RunMode::Running,
        old(chip8)@.pc < 4095,
    ensures
        final(chip8)@.wf(),
        final(chip8)@ == rnd_vx_byte_spec(old(chip8)@, rnd),
{
    let vars = opcode_to_variables(&chip8.opcode);
    chip8.v.set(vars.x, vars.kk & rnd);
    chip8.pc = chip8.pc + 2;
}

/// How far into a wrapped sprite a framebuffer position lies: the unique
/// `d` in `[0, m)` with `(base + d) % m == pos`, for `pos` in `[0, m)`.
pub open spec fn wrap_offset(base: int, pos: int, m: int) -> int {
    if pos >= base % m {
        pos - base % m
    } else {
        pos - base % m + m
    }
}

/// `wrap_offset` undoes wrapping: a sprite row or column `d` lands at
/// position `(base + d) % m`, and `wrap_offset` recovers `d` from it.
proof fn lemma_wrap_offset_roundtrip(base: int, d: int, m: int)
    requires
        0 <= base,
        0 <= d < m,
    ensures
        0 <= (base + d) % m < m,
        wrap_offset(base, (base + d) % m, m) == d,
{
    let b = base % m;
    lemma_mod_division_less_than_divisor(base, m);
    lemma_add_mod_noop_right(d, base, m);
    assert((d + base) % m == (d + b) % m);
    if b + d < m {
        lemma_small_mod((b + d) as nat, m as nat);
    } else {
        lemma_mod_sub_multiples_vanish(b + d, m);
        lemma_small_mod((b + d - m) as nat, m as nat);
    }
}

/// The other direction: the position `pos` that `wrap_offset` maps to `d`
/// is exactly `(base + d) % m`.
proof fn lemma_wrap_offset_inverse(base: int, pos: int, m: int)
    requires
        0 <= base,
        0 <= pos < m,
    ensures
        0 <= wrap_offset(base, pos, m) < m,
        (base + wrap_offset(base, pos, m)) % m == pos,
{
    let b = base % m;
    lemma_mod_division_less_than_divisor(base, m);
    let d = wrap_offset(base, pos, m);
    lemma_add_mod_noop_right(d, base, m);
    assert((d + base) % m == (d + b) % m);
    if pos >= b {
        lemma_small_mod(pos as nat, m as nat);
    } else {
        vstd::arithmetic::div_mod::lemma_mod_add_multiples_vanish(pos, m);
        assert((d + b) % m == (pos + m) % m);
        lemma_small_mod(pos as nat, m as nat);
    }
}

/// Bit `c` of a sprite row byte, most significant bit first: the bit that
/// lands `c` columns right of the sprite's left edge.
pub open spec fn row_bit(b: u8, c: int) -> u8 {
    (b >> ((7 - c) as u8)) & 1
}

/// XOR on 0/1 framebuffer cells.
pub open spec fn bit_xor(a: u8, b: u8) -> u8 {
    if a == b {
        0u8
    } else {
        1u8
    }
}

proof fn lemma_shifted_bit_is_bit(b: u8, sh: u8)
    by (bit_vector)
    ensures
        ((b >> sh) & 1) <= 1,
{
}

proof fn lemma_xor_on_bits(a: u8, b: u8)
    by (bit_vector)
    requires
        a <= 1,
        b <= 1,
    ensures
        (a ^ b) == (if a == b { 0u8 } else { 1u8 }),
{
}

/// The XOR mask an `n`-row sprite with top-left corner `(vx, vy)` lays over
/// framebuffer cell `p`: rows wrap modulo 32 and columns modulo 64,
/// independently per pixel.
pub open spec fn sprite_mask(rows: Seq<u8>, vx: int, vy: int, p: int) -> u8 {
    let r = wrap_offset(vy, p / 64, 32);
    let c = wrap_offset(vx, p % 64, 64);
    if 0 <= r < rows.len() && 0 <= c < 8 {
        row_bit(rows[r], c)
    } else {
        0u8
    }
}

/// The framebuffer after a sprite is XOR-composited onto it.
pub open spec fn draw_gfx(g: Seq<u8>, rows: Seq<u8>, vx: int, vy: int) -> Seq<u8> {
    Seq::new(g.len(), |p: int| bit_xor(g[p], sprite_mask(rows, vx, vy, p)))
}

/// Whether compositing the sprite flips some lit cell off: a collision.
pub open spec fn draw_collision(g: Seq<u8>, rows: Seq<u8>, vx: int, vy: int) -> bool {
    exists|p: int| 0 <= p < g.len() && g[p] == 1 && sprite_mask(rows, vx, vy, p) == 1
}

/// The cells already composited after the first `i` sprite rows and, within
/// row `i`, the first `j` bits.
spec fn drawn_prefix(nrows: int, vx: int, vy: int, i: int, j: int, p: int) -> bool {
    let r = wrap_offset(vy, p / 64, 32);
    let c = wrap_offset(vx, p % 64, 64);
    0 <= r < nrows && 0 <= c < 8 && (r < i || (r == i && c < j))
}

/// `Dxyn` - Display the n-byte sprite at memory location I at coordinates
/// (V[x], V[y]): each sprite bit is XORed into the framebuffer, wrapping
/// modulo the screen size; VF reports whether any lit cell was flipped off.
pub open spec fn drw_spec(s: MachineView) -> MachineView {
    let rows = s.memory.subrange(s.i, s.i + n_of(s.opcode));
    let gx = s.v[x_of(s.opcode)] as int;
    let gy = s.v[y_of(s.opcode)] as int;
    MachineView {
        gfx: draw_gfx(s.gfx, rows, gx, gy),
        v: s.v.update(15, if draw_collision(s.gfx, rows, gx, gy) { 1u8 } else { 0u8 }),
        should_draw: true,
        pc: s.pc + 2,
        ..s
    }
}

/// `Dxyn` - Display n-byte sprite starting at memory location I at (Vx, Vy), set VF = collision.
pub fn drw_vx_vy_nibble(chip8: &mut Chip8) -> (r: Result<(), EmulationError>)
    requires
        old(chip8)@.wf(),
        old(chip8)@.mode == RunMode::Running,
        old(chip8)@.pc < 4095,
    ensures
        final(chip8)@.wf(),
        old(chip8)@.i + n_of(old(chip8)@.opcode) > 4096 ==> r == Err::<(), EmulationError>(
            EmulationError::OutOfBounds(old(chip8)@.i as u16),
        ) && final(chip8)@ == old(chip8)@,
        old(chip8)@.i + n_of(old(chip8)@.opcode) <= 4096 ==> r == Ok::<(), EmulationError>(())
            && final(chip8)@ == drw_spec(old(chip8)@),
{
    let vars = opcode_to_variables(&chip8.opcode);
    let n = vars.nibbles[3];
    if chip8.i as usize + n > 4096 {
        return Err(EmulationError::OutOfBounds(chip8.i));
    }
    let vx = chip8.v[vars.x] as usize;
    let vy = chip8.v[vars.y] as usize;
    let sprite_base = chip8.i as usize;
    let ghost s0 = old(chip8)@;
    let ghost rows = s0.memory.subrange(s0.i, s0.i + n_of(s0.opcode));
    let ghost gx = vx as int;
    let ghost gy = vy as int;

    chip8.v.set(0xF, 0);

    let mut i: usize = 0;
    while i < n
        invariant
            s0.wf(),
            s0 == old(chip8)@,
            n == n_of(s0.opcode),
            n < 16,
            rows == s0.memory.subrange(s0.i, s0.i + n as int),
            rows.len() == n,
            gx == s0.v[x_of(s0.opcode)] as int,
            gy == s0.v[y_of(s0.opcode)] as int,
            vx == gx,
            vy == gy,
            0 <= gx < 256,
            0 <= gy < 256,
            sprite_base == s0.i,
            sprite_base + n <= 4096,
            i <= n,
            *chip8 == (Chip8 { gfx: chip8.gfx, v: chip8.v, ..*old(chip8) }),
            chip8.gfx@.len() == 2048,
            chip8.v@.len() == 16,
            forall|k: int| 0 <= k < 16 && k != 15 ==> (#[trigger] chip8.v@[k]) == s0.v[k],
            chip8.v@[15] == 0 || chip8.v@[15] == 1,
            (chip8.v@[15] == 1) <==> exists|p: int|
                0 <= p < 2048 && #[trigger] drawn_prefix(n as int, gx, gy, i as int, 0, p)
                    && s0.gfx[p] == 1 && sprite_mask(rows, gx, gy, p) == 1,
            forall|p: int| 0 <= p < 2048 ==> (#[trigger] chip8.gfx@[p]) == (
                if drawn_prefix(n as int, gx, gy, i as int, 0, p) {
                    bit_xor(s0.gfx[p], sprite_mask(rows, gx, gy, p))
                } else {
                    s0.gfx[p]
                }
            ),
        decreases n - i,
    {
        let sprite = chip8.memory[sprite_base + i];
        proof {
            assert(sprite == rows[i as int]);
        }
        let row = (vy + i) % 32;
        proof {
            lemma_wrap_offset_roundtrip(gy, i as int, 32);
        }
        let mut j: usize = 0;
        while j < 8
            invariant
                s0.wf(),
                s0 == old(chip8)@,
                n == n_of(s0.opcode),
                n < 16,
                rows == s0.memory.subrange(s0.i, s0.i + n as int),
                rows.len() == n,
                gx == s0.v[x_of(s0.opcode)] as int,
                gy == s0.v[y_of(s0.opcode)] as int,
                vx == gx,
                vy == gy,
                0 <= gx < 256,
                0 <= gy < 256,
                sprite_base == s0.i,
                sprite_base + n <= 4096,
                i < n,
                j <= 8,
                sprite == rows[i as int],
                row == (gy + i) % 32,
                0 <= row < 32,
                wrap_offset(gy, row as int, 32) == i,
                *chip8 == (Chip8 { gfx: chip8.gfx, v: chip8.v, ..*old(chip8) }),
                chip8.gfx@.len() == 2048,
                chip8.v@.len() == 16,
                forall|k: int| 0 <= k < 16 && k != 15 ==> (#[trigger] chip8.v@[k]) == s0.v[k],
                chip8.v@[15] == 0 || chip8.v@[15] == 1,
                (chip8.v@[15] == 1) <==> exists|p: int|
                    0 <= p < 2048 && #[trigger] drawn_prefix(n as int, gx, gy, i as int, j as int, p)
                        && s0.gfx[p] == 1 && sprite_mask(rows, gx, gy, p) == 1,
                forall|p: int| 0 <= p < 2048 ==> (#[trigger] chip8.gfx@[p]) == (
                    if drawn_prefix(n as int, gx, gy, i as int, j as int, p) {
                        bit_xor(s0.gfx[p], sprite_mask(rows, gx, gy, p))
                    } else {
                        s0.gfx[p]
                    }
                ),
            decreases 8 - j,
        {
            let sh: u8 = (7 - j) as u8;
            let new_bit: u8 = (sprite >> sh) & 1;
            let offset = (vx + j) % 64;
            let target = row * 64 + offset;
            proof {
                lemma_shifted_bit_is_bit(sprite, sh);
                assert(new_bit == row_bit(rows[i as int], j as int));
                lemma_wrap_offset_roundtrip(gx, j as int, 64);
                lemma_fundamental_div_mod_converse_div(target as int, 64, row as int, offset as int);
                lemma_fundamental_div_mod_converse_mod(target as int, 64, row as int, offset as int);
                assert(sprite_mask(rows, gx, gy, target as int) == new_bit);
                assert(!drawn_prefix(n as int, gx, gy, i as int, j as int, target as int));
                assert(chip8.gfx@[target as int] == s0.gfx[target as int]);
            }
            let old_bit = chip8.gfx[target];

            if old_bit == 1 && new_bit == 1 {
                chip8.v.set(0xF, 1);
            }

            let result = old_bit ^ new_bit;
            proof {
                lemma_xor_on_bits(old_bit, new_bit);
            }
            chip8.gfx.set(target, result);

            proof {
                let ni = n as int;
                let ii = i as int;
                let jj = j as int;
                let t = target as int;
                // Any cell other than the one just written keeps its
                // position in the drawing order: the map from (row, bit) to
                // cells is injective.
                assert forall|p: int| 0 <= p < 2048 && p != t implies (#[trigger] drawn_prefix(
                    ni,
                    gx,
                    gy,
                    ii,
                    jj + 1,
                    p,
                ) == drawn_prefix(ni, gx, gy, ii, jj, p)) by {
                    let pr = wrap_offset(gy, p / 64, 32);
                    let pcol = wrap_offset(gx, p % 64, 64);
                    if pr == ii && pcol == jj {
                        lemma_mod_division_less_than_divisor(p, 64);
                        vstd::arithmetic::div_mod::lemma_div_pos_is_pos(p, 64);
                        vstd::arithmetic::div_mod::lemma_div_is_ordered(p, 2047, 64);
                        lemma_wrap_offset_inverse(gy, p / 64, 32);
                        lemma_wrap_offset_inverse(gx, p % 64, 64);
                        lemma_fundamental_div_mod(p, 64);
                        assert(p == t);
                    }
                }
                assert(drawn_prefix(ni, gx, gy, ii, jj + 1, t));
                if chip8.v@[15] == 1 {
                    if old_bit == 1 && new_bit == 1 {
                        assert(s0.gfx[t] == 1 && sprite_mask(rows, gx, gy, t) == 1);
                        assert(exists|p: int|
                            0 <= p < 2048 && #[trigger] drawn_prefix(ni, gx, gy, ii, jj + 1, p)
                                && s0.gfx[p] == 1 && sprite_mask(rows, gx, gy, p) == 1);
                    } else {
                        let p0 = choose|p: int|
                            0 <= p < 2048 && #[trigger] drawn_prefix(ni, gx, gy, ii, jj, p)
                                && s0.gfx[p] == 1 && sprite_mask(rows, gx, gy, p) == 1;
                        assert(drawn_prefix(ni, gx, gy, ii, jj + 1, p0));
                        assert(exists|p: int|
                            0 <= p < 2048 && #[trigger] drawn_prefix(ni, gx, gy, ii, jj + 1, p)
                                && s0.gfx[p] == 1 && sprite_mask(rows, gx, gy, p) == 1);
                    }
                } else {
                    assert forall|p: int|
                        0 <= p < 2048 && #[trigger] drawn_prefix(ni, gx, gy, ii, jj + 1, p)
                            implies !(s0.gfx[p] == 1 && sprite_mask(rows, gx, gy, p) == 1) by {
                        if p != t && s0.gfx[p] == 1 && sprite_mask(rows, gx, gy, p) == 1 {
                            assert(drawn_prefix(ni, gx, gy, ii, jj, p));
                            assert(exists|q: int|
                                0 <= q < 2048 && #[trigger] drawn_prefix(ni, gx, gy, ii, jj, q)
                                    && s0.gfx[q] == 1 && sprite_mask(rows, gx, gy, q) == 1);
                            assert(false);
                        }
                    }
                }
            }
            j += 1;
        }
        proof {
            let ni = n as int;
            let ii = i as int;
            assert forall|p: int| 0 <= p < 2048 implies (#[trigger] drawn_prefix(
                ni,
                gx,
                gy,
                ii + 1,
                0,
                p,
            ) == drawn_prefix(ni, gx, gy, ii, 8, p)) by {
            }
            if chip8.v@[15] == 1 {
                let p0 = choose|p: int|
                    0 <= p < 2048 && #[trigger] drawn_prefix(ni, gx, gy, ii, 8, p)
                        && s0.gfx[p] == 1 && sprite_mask(rows, gx, gy, p) == 1;
                assert(drawn_prefix(ni, gx, gy, ii + 1, 0, p0));
                assert(exists|p: int|
                    0 <= p < 2048 && #[trigger] drawn_prefix(ni, gx, gy, ii + 1, 0, p)
                        && s0.gfx[p] == 1 && sprite_mask(rows, gx, gy, p) == 1);
            } else {
                assert forall|p: int|
                    0 <= p < 2048 && #[trigger] drawn_prefix(ni, gx, gy, ii + 1, 0, p)
                        implies !(s0.gfx[p] == 1 && sprite_mask(rows, gx, gy, p) == 1) by {
                    if s0.gfx[p] == 1 && sprite_mask(rows, gx, gy, p) == 1 {
                        assert(drawn_prefix(ni, gx, gy, ii, 8, p));
                        assert(exists|q: int|
                            0 <= q < 2048 && #[trigger] drawn_prefix(ni, gx, gy, ii, 8, q)
                                && s0.gfx[q] == 1 && sprite_mask(rows, gx, gy, q) == 1);
                        assert(false);
                    }
                }
            }
        }
        i += 1;
    }

    chip8.should_draw = true;
    chip8.pc = chip8.pc + 2;

    proof {
        let ni = n as int;
        // A cell the sprite masks on is one the loops visited.
        assert forall|p: int| 0 <= p < 2048 && sprite_mask(rows, gx, gy, p) == 1 implies
            #[trigger] drawn_prefix(ni, gx, gy, ni, 0, p) by {
        }
        assert forall|p: int| 0 <= p < 2048 implies (#[trigger] chip8.gfx@[p]) == bit_xor(
            s0.gfx[p],
            sprite_mask(rows, gx, gy, p),
        ) by {
            if !drawn_prefix(ni, gx, gy, ni, 0, p) {
                assert(sprite_mask(rows, gx, gy, p) == 0);
                assert(s0.gfx[p] <= 1);
            }
        }
        assert(chip8@.gfx =~= drw_spec(old(chip8)@).gfx);
        if draw_collision(s0.gfx, rows, gx, gy) {
            let p0 = choose|p: int|
                0 <= p < s0.gfx.len() && s0.gfx[p] == 1 && sprite_mask(rows, gx, gy, p) == 1;
            assert(drawn_prefix(ni, gx, gy, ni, 0, p0));
            assert(exists|p: int|
                0 <= p < 2048 && #[trigger] drawn_prefix(ni, gx, gy, ni, 0, p) && s0.gfx[p] == 1
                    && sprite_mask(rows, gx, gy, p) == 1);
            assert(chip8.v@[15] == 1);
        } else {
            if chip8.v@[15] == 1 {
                let p0 = choose|p: int|
                    0 <= p < 2048 && #[trigger] drawn_prefix(ni, gx, gy, ni, 0, p)
                        && s0.gfx[p] == 1 && sprite_mask(rows, gx, gy, p) == 1;
                assert(draw_collision(s0.gfx, rows, gx, gy));
            }
            assert(chip8.v@[15] == 0);
        }
        assert(chip8@.v =~= drw_spec(old(chip8)@).v);
        assert(chip8@ == drw_spec(old(chip8)@));
    }
    Ok(())
}

/// `Ex9E` - Skip the next instruction if the key named by the low nibble of
/// V[x] is pressed.
pub open spec fn skp_vx_spec(s: MachineView) -> MachineView {
    MachineView {
        pc: s.pc + if s.key[s.v[x_of(s.opcode)] as int % 16] { 4int } else { 2int },
        ..s
    }
}

/// `Ex9E` - Skip next instruction if key with the value of Vx is pressed.
pub fn skp_vx(chip8: &mut Chip8)
    requires
        old(chip8)@.wf(),
        old(chip8)@.mode == RunMode::Running,
        old(chip8)@.pc < 4095,
    ensures
        final(chip8)@.wf(),
        final(chip8)@ == skp_vx_spec(old(chip8)@),
{
    let vars = opcode_to_variables(&chip8.opcode);
    let key_index = (chip8.v[vars.x] % 16) as usize;
    if chip8.key[key_index] {
        chip8.pc = chip8.pc + 4;
    } else {
        chip8.pc = chip8.pc + 2;
    }
}

/// `ExA1` - Skip the next instruction if the key named by the low nibble of
/// V[x] is not pressed.
pub open spec fn sknp_vx_spec(s: MachineView) -> MachineView {
    MachineView {
        pc: s.pc + if !s.key[s.v[x_of(s.opcode)] as int % 16] { 4int } else { 2int },
        ..s
    }
}

/// `ExA1` - Skip next instruction if key with the value of Vx is not pressed.
pub fn sknp_vx(chip8: &mut Chip8)
    requires
        old(chip8)@.wf(),
        old(chip8)@.mode == RunMode::Running,
        old(chip8)@.pc < 4095,
    ensures
        final(chip8)@.wf(),
        final(chip8)@ == sknp_vx_spec(old(chip8)@),
{
    let vars = opcode_to_variables(&chip8.opcode);
    let key_index = (chip8.v[vars.x] % 16) as usize;
    if !chip8.key[key_index] {
        chip8.pc = chip8.pc + 4;
    } else {
        chip8.pc = chip8.pc + 2;
    }
}

/// `Fx07` - Set V[x] = delay timer value.
pub open spec fn ld_vx_dt_spec(s: MachineView) -> MachineView {
    MachineView {
        v: s.v.update(x_of(s.opcode), s.delay_timer as u8),
        pc: s.pc + 2,
        ..s
    }
}

/// `Fx07` - Set Vx = delay timer value.
pub fn ld_vx_dt(chip8: &mut Chip8)
    requires
        old(chip8)@.wf(),
        old(chip8)@.mode == RunMode::Running,
        old(chip8)@.pc < 4095,
    ensures
        final(chip8)@.wf(),
        final(chip8)@ == ld_vx_dt_spec(old(chip8)@),
{
    let vars = opcode_to_variables(&chip8.opcode);
    let dt = chip8.delay_timer;
    chip8.v.set(vars.x, dt);
    chip8.pc = chip8.pc + 2;
}

/// `Fx0A` - Suspend fetching until a key press: the machine enters the
/// waiting mode and remembers which register the key value is owed to. The
/// program counter moves only when the key arrives (see
/// [`crate::chip8::set_key_spec`]).
pub open spec fn ld_vx_k_spec(s: MachineView) -> MachineView {
    MachineView { mode: RunMode::AwaitingKey(x_of(s.opcode) as u8), ..s }
}

/// `Fx0A` - Wait for a key press, store the value of the key in Vx.
pub fn ld_vx_k(chip8: &mut Chip8)
    requires
        old(chip8)@.wf(),
        old(chip8)@.mode == RunMode::Running,
        old(chip8)@.pc < 4095,
    ensures
        final(chip8)@.wf(),
        final(chip8)@ == ld_vx_k_spec(old(chip8)@),
{
    let vars = opcode_to_variables(&chip8.opcode);
    chip8.mode = RunMode::AwaitingKey(vars.x as u8);
}

/// `Fx15` - Set delay timer = V[x].
pub open spec fn ld_dt_vx_spec(s: MachineView) -> MachineView {
    MachineView { delay_timer: s.v[x_of(s.opcode)] as int, pc: s.pc + 2, ..s }
}

/// `Fx15` - Set delay timer = Vx.
pub fn ld_dt_vx(chip8: &mut Chip8)
    requires
        old(chip8)@.wf(),
        old(chip8)@.mode == RunMode::Running,
        old(chip8)@.pc < 4095,
    ensures
        final(chip8)@.wf(),
        final(chip8)@ == ld_dt_vx_spec(old(chip8)@),
{
    let vars = opcode_to_variables(&chip8.opcode);
    chip8.delay_timer = chip8.v[vars.x];
    chip8.pc = chip8.pc + 2;
}

/// `Fx18` - Set sound timer = V[x].
pub open spec fn ld_st_vx_spec(s: MachineView) -> MachineView {
    MachineView { sound_timer: s.v[x_of(s.opcode)] as int, pc: s.pc + 2, ..s }
}

/// `Fx18` - Set sound timer = Vx.
pub fn ld_st_vx(chip8: &mut Chip8)
    requires
        old(chip8)@.wf(),
        old(chip8)@.mode == RunMode::Running,
        old(chip8)@.pc < 4095,
    ensures
        final(chip8)@.wf(),
        final(chip8)@ == ld_st_vx_spec(old(chip8)@),
{
    let vars = opcode_to_variables(&chip8.opcode);
    chip8.sound_timer = chip8.v[vars.x];
    chip8.pc = chip8.pc + 2;
}

/// `Fx1E` - Set I = I + V[x], wrapping in the 16-bit index register.
pub open spec fn add_i_vx_spec(s: MachineView) -> MachineView {
    MachineView {
        i: (s.i + s.v[x_of(s.opcode)]) % 0x10000,
        pc: s.pc + 2,
        ..s
    }
}

/// `Fx1E` - Set I = I + Vx.
pub fn add_i_vx(chip8: &mut Chip8)
    requires
        old(chip8)@.wf(),
        old(chip8)@.mode == RunMode::Running,
        old(chip8)@.pc < 4095,
    ensures
        final(chip8)@.wf(),
        final(chip8)@ == add_i_vx_spec(old(chip8)@),
{
    let vars = opcode_to_variables(&chip8.opcode);
    let sum: u32 = chip8.i as u32 + chip8.v[vars.x] as u32;
    chip8.i = (sum % 0x10000) as u16;
    chip8.pc = chip8.pc + 2;
}

/// `Fx29` - Set I to the font glyph for V[x]: each 5-byte glyph sits at five
/// times its digit, starting at the base of memory.
pub open spec fn ld_f_vx_spec(s: MachineView) -> MachineView {
    MachineView { i: s.v[x_of(s.opcode)] * 5, pc: s.pc + 2, ..s }
}

/// `Fx29` - Set I = location of sprite for digit Vx.
pub fn ld_f_vx(chip8: &mut Chip8)
    requires
        old(chip8)@.wf(),
        old(chip8)@.mode == RunMode::Running,
        old(chip8)@.pc < 4095,
    ensures
        final(chip8)@.wf(),
        final(chip8)@ == ld_f_vx_spec(old(chip8)@),
{
    let vars = opcode_to_variables(&chip8.opcode);
    chip8.i = chip8.v[vars.x] as u16 * 5;
    chip8.pc = chip8.pc + 2;
}

/// `Fx33` - Store the BCD digits of V[x] at I, I+1, I+2: hundreds, tens,
/// ones. Owed only while all three bytes lie inside memory.
pub open spec fn ld_b_vx_spec(s: MachineView) -> MachineView {
    let num = s.v[x_of(s.opcode)];
    MachineView {
        memory: s.memory
            .update(s.i, (num / 100) as u8)
            .update(s.i + 1, ((num / 10) % 10) as u8)
            .update(s.i + 2, (num % 10) as u8),
        pc: s.pc + 2,
        ..s
    }
}

/// `Fx33` - Store BCD representation of Vx in memory locations I, I+1, and I+2.
pub fn ld_b_vx(chip8: &mut Chip8) -> (r: Result<(), EmulationError>)
    requires
        old(chip8)@.wf(),
        old(chip8)@.mode == RunMode::Running,
        old(chip8)@.pc < 4095,
    ensures
        final(chip8)@.wf(),
        old(chip8)@.i + 3 > 4096 ==> r == Err::<(), EmulationError>(
            EmulationError::OutOfBounds(old(chip8)@.i as u16),
        ) && final(chip8)@ == old(chip8)@,
        old(chip8)@.i + 3 <= 4096 ==> r == Ok::<(), EmulationError>(())
            && final(chip8)@ == ld_b_vx_spec(old(chip8)@),
{
    if chip8.i > 4093 {
        return Err(EmulationError::OutOfBounds(chip8.i));
    }
    let vars = opcode_to_variables(&chip8.opcode);
    let num = chip8.v[vars.x];

    let hundreds = num / 100;
    let tens = (num / 10) % 10;
    let ones = num % 10;

    let i = chip8.i as usize;

    chip8.memory.set(i, hundreds);
    chip8.memory.set(i + 1, tens);
    chip8.memory.set(i + 2, ones);
    chip8.pc = chip8.pc + 2;
    Ok(())
}

/// `Fx55` - Copy V[0] through V[x] into memory starting at I. Owed only
/// while the x+1 destination bytes lie inside memory.
pub open spec fn ld_i_vx_spec(s: MachineView) -> MachineView {
    MachineView {
        memory: Seq::new(
            4096,
            |m: int| if s.i <= m <= s.i + x_of(s.opcode) { s.v[m - s.i] } else { s.memory[m] },
        ),
        pc: s.pc + 2,
        ..s
    }
}

/// `Fx55` - Store registers V0 through Vx in memory starting at location I.
pub fn ld_i_vx(chip8: &mut Chip8) -> (r: Result<(), EmulationError>)
    requires
        old(chip8)@.wf(),
        old(chip8)@.mode == RunMode::Running,
        old(chip8)@.pc < 4095,
    ensures
        final(chip8)@.wf(),
        old(chip8)@.i + x_of(old(chip8)@.opcode) + 1 > 4096 ==> r == Err::<(), EmulationError>(
            EmulationError::OutOfBounds(old(chip8)@.i as u16),
        ) && final(chip8)@ == old(chip8)@,
        old(chip8)@.i + x_of(old(chip8)@.opcode) + 1 <= 4096 ==> r == Ok::<(), EmulationError>(())
            && final(chip8)@ == ld_i_vx_spec(old(chip8)@),
{
    let vars = opcode_to_variables(&chip8.opcode);
    if chip8.i as usize + vars.x + 1 > 4096 {
        return Err(EmulationError::OutOfBounds(chip8.i));
    }
    let mem_i = chip8.i as usize;
    let mut idx: usize = 0;
    while idx < vars.x + 1
        invariant
            old(chip8)@.wf(),
            vars.x < 16,
            mem_i + vars.x + 1 <= 4096,
            mem_i == old(chip8)@.i,
            idx <= vars.x + 1,
            chip8.memory@.len() == 4096,
            chip8.v@ == old(chip8)@.v,
            forall|m: int| mem_i <= m < mem_i + idx ==> (#[trigger] chip8.memory@[m]) == old(chip8)@.v[m - mem_i],
            forall|m: int| 0 <= m < 4096 && !(mem_i <= m < mem_i + idx) ==> (#[trigger] chip8.memory@[m]) == old(chip8)@.memory[m],
            *chip8 == (Chip8 { memory: chip8.memory, ..*old(chip8) }),
        decreases vars.x + 1 - idx,
    {
        let b = chip8.v[idx];
        chip8.memory.set(mem_i + idx, b);
        idx += 1;
    }
    chip8.pc = chip8.pc + 2;
    proof {
        assert(chip8@.memory =~= ld_i_vx_spec(old(chip8)@).memory);
    }
    Ok(())
}

/// `Fx65` - Copy memory starting at I into V[0] through V[x]. Owed only
/// while the x+1 source bytes lie inside memory.
pub open spec fn ld_vx_i_spec(s: MachineView) -> MachineView {
    MachineView {
        v: Seq::new(
            16,
            |k: int| if k <= x_of(s.opcode) { s.memory[s.i + k] } else { s.v[k] },
        ),
        pc: s.pc + 2,
        ..s
    }
}

/// `Fx65` - Read registers V0 through Vx from memory starting at location I.
pub fn ld_vx_i(chip8: &mut Chip8) -> (r: Result<(), EmulationError>)
    requires
        old(chip8)@.wf(),
        old(chip8)@.mode == RunMode::Running,
        old(chip8)@.pc < 4095,
    ensures
        final(chip8)@.wf(),
        old(chip8)@.i + x_of(old(chip8)@.opcode) + 1 > 4096 ==> r == Err::<(), EmulationError>(
            EmulationError::OutOfBounds(old(chip8)@.i as u16),
        ) && final(chip8)@ == old(chip8)@,
        old(chip8)@.i + x_of(old(chip8)@.opcode) + 1 <= 4096 ==> r == Ok::<(), EmulationError>(())
            && final(chip8)@ == ld_vx_i_spec(old(chip8)@),
{
    let vars = opcode_to_variables(&chip8.opcode);
    if chip8.i as usize + vars.x + 1 > 4096 {
        return Err(EmulationError::OutOfBounds(chip8.i));
    }
    let mem_start = chip8.i as usize;
    let mut idx: usize = 0;
    while idx < vars.x + 1
        invariant
            old(chip8)@.wf(),
            vars.x < 16,
            mem_start + vars.x + 1 <= 4096,
            mem_start == old(chip8)@.i,
            idx <= vars.x + 1,
            chip8.v@.len() == 16,
            chip8.memory@ == old(chip8)@.memory,
            forall|k: int| 0 <= k < idx ==> (#[trigger] chip8.v@[k]) == old(chip8)@.memory[mem_start + k],
            forall|k: int| idx <= k < 16 ==> (#[trigger] chip8.v@[k]) == old(chip8)@.v[k],
            *chip8 == (Chip8 { v: chip8.v, ..*old(chip8) }),
        decreases vars.x + 1 - idx,
    {
        let b = chip8.memory[mem_start + idx];
        chip8.v.set(idx, b);
        idx += 1;
    }
    chip8.pc = chip8.pc + 2;
    proof {
        assert(chip8@.v =~= ld_vx_i_spec(old(chip8)@).v);
    }
    Ok(())
}

/// Law: loading a register with `6xkk` and then running `7xkk` on the same
/// register leaves it at the loaded value plus kk, modulo 256 — for every
/// register index and every byte.
pub proof fn lemma_load_then_add(s: MachineView, x: int, kk: int)
    requires
        s.wf(),
        0 <= x < 16,
        0 <= kk < 256,
    ensures
        ld_vx_byte_spec(MachineView { opcode: 0x6000 + x * 256 + kk, ..s }).v[x] == kk,
        add_vx_byte_spec(
            MachineView {
                opcode: 0x7000 + x * 256 + kk,
                ..ld_vx_byte_spec(MachineView { opcode: 0x6000 + x * 256 + kk, ..s })
            },
        ).v[x] == (ld_vx_byte_spec(MachineView { opcode: 0x6000 + x * 256 + kk, ..s }).v[x] + kk)
            % 256,
{
    let w6 = 0x6000 + x * 256 + kk;
    let w7 = 0x7000 + x * 256 + kk;
    lemma_fundamental_div_mod_converse_div(w6, 256, 96 + x, kk);
    lemma_fundamental_div_mod_converse_mod(w6, 256, 96 + x, kk);
    lemma_fundamental_div_mod_converse_mod(96 + x, 16, 6, x);
    assert(x_of(w6) == x);
    assert(kk_of(w6) == kk);
    lemma_fundamental_div_mod_converse_div(w7, 256, 112 + x, kk);
    lemma_fundamental_div_mod_converse_mod(w7, 256, 112 + x, kk);
    lemma_fundamental_div_mod_converse_mod(112 + x, 16, 7, x);
    assert(x_of(w7) == x);
    assert(kk_of(w7) == kk);
}

/// The mask a sprite lays over a cell is a single bit.
pub proof fn lemma_mask_is_bit(rows: Seq<u8>, vx: int, vy: int, p: int)
    ensures
        sprite_mask(rows, vx, vy, p) <= 1,
{
    let r = wrap_offset(vy, p / 64, 32);
    let c = wrap_offset(vx, p % 64, 64);
    if 0 <= r < rows.len() && 0 <= c < 8 {
        lemma_shifted_bit_is_bit(rows[r], (7 - c) as u8);
    }
}

/// Law: XOR-compositing is an involution. Drawing the same sprite twice at
/// the same position returns the framebuffer to its pre-draw state; and the
/// second draw reports no collision when the first left every cell the
/// sprite covers dark.
pub proof fn lemma_draw_twice(g: Seq<u8>, rows: Seq<u8>, vx: int, vy: int)
    requires
        forall|p: int| 0 <= p < g.len() ==> (#[trigger] g[p]) <= 1,
    ensures
        draw_gfx(draw_gfx(g, rows, vx, vy), rows, vx, vy) == g,
        (forall|p: int|
            0 <= p < g.len() && #[trigger] sprite_mask(rows, vx, vy, p) == 1 ==> draw_gfx(
                g,
                rows,
                vx,
                vy,
            )[p] == 0) ==> !draw_collision(draw_gfx(g, rows, vx, vy), rows, vx, vy),
{
    let g1 = draw_gfx(g, rows, vx, vy);
    let g2 = draw_gfx(g1, rows, vx, vy);
    assert forall|p: int| 0 <= p < g.len() implies (#[trigger] g2[p]) == g[p] by {
        lemma_mask_is_bit(rows, vx, vy, p);
    }
    assert(g2 =~= g);
    if forall|p: int|
        0 <= p < g.len() && #[trigger] sprite_mask(rows, vx, vy, p) == 1 ==> draw_gfx(
            g,
            rows,
            vx,
            vy,
        )[p] == 0 {
        assert forall|p: int| 0 <= p < g1.len() implies !(g1[p] == 1 && sprite_mask(
            rows,
            vx,
            vy,
            p,
        ) == 1) by {
            if sprite_mask(rows, vx, vy, p) == 1 {
                assert(g1[p] == 0);
            }
        }
    }
}

/// Law: drawing the same sprite twice in a row through the `Dxyn`
/// transition restores the framebuffer, as long as the sprite's coordinate
/// registers are not the flag register the first draw writes.
pub proof fn lemma_draw_twice_on_machine(s: MachineView)
    requires
        s.wf(),
        x_of(s.opcode) != 15,
        y_of(s.opcode) != 15,
    ensures
        drw_spec(MachineView { opcode: s.opcode, ..drw_spec(s) }).gfx == s.gfx,
{
    let s1 = drw_spec(s);
    let s2 = MachineView { opcode: s.opcode, ..s1 };
    let rows = s.memory.subrange(s.i, s.i + n_of(s.opcode));
    let gx = s.v[x_of(s.opcode)] as int;
    let gy = s.v[y_of(s.opcode)] as int;
    assert(s2.memory == s.memory);
    assert(s2.v[x_of(s.opcode)] == s.v[x_of(s.opcode)]);
    assert(s2.v[y_of(s.opcode)] == s.v[y_of(s.opcode)]);
    lemma_draw_twice(s.gfx, rows, gx, gy);
}

/// Law: a `2nnn` call followed immediately by a `00EE` return restores the
/// stack depth, every stack entry in use, and the registers, and leaves the
/// program counter on the instruction after the call.
pub proof fn lemma_call_then_ret(s: MachineView)
    requires
        s.wf(),
        s.sp < 16,
    ensures
        ret_spec(call_addr_spec(s)).sp == s.sp,
        ret_spec(call_addr_spec(s)).pc == s.pc + 2,
        ret_spec(call_addr_spec(s)).v == s.v,
        ret_spec(call_addr_spec(s)).memory == s.memory,
        ret_spec(call_addr_spec(s)).gfx == s.gfx,
        ret_spec(call_addr_spec(s)).i == s.i,
        forall|k: int| 0 <= k < s.sp ==> ret_spec(call_addr_spec(s)).stack[k] == s.stack[k],
{
    let c = call_addr_spec(s);
    assert(c.stack[s.sp] == s.pc as u16);
    assert(ret_spec(c).pc == s.pc as u16 + 2);
}

} // verus!

//! Behavioural tests for the opcode handlers, driven one instruction at a
//! time against a freshly initialized machine.

use chip8::instructions::add_i_vx;
use chip8::instructions::add_vx_byte;
use chip8::instructions::add_vx_vy;
use chip8::instructions::and_vx_vy;
use chip8::instructions::call_addr;
use chip8::instructions::drw_vx_vy_nibble;
use chip8::instructions::jp_addr;
use chip8::instructions::jp_v0_addr;
use chip8::instructions::ld_b_vx;
use chip8::instructions::ld_dt_vx;
use chip8::instructions::ld_f_vx;
use chip8::instructions::ld_i_addr;
use chip8::instructions::ld_i_vx;
use chip8::instructions::ld_st_vx;
use chip8::instructions::ld_vx_byte;
use chip8::instructions::ld_vx_dt;
use chip8::instructions::ld_vx_i;
use chip8::instructions::ld_vx_k;
use chip8::instructions::ld_vx_vy;
use chip8::instructions::or_vx_vy;
use chip8::instructions::ret;
use chip8::instructions::rnd_vx_byte;
use chip8::instructions::se_vx_byte;
use chip8::instructions::se_vx_vy;
use chip8::instructions::shl_vx_vy;
use chip8::instructions::shr_vx_vy;
use chip8::instructions::skp_vx;
use chip8::instructions::sknp_vx;
use chip8::instructions::sne_vx_byte;
use chip8::instructions::sne_vx_vy;
use chip8::instructions::sub_vx_vy;
use chip8::instructions::subn_vx_vy;
use chip8::instructions::sys_addr;
use chip8::instructions::xor_vx_vy;
use chip8::Chip8;
use chip8::EmulationError;
use chip8::RunMode;

fn setup() -> Chip8 {
    Chip8::initialize()
}

/// The eight bits of a sprite row byte, most significant first.
fn bits_of(b: u8) -> Vec<u8> {
    (0..8).map(|c| (b >> (7 - c)) & 1).collect()
}

#[test]
fn test_sys_addr() {
    let mut chip8 = setup();
    let test_opcode = 0x1ABC;
    chip8.opcode = test_opcode;
    sys_addr(&mut chip8);
}

#[test]
fn test_ret() {
    let mut chip8 = setup();
    let test_addr = 0x0ABC;
    let initial_sp = 1;
    chip8.sp = initial_sp;
    chip8.stack[(initial_sp - 1) as usize] = test_addr;
    chip8.opcode = 0x00EE;
    ret(&mut chip8).unwrap();
    assert_eq!(
        test_addr + 2,
        chip8.pc,
        "should set program counter to address at the top of the stack and add 2"
    );
    assert_eq!(
        initial_sp - 1,
        chip8.sp,
        "should decrement stack pointer by one"
    );
}

#[test]
fn test_jp_addr() {
    let mut chip8 = setup();
    let test_opcode = 0x1ABC;
    let initial_pc = 512;
    chip8.opcode = test_opcode;
    chip8.pc = initial_pc;
    jp_addr(&mut chip8);
    assert_eq!(
        test_opcode & 0x0FFF,
        chip8.pc,
        "should set program counter to `nnn`"
    );
}

#[test]
fn test_call_addr() {
    let mut chip8 = setup();
    let test_opcode = 0x2ABC;
    let initial_sp = chip8.sp;
    let initial_pc = chip8.pc;
    chip8.opcode = test_opcode;
    call_addr(&mut chip8).unwrap();

    assert_eq!(
        chip8.sp,
        initial_sp + 1,
        "should increment the stack pointer by one"
    );
    assert_eq!(
        chip8.stack[(chip8.sp - 1) as usize],
        initial_pc,
        "should move the current program counter to the stack"
    );
    assert_eq!(
        chip8.pc,
        test_opcode & 0x0FFF,
        "should set the program counter to `nnn` of opcode"
    );
}

#[test]
fn test_se_vx_byte_eq() {
    let mut chip8 = setup();
    let test_opcode = 0x32B0;
    let initial_pc = 512;
    chip8.opcode = test_opcode;
    chip8.v[2] = 0xB0;
    chip8.pc = initial_pc;
    se_vx_byte(&mut chip8);

    assert_eq!(
        initial_pc + 4,
        chip8.pc,
        "should increment program counter by 4 when `vx` equals `kk`"
    );
}

#[test]
fn test_se_vx_byte_neq() {
    let mut chip8 = setup();
    let test_opcode = 0x32B0;
    let initial_pc = 512;
    chip8.opcode = test_opcode;
    chip8.v[2] = 0xFF;
    chip8.pc = initial_pc;
    se_vx_byte(&mut chip8);

    assert_eq!(
        initial_pc + 2,
        chip8.pc,
        "should increment program counter by 2 when `vx` does not equal `kk`"
    );
}

#[test]
fn test_sne_vx_byte_neq() {
    let mut chip8 = setup();
    let test_opcode = 0x32B0;
    let initial_pc = 512;
    chip8.opcode = test_opcode;
    chip8.v[2] = 0xFF;
    chip8.pc = initial_pc;
    sne_vx_byte(&mut chip8);

    assert_eq!(
        initial_pc + 4,
        chip8.pc,
        "should increment program counter by 4 when `vx` does not equal `kk`"
    );
}

#[test]
fn test_sne_vx_byte_eq() {
    let mut chip8 = setup();
    let initial_pc = 512;
    chip8.opcode = 0x4CB0;
    chip8.v[0xC] = 0xB0;
    chip8.pc = initial_pc;
    sne_vx_byte(&mut chip8);

    assert_eq!(
        initial_pc + 2,
        chip8.pc,
        "should increment program counter by 2 when `vx` equals `kk`"
    );
}

#[test]
fn test_se_vx_vy_eq() {
    let mut chip8 = setup();
    let initial_pc = 512;
    chip8.opcode = 0x5CE0;
    chip8.pc = initial_pc;
    chip8.v[0xC] = 0xE;
    chip8.v[0xE] = 0xE;
    se_vx_vy(&mut chip8);

    assert_eq!(
        initial_pc + 4,
        chip8.pc,
        "should increment program counter by 4 when `vx` equals `vy`"
    )
}

#[test]
fn test_se_vx_vy_neq() {
    let mut chip8 = setup();
    let initial_pc = 512;
    chip8.opcode = 0x5CE0;
    chip8.pc = initial_pc;
    chip8.v[0xC] = 0xE;
    chip8.v[0xE] = 0xF;
    se_vx_vy(&mut chip8);

    assert_eq!(
        initial_pc + 2,
        chip8.pc,
        "should increment program counter by 2 when `vx` does not equal `vy`"
    )
}

#[test]
fn test_ld_vx_byte() {
    let mut chip8 = setup();
    let initial_pc = 512;
    chip8.opcode = 0x60AA;
    chip8.v[0x0] = 5;
    chip8.pc = initial_pc;
    ld_vx_byte(&mut chip8);

    assert_eq!(0xAA, chip8.v[0x0], "should load `kk` into `vx`");
    assert_eq!(
        initial_pc + 2,
        chip8.pc,
        "should increment program counter by 2"
    );
}

#[test]
fn test_ld_vx_vy() {
    let mut chip8 = setup();
    let initial_pc = 512;
    chip8.opcode = 0x8690;
    chip8.v[0x6] = 0xDA;
    chip8.v[0x9] = 0x12;
    chip8.pc = initial_pc;
    ld_vx_vy(&mut chip8);

    assert_eq!(0x12, chip8.v[0x6], "should store the value of `vy` in `vx`");
    assert_eq!(
        initial_pc + 2,
        chip8.pc,
        "should increment program counter by 2"
    );
}

#[test]
pub fn test_or_vx_vy() {
    let mut chip8 = setup();
    let initial_pc = 512;
    chip8.opcode = 0x8DB1;
    chip8.v[0xD] = 0xA;
    chip8.v[0xB] = 0x5;
    or_vx_vy(&mut chip8);

    assert_eq!(
        0xA | 0x5,
        chip8.v[0xD],
        "should store the result of `vx` OR `vy` in `vx`"
    );
    assert_eq!(
        initial_pc + 2,
        chip8.pc,
        "should increment program counter by 2"
    );
}

#[test]
pub fn test_and_vx_vy() {
    let mut chip8 = setup();
    let initial_pc = 512;
    chip8.opcode = 0x8DB1;
    chip8.v[0xD] = 0xA;
    chip8.v[0xB] = 0x5;
    and_vx_vy(&mut chip8);

    assert_eq!(
        0xA & 0x5,
        chip8.v[0xD],
        "should store the result of `vx` AND `vy` in `vx`"
    );
    assert_eq!(
        initial_pc + 2,
        chip8.pc,
        "should increment program counter by 2"
    );
}

#[test]
pub fn test_xor_vx_vy() {
    let mut chip8 = setup();
    let initial_pc = 512;
    chip8.opcode = 0x8DB1;
    chip8.v[0xD] = 0xA;
    chip8.v[0xB] = 0x5;
    xor_vx_vy(&mut chip8);

    assert_eq!(
        0xA ^ 0x5,
        chip8.v[0xD],
        "should store the result of `vx` XOR `vy` in `vx`"
    );
    assert_eq!(
        initial_pc + 2,
        chip8.pc,
        "should increment program counter by 2"
    );
}

#[test]
fn test_add_vx_byte() {
    let mut chip8 = setup();
    let initial_pc = 512;
    chip8.opcode = 0x7210;
    chip8.v[0x2] = 0x6;
    chip8.pc = initial_pc;
    add_vx_byte(&mut chip8);

    assert_eq!(
        0x16, chip8.v[0x2],
        "should add `vx` to `kk` and store it in `vx`"
    );
    assert_eq!(
        initial_pc + 2,
        chip8.pc,
        "should increment program counter by 2"
    );
}

#[test]
fn test_add_vx_byte_overflow() {
    let mut chip8 = setup();
    let initial_pc = 512;
    chip8.opcode = 0x76FF;
    chip8.v[0x2] = 0x6;
    chip8.pc = initial_pc;
    add_vx_byte(&mut chip8);

    assert_eq!(
        0x6, chip8.v[0x2],
        "should add `vx` to `kk` and store it in `vx`"
    );
    assert_eq!(
        initial_pc + 2,
        chip8.pc,
        "should increment program counter by 2"
    );
}

#[test]
fn test_add_vx_vy_no_carry() {
    let mut chip8 = setup();
    let test_opcode = 0x8454;
    let initial_pc = chip8.pc;
    let initial_v4 = 100;
    let initial_v5 = 50;
    chip8.opcode = test_opcode;
    chip8.v[4] = initial_v4;
    chip8.v[5] = initial_v5;
    chip8.v[0xF] = 0;
    add_vx_vy(&mut chip8);

    assert_eq!(
        chip8.v[0x4],
        initial_v4 + initial_v5,
        "should add `vx` and `vy` and store value in `vx`"
    );
    assert_eq!(chip8.v[0xF], 0, "should not set `vf` when there's no carry");
    assert_eq!(
        chip8.pc,
        initial_pc + 2,
        "should increment program counter by 2"
    );
}

#[test]
fn test_add_vx_vy_carry() {
    let mut chip8 = setup();
    let test_opcode = 0x8454;
    let initial_pc = chip8.pc;
    let initial_v4: u16 = 200;
    let initial_v5: u16 = 200;
    chip8.opcode = test_opcode;
    chip8.v[4] = initial_v4 as u8;
    chip8.v[5] = initial_v5 as u8;
    chip8.v[0xF] = 0;
    add_vx_vy(&mut chip8);

    assert_eq!(
        chip8.v[0x4],
        ((initial_v4 + initial_v5) & 0x00FF) as u8,
        "should add `vx` and `vy` and store lowest 8 bits in `vx`"
    );
    assert_eq!(chip8.v[0xF], 1, "should set `vf` when `vx` + `vy` overflows");
    assert_eq!(
        chip8.pc,
        initial_pc + 2,
        "should increment program counter by 2"
    );
}

#[test]
fn test_sub_vx_vy_greater_than() {
    let mut chip8 = setup();
    let initial_pc = 512;
    chip8.opcode = 0x8355;
    chip8.v[0x3] = 100;
    chip8.v[0x5] = 25;
    chip8.v[0xF] = 0;
    chip8.pc = initial_pc;
    sub_vx_vy(&mut chip8);

    assert_eq!(1, chip8.v[0xF], "should set `vf` to 1 when `vx` > `vy`");
    assert_eq!(
        75, chip8.v[0x3],
        "should subtract `vy` from `vx` and store results in `vx`"
    );
    assert_eq!(
        initial_pc + 2,
        chip8.pc,
        "should increment program counter by 2"
    );
}

#[test]
fn test_sub_vx_vy_less_than() {
    let mut chip8 = setup();
    let initial_pc = 512;
    chip8.opcode = 0x8355;
    chip8.v[0x3] = 25;
    chip8.v[0x5] = 100;
    chip8.v[0xF] = 0;
    chip8.pc = initial_pc;
    sub_vx_vy(&mut chip8);

    assert_eq!(0, chip8.v[0xF], "should not set `vf` to 1 when `vx` < `vy`");
    assert_eq!(
        181, chip8.v[0x3],
        "should subtract `vy` from `vx` with wraparound and store results in `vx`"
    );
    assert_eq!(
        initial_pc + 2,
        chip8.pc,
        "should increment program counter by 2"
    );
}

#[test]
fn test_shr_vx_vy_is_one() {
    let mut chip8 = setup();
    let initial_pc = 512;
    chip8.opcode = 0x8016;
    chip8.v[0x0] = 0b1001;
    shr_vx_vy(&mut chip8);

    assert_eq!(
        1, chip8.v[0xF],
        "should set `vf` to 1 when least significant bit of `vx` is 1"
    );
    assert_eq!(
        4, chip8.v[0x0],
        "should divide `vx` by 2 and store result in `vx`"
    );
    assert_eq!(
        initial_pc + 2,
        chip8.pc,
        "should increment program counter by 2"
    );
}

#[test]
fn test_shr_vx_vy_is_not_one() {
    let mut chip8 = setup();
    let initial_pc = 512;
    chip8.opcode = 0x8016;
    chip8.v[0x0] = 0b1000;
    shr_vx_vy(&mut chip8);

    assert_eq!(
        0, chip8.v[0xF],
        "should not set `vf` to 1 when least-significant bit is 0"
    );
    assert_eq!(
        0b100, chip8.v[0x0],
        "should divide `vx` by 2 and store result in `vx`"
    );
    assert_eq!(
        initial_pc + 2,
        chip8.pc,
        "should increment program counter by 2"
    );
}

#[test]
fn test_subn_vx_vy_greater_than() {
    let mut chip8 = setup();
    let initial_pc = 512;
    chip8.opcode = 0x8CD7;
    chip8.v[0xD] = 200;
    chip8.v[0xC] = 160;
    chip8.v[0xF] = 0;
    subn_vx_vy(&mut chip8);

    assert_eq!(
        40, chip8.v[0xC],
        "should subtract `vx` from `vy` when `vy` > `vx` and store the result in `vx`"
    );
    assert_eq!(1, chip8.v[0xF], "should set `vf` to 1 when `vy` > `vx`");
    assert_eq!(
        initial_pc + 2,
        chip8.pc,
        "should increment program counter by 2"
    );
}

#[test]
fn test_subn_vx_vy_less_than() {
    let mut chip8 = setup();
    let initial_pc = 512;
    chip8.opcode = 0x8CD7;
    chip8.v[0xD] = 160;
    chip8.v[0xC] = 200;
    chip8.v[0xF] = 0;
    subn_vx_vy(&mut chip8);

    assert_eq!(
        216, chip8.v[0xC],
        "should subtract `vx` from `vy` with wraparound when `vy` < `vx`"
    );
    assert_eq!(0, chip8.v[0xF], "should set `vf` to 0 when `vy` < `vx`");
    assert_eq!(
        initial_pc + 2,
        chip8.pc,
        "should increment program counter by 2"
    );
}

#[test]
fn test_shl_vx_vy_is_one() {
    let mut chip8 = setup();
    let initial_pc = 512;
    let initial_vx: u8 = 0b10000000;
    chip8.opcode = 0x8ABE;
    chip8.v[0xA] = initial_vx;
    shl_vx_vy(&mut chip8);

    assert_eq!(
        1, chip8.v[0xF],
        "should set `vf` to 1 when most-significant bit is 1"
    );
    assert_eq!(
        initial_vx << 1,
        chip8.v[0xA],
        "should multiply `vx` by 2 and store result in `vx`"
    );
    assert_eq!(
        initial_pc + 2,
        chip8.pc,
        "should increment program counter by 2"
    );
}

#[test]
fn test_shl_vx_vy_is_not_one() {
    let mut chip8 = setup();
    let initial_pc = 512;
    let initial_vx: u8 = 0b1;
    chip8.opcode = 0x8ABE;
    chip8.v[0xA] = initial_vx;
    shl_vx_vy(&mut chip8);

    assert_eq!(
        0, chip8.v[0xF],
        "should set `vf` to 0 when most-significant bit is not 1"
    );
    assert_eq!(
        initial_vx << 1,
        chip8.v[0xA],
        "should multiply `vx` by 2 and store result in `vx`"
    );
    assert_eq!(
        initial_pc + 2,
        chip8.pc,
        "should increment program counter by 2"
    );
}

#[test]
fn test_sne_vx_vy_neq() {
    let mut chip8 = setup();
    let initial_pc = 512;
    chip8.opcode = 0x9120;
    chip8.v[0x1] = 100;
    chip8.v[0x2] = 150;
    chip8.pc = initial_pc;
    sne_vx_vy(&mut chip8);

    assert_eq!(
        initial_pc + 4,
        chip8.pc,
        "should increment program counter by 4 when `vx` and `vy` are not equal"
    );
}

#[test]
fn test_sne_vx_vy_eq() {
    let mut chip8 = setup();
    let initial_pc = 512;
    chip8.opcode = 0x9120;
    chip8.v[0x1] = 100;
    chip8.v[0x2] = 100;
    chip8.pc = initial_pc;
    sne_vx_vy(&mut chip8);

    assert_eq!(
        initial_pc + 2,
        chip8.pc,
        "should increment program counter by 2 when `vx` and `vy` are equal"
    );
}

#[test]
fn test_ld_i_addr() {
    let mut chip8 = setup();
    let initial_pc = 512;
    chip8.opcode = 0xA666;
    chip8.i = 0;
    ld_i_addr(&mut chip8);

    assert_eq!(0x666, chip8.i, "should load addr into register i");
    assert_eq!(
        initial_pc + 2,
        chip8.pc,
        "should increment program counter by 2"
    );
}

#[test]
fn test_jp_v0_addr() {
    let mut chip8 = setup();
    chip8.opcode = 0xB512;
    chip8.v[0x0] = 100;
    chip8.pc = 512;
    jp_v0_addr(&mut chip8);

    assert_eq!(
        0x512 + 100,
        chip8.pc,
        "should set program counter to `nnn` + `v0`"
    );
}

#[test]
fn test_rnd_vx_byte() {
    let mut chip8 = setup();
    let initial_pc = 512;
    chip8.opcode = 0xC144;
    chip8.pc = initial_pc;
    rnd_vx_byte(&mut chip8, 0x40);

    assert_eq!(
        0x44 & 0x40,
        chip8.v[0x1],
        "should AND random number and `kk` and store result in `vx`"
    );
    assert_eq!(
        initial_pc + 2,
        chip8.pc,
        "should increment program counter by 2"
    );
}

#[test]
fn test_drw_vx_vy_nibble_no_collision_no_wrap() {
    let mut chip8 = setup();
    let sprites = [0b10101100; 4];
    let vx: usize = 0;
    let vy: usize = 0;
    chip8.opcode = 0xD8B4;
    chip8.i = 1000;
    chip8.v[0xF] = 0;
    chip8.v[0x8] = vx as u8;
    chip8.v[0xB] = vy as u8;
    chip8.gfx = vec![0; 64 * 32];
    chip8.memory = vec![0; 4096];
    // prepare memory with sprites
    for (sprite_i, &sprite) in sprites.iter().enumerate() {
        chip8.memory[chip8.i as usize + sprite_i] = sprite;
    }
    let old_gfx = chip8.gfx.clone(); // save a copy of initial gfx state
    drw_vx_vy_nibble(&mut chip8).unwrap();

    for (i, &sprite) in sprites.iter().enumerate() {
        for (j, &sprite_bit) in bits_of(sprite).iter().enumerate() {
            let row = (64 * (vy * i)) % 32;
            let offset = (vx + j) % 64;
            let bit_index = row + offset;
            let old_bit = old_gfx[bit_index];
            let new_bit = chip8.gfx[bit_index];

            assert_eq!(
                old_bit ^ sprite_bit,
                new_bit,
                "should xor bits to position {}",
                bit_index
            );
        }
    }
    assert_eq!(true, chip8.should_draw, "should draw to screen");
    assert_eq!(
        0, chip8.v[0xF],
        "should not set `vf` when there's no collision"
    );
}

#[test]
fn test_drw_vx_vy_nibble_no_collision_wrap() {
    let mut chip8 = setup();
    let sprites = [0b10101100; 4];
    let vx: usize = 56;
    let vy: usize = 30;
    chip8.opcode = 0xD8B4;
    chip8.i = 1000;
    chip8.v[0xF] = 0;
    chip8.v[0x8] = vx as u8;
    chip8.v[0xB] = vy as u8;
    chip8.gfx = vec![0; 64 * 32];
    chip8.memory = vec![0; 4096];
    // prepare memory with sprites
    for (sprite_i, &sprite) in sprites.iter().enumerate() {
        chip8.memory[chip8.i as usize + sprite_i] = sprite;
    }
    let old_gfx = chip8.gfx.clone(); // save a copy of initial gfx state
    drw_vx_vy_nibble(&mut chip8).unwrap();

    for (i, &sprite) in sprites.iter().enumerate() {
        for (j, &sprite_bit) in bits_of(sprite).iter().enumerate() {
            let row = ((vy + i) % 32) * 64;
            let offset = (vx + j) % 64;
            let bit_index = row + offset;
            let old_bit = old_gfx[bit_index];
            let new_bit = chip8.gfx[bit_index];

            assert_eq!(
                old_bit ^ sprite_bit,
                new_bit,
                "should xor bits to position {}",
                bit_index
            );
        }
    }
    assert_eq!(true, chip8.should_draw, "should draw to screen");
    assert_eq!(
        0, chip8.v[0xF],
        "should not set `vf` when there's no collision"
    );
}

#[test]
fn test_drw_vx_vy_nibble_collision_no_wrap() {
    let mut chip8 = setup();
    let sprites = [0b10101100; 4];
    let vx: usize = 0;
    let vy: usize = 0;
    chip8.opcode = 0xD8B4;
    chip8.i = 1000;
    chip8.v[0xF] = 0;
    chip8.v[0x8] = vx as u8;
    chip8.v[0xB] = vy as u8;
    chip8.gfx = vec![1; 64 * 32];
    chip8.memory = vec![0; 4096];
    // prepare memory with sprites
    for (sprite_i, &sprite) in sprites.iter().enumerate() {
        chip8.memory[chip8.i as usize + sprite_i] = sprite;
    }
    let old_gfx = chip8.gfx.clone(); // save a copy of initial gfx state
    drw_vx_vy_nibble(&mut chip8).unwrap();

    for (i, &sprite) in sprites.iter().enumerate() {
        for (j, &sprite_bit) in bits_of(sprite).iter().enumerate() {
            let row = ((vy + i) % 32) * 64;
            let offset = (vx + j) % 64;
            let bit_index = row + offset;
            let old_bit = old_gfx[bit_index];
            let new_bit = chip8.gfx[bit_index];

            assert_eq!(
                old_bit ^ sprite_bit,
                new_bit,
                "should xor bits to position {}",
                bit_index
            );
        }
    }
    assert_eq!(true, chip8.should_draw, "should draw to screen");
    assert_eq!(1, chip8.v[0xF], "should set `vf` when there's collision");
}

#[test]
fn test_drw_vx_vy_nibble_collision_wrap() {
    let mut chip8 = setup();
    let sprites = [0b10101100; 4];
    let vx: usize = 58;
    let vy: usize = 26;
    chip8.opcode = 0xD8B4;
    chip8.i = 1000;
    chip8.v[0xF] = 0;
    chip8.v[0x8] = vx as u8;
    chip8.v[0xB] = vy as u8;
    chip8.gfx = vec![1; 64 * 32];
    chip8.memory = vec![0; 4096];
    // prepare memory with sprites
    for (sprite_i, &sprite) in sprites.iter().enumerate() {
        chip8.memory[chip8.i as usize + sprite_i] = sprite;
    }
    let old_gfx = chip8.gfx.clone(); // save a copy of initial gfx state
    drw_vx_vy_nibble(&mut chip8).unwrap();

    for (i, &sprite) in sprites.iter().enumerate() {
        for (j, &sprite_bit) in bits_of(sprite).iter().enumerate() {
            let row = ((vy + i) % 32) * 64;
            let offset = (vx + j) % 64;
            let bit_index = row + offset;
            let old_bit = old_gfx[bit_index];
            let new_bit = chip8.gfx[bit_index];

            assert_eq!(
                old_bit ^ sprite_bit,
                new_bit,
                "should xor bits to position {}",
                bit_index
            );
        }
    }
    assert_eq!(true, chip8.should_draw, "should draw to screen");
    assert_eq!(1, chip8.v[0xF], "should set `vf` when there's collision");
}

#[test]
fn test_skp_vx() {
    let mut chip8 = setup();
    chip8.opcode = 0xE19E;
    chip8.pc = 512;
    chip8.key[1] = true;
    skp_vx(&mut chip8);

    assert_eq!(
        514, chip8.pc,
        "should skip next instruction if `vx` value key is pressed"
    );
}

#[test]
fn test_sknp_vx() {
    let mut chip8 = setup();
    chip8.opcode = 0xE3A1;
    chip8.pc = 512;
    chip8.v[0x3] = 0x7;
    chip8.key[0x7] = false;
    sknp_vx(&mut chip8);

    assert_eq!(
        516, chip8.pc,
        "should increment program counter by 4 when `vx` value key is not pressed"
    );

    let mut pressed = setup();
    pressed.opcode = 0xE3A1;
    pressed.pc = 512;
    pressed.v[0x3] = 0x7;
    pressed.key[0x7] = true;
    sknp_vx(&mut pressed);

    assert_eq!(
        514, pressed.pc,
        "should increment program counter by 2 when `vx` value key is pressed"
    );
}

#[test]
fn test_ld_vx_dt() {
    let mut chip8 = setup();
    chip8.opcode = 0xF507;
    chip8.pc = 512;
    chip8.delay_timer = 42;
    ld_vx_dt(&mut chip8);

    assert_eq!(42, chip8.v[0x5], "should load the delay timer into `vx`");
    assert_eq!(514, chip8.pc, "should increment program counter by 2");
}

#[test]
fn test_ld_vx_k() {
    let mut chip8 = setup();
    chip8.opcode = 0xF30A;
    chip8.pc = 512;
    ld_vx_k(&mut chip8);

    assert_eq!(
        RunMode::AwaitingKey(0x3),
        chip8.mode,
        "should suspend fetching until a key press, owing the key to `vx`"
    );
    assert_eq!(512, chip8.pc, "should not advance the program counter yet");

    chip8.set_key(0xA, true);
    assert_eq!(0xA, chip8.v[0x3], "should store the pressed key in `vx`");
    assert_eq!(514, chip8.pc, "should advance past the waiting instruction");
    assert_eq!(RunMode::Running, chip8.mode, "should resume execution");
}

#[test]
fn test_ld_dt_vx() {
    let mut chip8 = setup();
    chip8.opcode = 0xF415;
    chip8.pc = 512;
    chip8.v[0x4] = 77;
    ld_dt_vx(&mut chip8);

    assert_eq!(77, chip8.delay_timer, "should load `vx` into the delay timer");
    assert_eq!(514, chip8.pc, "should increment program counter by 2");
}

#[test]
fn test_ld_st_vx() {
    let mut chip8 = setup();
    chip8.opcode = 0xF618;
    chip8.pc = 512;
    chip8.v[0x6] = 9;
    ld_st_vx(&mut chip8);

    assert_eq!(9, chip8.sound_timer, "should load `vx` into the sound timer");
    assert_eq!(514, chip8.pc, "should increment program counter by 2");
}

#[test]
fn test_add_i_vx() {
    let mut chip8 = setup();
    chip8.opcode = 0xF21E;
    chip8.pc = 512;
    chip8.i = 10;
    chip8.v[0x2] = 5;
    add_i_vx(&mut chip8);

    assert_eq!(15, chip8.i, "should add `vx` to `i`");
    assert_eq!(514, chip8.pc, "should increment program counter by 2");
}

#[test]
fn test_ld_f_vx() {
    let mut chip8 = setup();
    chip8.opcode = 0xF329;
    chip8.pc = 512;
    chip8.v[0x3] = 0xA;
    ld_f_vx(&mut chip8);

    assert_eq!(
        50, chip8.i,
        "should point `i` at the five-byte font glyph for the digit in `vx`"
    );
    assert_eq!(514, chip8.pc, "should increment program counter by 2");
}

#[test]
fn test_ld_b_vx() {
    let mut chip8 = setup();
    let test_opcode = 0xFB33;
    let initial_i: usize = 100;
    let initial_pc = 5;
    chip8.opcode = test_opcode;
    chip8.v[0xB] = 123;
    chip8.i = initial_i as u16;
    chip8.pc = initial_pc;
    ld_b_vx(&mut chip8).unwrap();

    assert_eq!(
        chip8.memory[initial_i..(initial_i + 3)],
        [1, 2, 3],
        "should store correct values in memory"
    );
    assert_eq!(
        chip8.pc,
        initial_pc + 2,
        "should increment program counter by 2"
    );
}

#[test]
fn test_ld_i_vx() {
    let mut chip8 = setup();
    let initial_pc = 512;
    let mem_start: usize = 1024;
    chip8.opcode = 0xFF55;
    chip8.pc = initial_pc;
    chip8.i = mem_start as u16;
    for i in 0..16 {
        chip8.v[i] = 123;
        chip8.memory[mem_start + i] = 0;
    }
    ld_i_vx(&mut chip8).unwrap();

    assert_eq!(
        chip8.v[0..0xF],
        chip8.memory[mem_start..mem_start + 0xF],
        "should copy `v` registers from `v0` to `v[x]` into memory"
    );
    assert_eq!(
        initial_pc + 2,
        chip8.pc,
        "should increment program counter by 2"
    );
}

#[test]
fn test_ld_vx_i() {
    let mut chip8 = setup();
    let initial_pc = 512;
    let mem_start: usize = 1024;
    chip8.opcode = 0xFF65;
    chip8.pc = initial_pc;
    chip8.i = mem_start as u16;
    for i in 0..0xF {
        chip8.v[i] = 0;
        chip8.memory[mem_start + i] = 123;
    }
    ld_vx_i(&mut chip8).unwrap();

    assert_eq!(
        chip8.memory[mem_start..mem_start + 0xF],
        chip8.v[0..0xF],
        "should copy values from memory into `v` registers"
    );
    assert_eq!(
        initial_pc + 2,
        chip8.pc,
        "should increment program counter by 2"
    );
}

#[test]
fn test_ld_b_vx_out_of_bounds() {
    let mut chip8 = setup();
    chip8.opcode = 0xFB33;
    chip8.v[0xB] = 123;
    chip8.i = 4094;
    chip8.pc = 512;
    let result = ld_b_vx(&mut chip8);

    assert_eq!(Err(EmulationError::OutOfBounds(4094)), result);
    assert_eq!(512, chip8.pc, "should leave the machine unchanged");
}

#[test]
fn test_stack_overflow_on_seventeenth_call() {
    let mut chip8 = setup();
    chip8.opcode = 0x2ABC;
    for depth in 1..=16 {
        call_addr(&mut chip8).unwrap();
        assert_eq!(depth, chip8.sp, "each nested call deepens the stack");
        chip8.pc = 0x200 + 2 * depth;
        chip8.opcode = 0x2ABC;
    }
    let result = call_addr(&mut chip8);
    assert_eq!(
        Err(EmulationError::StackOverflow),
        result,
        "the seventeenth nested call without a return must overflow"
    );
    assert_eq!(16, chip8.sp, "the failed call leaves the stack depth alone");
}

#[test]
fn test_stack_underflow_on_return_with_empty_stack() {
    let mut chip8 = setup();
    chip8.opcode = 0x00EE;
    let result = ret(&mut chip8);
    assert_eq!(Err(EmulationError::StackUnderflow), result);
}

#[test]
fn test_call_then_ret_round_trip() {
    let mut chip8 = setup();
    let initial_pc = chip8.pc;
    let initial_sp = chip8.sp;
    chip8.opcode = 0x2ABC;
    call_addr(&mut chip8).unwrap();
    chip8.opcode = 0x00EE;
    ret(&mut chip8).unwrap();

    assert_eq!(
        initial_pc + 2,
        chip8.pc,
        "control returns to the instruction after the call"
    );
    assert_eq!(initial_sp, chip8.sp, "the stack depth is restored");
}

#[test]
fn test_load_then_add_wraps_modulo_256() {
    for &(x, kk) in [(0usize, 200u8), (7, 30), (14, 255)].iter() {
        let mut chip8 = setup();
        chip8.opcode = 0x6000 | ((x as u16) << 8) | kk as u16;
        ld_vx_byte(&mut chip8);
        let former = chip8.v[x];
        chip8.opcode = 0x7000 | ((x as u16) << 8) | kk as u16;
        add_vx_byte(&mut chip8);
        assert_eq!(
            ((former as u16 + kk as u16) % 256) as u8,
            chip8.v[x],
            "after 6xkk then 7xkk, `vx` is the loaded value plus kk modulo 256"
        );
    }
}

#[test]
fn test_drw_twice_restores_framebuffer() {
    let mut chip8 = setup();
    chip8.opcode = 0xD124;
    chip8.i = 1000;
    chip8.v[0x1] = 3;
    chip8.v[0x2] = 5;
    for k in 0..4 {
        chip8.memory[1000 + k] = 0b11001010;
    }
    let before = chip8.gfx.clone();
    drw_vx_vy_nibble(&mut chip8).unwrap();
    chip8.pc = 512;
    drw_vx_vy_nibble(&mut chip8).unwrap();
    assert_eq!(
        before, chip8.gfx,
        "drawing the same sprite twice restores the framebuffer"
    );
}

#[test]
fn test_drw_second_draw_clears_vf_when_first_leaves_dark() {
    let mut chip8 = setup();
    chip8.opcode = 0xD121;
    chip8.i = 1000;
    chip8.v[0x1] = 8;
    chip8.v[0x2] = 2;
    chip8.memory[1000] = 0b10110001;
    // Pre-seed the covered cells with exactly the sprite pattern, so the
    // first draw turns them all off.
    for c in 0..8 {
        chip8.gfx[2 * 64 + 8 + c] = (0b10110001u8 >> (7 - c)) & 1;
    }
    drw_vx_vy_nibble(&mut chip8).unwrap();
    assert_eq!(1, chip8.v[0xF], "the first draw flips lit cells off");
    for c in 0..8 {
        assert_eq!(0, chip8.gfx[2 * 64 + 8 + c], "the first draw leaves no 1-bits");
    }
    drw_vx_vy_nibble(&mut chip8).unwrap();
    assert_eq!(
        0,
        chip8.v[0xF],
        "the second draw collides with nothing when the first left the region dark"
    );
}

#[test]
fn test_drw_wraps_at_right_edge() {
    let mut chip8 = setup();
    chip8.opcode = 0xD451;
    chip8.i = 2000;
    chip8.v[0x4] = 60;
    chip8.v[0x5] = 9;
    chip8.memory[2000] = 0xFF;
    drw_vx_vy_nibble(&mut chip8).unwrap();

    for col in 60..64 {
        assert_eq!(1, chip8.gfx[9 * 64 + col], "columns 60-63 take the first four bits");
    }
    for col in 0..4 {
        assert_eq!(1, chip8.gfx[9 * 64 + col], "columns 0-3 take the remaining four bits");
    }
    for col in 4..60 {
        assert_eq!(0, chip8.gfx[9 * 64 + col], "no other column of the row is touched");
    }
}

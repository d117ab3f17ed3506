use chip8::machine::{FONT_SET, MEMORY_SIZE, PROGRAM_START};
use chip8::{Chip8, Chip8Error};

fn assemble(words: &[u16]) -> Vec<u8> {
    let mut bytes = Vec::new();
    for word in words {
        bytes.push((word >> 8) as u8);
        bytes.push((word & 0xFF) as u8);
    }
    bytes
}

fn boot(words: &[u16]) -> Chip8 {
    let mut vm = Chip8::new();
    vm.load_rom(&assemble(words)).expect("the program fits");
    vm
}

fn run_all(words: &[u16]) -> Chip8 {
    let mut vm = boot(words);
    for _ in 0..words.len() {
        vm.run().expect("no fault");
    }
    vm
}

fn lit_cells(vm: &Chip8) -> Vec<usize> {
    let cells = vm.screen().buffer();
    (0..cells.len()).filter(|k| cells[*k] == 1).collect()
}

#[test]
fn new_machine_is_all_zero_and_starts_at_0x200() {
    let vm = Chip8::new();
    assert_eq!(vm.registers(), [0u8; 16]);
    assert_eq!(vm.index(), 0);
    assert_eq!(vm.delay_timer(), 0);
    assert_eq!(vm.sound_timer(), 0);
    assert_eq!(vm.pc(), 0x200);
    assert_eq!(vm.keys(), [false; 16]);
    assert!(vm.stack().is_empty());
    assert!(vm.memory().iter().all(|b| *b == 0));
    assert!(vm.screen().buffer().iter().all(|c| *c == 0));
    assert_eq!(PROGRAM_START, 0x200);
    assert_eq!(MEMORY_SIZE, 4096);
}

#[test]
fn load_puts_font_at_zero_and_program_at_0x200() {
    let rom: Vec<u8> = (0..=255u8).rev().collect();
    let mut vm = Chip8::new();
    assert_eq!(vm.load_rom(&rom), Ok(()));
    let mem = vm.memory();
    assert_eq!(&mem[0..80], &FONT_SET[..]);
    assert_eq!(&mem[0x200..0x200 + rom.len()], &rom[..]);
    assert!(mem[80..0x200].iter().all(|b| *b == 0));
    assert!(mem[0x200 + rom.len()..].iter().all(|b| *b == 0));
    assert_eq!(vm.pc(), 0x200);
}

#[test]
fn font_table_has_the_sixteen_glyphs() {
    assert_eq!(FONT_SET.len(), 80);
    assert_eq!(&FONT_SET[0..5], &[0xF0, 0x90, 0x90, 0x90, 0xF0]);
    assert_eq!(&FONT_SET[5..10], &[0x20, 0x60, 0x20, 0x20, 0x70]);
    assert_eq!(&FONT_SET[35..40], &[0xF0, 0x10, 0x20, 0x40, 0x40]);
    assert_eq!(&FONT_SET[75..80], &[0xF0, 0x80, 0xF0, 0x80, 0x80]);
    assert_eq!(FONT_SET.iter().map(|b| *b as u32).sum::<u32>(), 12_896);
}

#[test]
fn load_overwrites_what_was_there() {
    let mut vm = Chip8::new();
    vm.load_rom(&[1, 2, 3, 4]).unwrap();
    vm.load_rom(&[9, 8]).unwrap();
    let mem = vm.memory();
    assert_eq!(&mem[0x200..0x204], &[9, 8, 3, 4]);
    assert_eq!(&mem[0..80], &FONT_SET[..]);
}

#[test]
fn load_restores_a_font_that_the_program_overwrote() {
    // I = 0, V0 = 0xAB, V1 = 0xCD, store two registers at I.
    let mut vm = run_all(&[0xA000, 0x60AB, 0x61CD, 0xF255]);
    assert_eq!(&vm.memory()[0..2], &[0xAB, 0xCD]);
    vm.load_rom(&[]).unwrap();
    assert_eq!(&vm.memory()[0..80], &FONT_SET[..]);
}

#[test]
fn load_accepts_a_program_that_fills_memory() {
    let rom = vec![0x5A; MEMORY_SIZE - PROGRAM_START];
    let mut vm = Chip8::new();
    assert_eq!(vm.load_rom(&rom), Ok(()));
    assert_eq!(vm.memory()[4095], 0x5A);
    assert_eq!(vm.memory()[0x200], 0x5A);
}

#[test]
fn load_refuses_a_program_that_does_not_fit() {
    let rom = vec![0x5A; MEMORY_SIZE - PROGRAM_START + 1];
    let mut vm = Chip8::new();
    assert_eq!(vm.load_rom(&rom), Err(Chip8Error::AddressOutOfRange { addr: 4096 }));
    assert!(vm.memory().iter().all(|b| *b == 0));
}

#[test]
fn load_of_empty_program_still_loads_the_font() {
    let mut vm = Chip8::new();
    assert_eq!(vm.load_rom(&[]), Ok(()));
    assert_eq!(&vm.memory()[0..80], &FONT_SET[..]);
    assert!(vm.memory()[80..].iter().all(|b| *b == 0));
}

#[test]
fn ld_vb_sets_register_and_advances() {
    let mut vm = boot(&[0x6A7F]);
    assert_eq!(vm.run(), Ok(()));
    assert_eq!(vm.registers()[0xA], 0x7F);
    assert_eq!(vm.pc(), 0x202);
}

#[test]
fn ld_vv_copies_register() {
    let vm = run_all(&[0x6133, 0x8210]);
    assert_eq!(vm.registers()[2], 0x33);
    assert_eq!(vm.registers()[1], 0x33);
}

#[test]
fn add_vv_sets_carry() {
    let vm = run_all(&[0x60C8, 0x6164, 0x8014]);
    assert_eq!(vm.registers()[0], 44);
    assert_eq!(vm.registers()[0xF], 1);
}

#[test]
fn add_vv_clears_carry() {
    let vm = run_all(&[0x6F01, 0x6064, 0x619B, 0x8014]);
    assert_eq!(vm.registers()[0], 255);
    assert_eq!(vm.registers()[0xF], 0);
}

#[test]
fn add_vv_into_vf_keeps_the_sum() {
    let vm = run_all(&[0x6FC8, 0x6164, 0x8F14]);
    assert_eq!(vm.registers()[0xF], 44);
}

#[test]
fn add_vb_wraps_without_flag() {
    let vm = run_all(&[0x6F07, 0x60FA, 0x700A]);
    assert_eq!(vm.registers()[0], 4);
    assert_eq!(vm.registers()[0xF], 7);
}

#[test]
fn sub_without_borrow() {
    let vm = run_all(&[0x600A, 0x6103, 0x8015]);
    assert_eq!(vm.registers()[0], 7);
    assert_eq!(vm.registers()[0xF], 1);
}

#[test]
fn sub_with_borrow() {
    let vm = run_all(&[0x6003, 0x610A, 0x8015]);
    assert_eq!(vm.registers()[0], 249);
    assert_eq!(vm.registers()[0xF], 0);
}

#[test]
fn sub_of_equal_values_clears_flag() {
    let vm = run_all(&[0x6F01, 0x6005, 0x6105, 0x8015]);
    assert_eq!(vm.registers()[0], 0);
    assert_eq!(vm.registers()[0xF], 0);
}

#[test]
fn subn_subtracts_the_other_way() {
    let vm = run_all(&[0x6003, 0x610A, 0x8017]);
    assert_eq!(vm.registers()[0], 7);
    assert_eq!(vm.registers()[0xF], 1);
    let vm = run_all(&[0x600A, 0x6103, 0x8017]);
    assert_eq!(vm.registers()[0], 249);
    assert_eq!(vm.registers()[0xF], 0);
}

#[test]
fn shr_moves_low_bit_to_flag() {
    let vm = run_all(&[0x6003, 0x8006]);
    assert_eq!(vm.registers()[0], 1);
    assert_eq!(vm.registers()[0xF], 1);
    let vm = run_all(&[0x6F01, 0x60FE, 0x8006]);
    assert_eq!(vm.registers()[0], 0x7F);
    assert_eq!(vm.registers()[0xF], 0);
}

#[test]
fn shl_doubles_and_flags_top_bit() {
    let vm = run_all(&[0x6081, 0x800E]);
    assert_eq!(vm.registers()[0], 0x02);
    assert_eq!(vm.registers()[0xF], 1);
    let vm = run_all(&[0x6F01, 0x6040, 0x800E]);
    assert_eq!(vm.registers()[0], 0x80);
    assert_eq!(vm.registers()[0xF], 0);
}

#[test]
fn shl_of_vf_doubles_the_flag() {
    let vm = run_all(&[0x6F80, 0x8F0E]);
    assert_eq!(vm.registers()[0xF], 2);
    let vm = run_all(&[0x6F7F, 0x8F0E]);
    assert_eq!(vm.registers()[0xF], 0);
}

#[test]
fn or_and_xor_combine_bits() {
    let vm = run_all(&[0x60CA, 0x61AC, 0x8011]);
    assert_eq!(vm.registers()[0], 0xEE);
    let vm = run_all(&[0x60CA, 0x61AC, 0x8012]);
    assert_eq!(vm.registers()[0], 0x88);
    let vm = run_all(&[0x60CA, 0x61AC, 0x8013]);
    assert_eq!(vm.registers()[0], 0x66);
}

#[test]
fn ld_ia_sets_index() {
    let vm = run_all(&[0xAFED]);
    assert_eq!(vm.index(), 0xFED);
}

#[test]
fn add_iv_flags_sums_over_255() {
    let vm = run_all(&[0xA00A, 0x6005, 0xF01E]);
    assert_eq!(vm.index(), 15);
    assert_eq!(vm.registers()[0xF], 0);
    let vm = run_all(&[0xA0FF, 0x6001, 0xF01E]);
    assert_eq!(vm.index(), 0x100);
    assert_eq!(vm.registers()[0xF], 1);
    let vm = run_all(&[0xA0F0, 0x600F, 0xF01E]);
    assert_eq!(vm.index(), 0xFF);
    assert_eq!(vm.registers()[0xF], 0);
}

#[test]
fn add_iv_goes_past_4095_unmasked() {
    let vm = run_all(&[0xAFFF, 0x60FF, 0xF01E]);
    assert_eq!(vm.index(), 0xFFF + 0xFF);
    assert_eq!(vm.registers()[0xF], 1);
}

#[test]
fn add_iv_wraps_at_sixteen_bits() {
    let mut words = vec![0xAFFF, 0x60FF];
    words.extend(std::iter::repeat(0xF01E).take(241));
    let vm = run_all(&words);
    assert_eq!(vm.index(), 14);
    assert_eq!(vm.registers()[0xF], 1);
}

#[test]
fn ld_fv_points_at_glyph() {
    let vm = run_all(&[0x600A, 0xF029]);
    assert_eq!(vm.index(), 50);
    let vm = run_all(&[0x60FF, 0xF029]);
    assert_eq!(vm.index(), 1275);
}

#[test]
fn ld_bv_stores_its_three_digits() {
    let vm = run_all(&[0x60EA, 0xA300, 0xF033]);
    assert_eq!(&vm.memory()[0x300..0x303], &[2, 2, 4]);
    let vm = run_all(&[0x6063, 0xA300, 0xF033]);
    assert_eq!(&vm.memory()[0x300..0x303], &[0, 0, 9]);
    let vm = run_all(&[0x607B, 0xA300, 0xF033]);
    assert_eq!(&vm.memory()[0x300..0x303], &[1, 1, 3]);
}

#[test]
fn ld_bv_at_the_last_three_bytes() {
    let vm = run_all(&[0x60FF, 0xAFFD, 0xF033]);
    assert_eq!(&vm.memory()[0xFFD..], &[2, 2, 5]);
}

#[test]
fn ld_bv_past_the_end_is_a_fault() {
    let mut vm = boot(&[0x60FF, 0xAFFE, 0xF033]);
    vm.run().unwrap();
    vm.run().unwrap();
    let before = *vm.memory();
    assert_eq!(vm.run(), Err(Chip8Error::AddressOutOfRange { addr: 4096 }));
    assert_eq!(*vm.memory(), before);
    assert_eq!(vm.pc(), 0x204);
}

#[test]
fn ld_iv_stores_x_registers_not_x_plus_one() {
    let vm = run_all(&[0x6011, 0x6122, 0x6233, 0x6344, 0xA300, 0xF355]);
    assert_eq!(&vm.memory()[0x300..0x304], &[0x11, 0x22, 0x33, 0x00]);
    assert_eq!(vm.index(), 0x300);
}

#[test]
fn ld_iv_with_x_zero_stores_nothing() {
    let mut vm = boot(&[0x6011, 0xA300, 0xF055]);
    vm.run().unwrap();
    vm.run().unwrap();
    let before = *vm.memory();
    assert_eq!(vm.run(), Ok(()));
    assert_eq!(*vm.memory(), before);
    assert_eq!(vm.pc(), 0x206);
}

#[test]
fn ld_vi_loads_x_registers_not_x_plus_one() {
    // The bytes of the program itself serve as data.
    let vm = run_all(&[0x63EE, 0xA200, 0xF365]);
    assert_eq!(&vm.registers()[0..4], &[0x63, 0xEE, 0xA2, 0xEE]);
}

#[test]
fn ld_iv_past_the_end_is_a_fault_and_stores_nothing() {
    let mut vm = boot(&[0x60AA, 0x61BB, 0xAFFF, 0xF255]);
    for _ in 0..3 {
        vm.run().unwrap();
    }
    assert_eq!(vm.run(), Err(Chip8Error::AddressOutOfRange { addr: 4096 }));
    assert_eq!(vm.memory()[0xFFF], 0);
}

#[test]
fn ld_vi_past_the_end_is_a_fault_and_loads_nothing() {
    let mut vm = boot(&[0x60AA, 0x61BB, 0xAFFF, 0xF265]);
    for _ in 0..3 {
        vm.run().unwrap();
    }
    assert_eq!(vm.run(), Err(Chip8Error::AddressOutOfRange { addr: 4096 }));
    assert_eq!(&vm.registers()[0..2], &[0xAA, 0xBB]);
}

#[test]
fn fault_names_the_first_address_outside_memory() {
    // I = 0xFFF + 0xFF = 0x10FE, then store one register there.
    let mut vm = boot(&[0xAFFF, 0x60FF, 0xF01E, 0xF155]);
    for _ in 0..3 {
        vm.run().unwrap();
    }
    assert_eq!(vm.run(), Err(Chip8Error::AddressOutOfRange { addr: 0x10FE }));
}

#[test]
fn jmp_sets_pc() {
    let mut vm = boot(&[0x1ABC]);
    vm.run().unwrap();
    assert_eq!(vm.pc(), 0xABC);
}

#[test]
fn jmp_va_adds_v0_unmasked() {
    let mut vm = boot(&[0x6010, 0xB300]);
    vm.run().unwrap();
    vm.run().unwrap();
    assert_eq!(vm.pc(), 0x310);
    let mut vm = boot(&[0x60FF, 0xBFFF]);
    vm.run().unwrap();
    vm.run().unwrap();
    assert_eq!(vm.pc(), 0xFFF + 0xFF);
    assert_eq!(vm.run(), Err(Chip8Error::AddressOutOfRange { addr: 0xFFF + 0xFF }));
}

#[test]
fn fetch_at_the_last_byte_is_a_fault() {
    let mut vm = boot(&[0x1FFF]);
    vm.run().unwrap();
    assert_eq!(vm.pc(), 0xFFF);
    assert_eq!(vm.run(), Err(Chip8Error::AddressOutOfRange { addr: 4096 }));
    assert_eq!(vm.pc(), 0xFFF);
}

#[test]
fn fetch_of_the_last_word_succeeds() {
    let mut rom = vec![0u8; MEMORY_SIZE - PROGRAM_START];
    rom[0] = 0x1F;
    rom[1] = 0xFE;
    let last = rom.len() - 2;
    rom[last] = 0x6A;
    rom[last + 1] = 0x55;
    let mut vm = Chip8::new();
    vm.load_rom(&rom).unwrap();
    vm.run().unwrap();
    assert_eq!(vm.pc(), 0xFFE);
    assert_eq!(vm.run(), Ok(()));
    assert_eq!(vm.registers()[0xA], 0x55);
    assert_eq!(vm.pc(), 0x1000);
    assert_eq!(vm.run(), Err(Chip8Error::AddressOutOfRange { addr: 0x1000 }));
}

#[test]
fn call_then_ret_round_trip() {
    // 0x200: call 0x206; 0x202: V1 = 1; 0x206: ret.
    let mut vm = boot(&[0x2206, 0x6101, 0x0000, 0x00EE]);
    vm.run().unwrap();
    assert_eq!(vm.pc(), 0x206);
    assert_eq!(vm.stack(), &[0x200]);
    vm.run().unwrap();
    assert_eq!(vm.pc(), 0x202);
    assert!(vm.stack().is_empty());
    vm.run().unwrap();
    assert_eq!(vm.registers()[1], 1);
}

#[test]
fn nested_calls_return_in_reverse_order() {
    // 0x200: call 0x204; 0x202: jmp 0x202; 0x204: call 0x208; 0x206: ret; 0x208: ret.
    let mut vm = boot(&[0x2204, 0x1202, 0x2208, 0x00EE, 0x00EE]);
    vm.run().unwrap();
    vm.run().unwrap();
    assert_eq!(vm.stack(), &[0x200, 0x204]);
    assert_eq!(vm.pc(), 0x208);
    vm.run().unwrap();
    assert_eq!(vm.stack(), &[0x200]);
    assert_eq!(vm.pc(), 0x206);
    vm.run().unwrap();
    assert!(vm.stack().is_empty());
    assert_eq!(vm.pc(), 0x202);
}

#[test]
fn ret_on_empty_stack_is_a_fault() {
    let mut vm = boot(&[0x6A01, 0x00EE]);
    vm.run().unwrap();
    assert_eq!(vm.run(), Err(Chip8Error::StackUnderflow));
    assert_eq!(vm.pc(), 0x202);
    assert_eq!(vm.registers()[0xA], 1);
    assert!(vm.stack().is_empty());
}

#[test]
fn unknown_opcode_is_a_fault_and_changes_nothing() {
    let mut vm = boot(&[0x6005, 0xF015, 0xFFFF]);
    vm.run().unwrap();
    vm.run().unwrap();
    assert_eq!(vm.delay_timer(), 4);
    assert_eq!(vm.run(), Err(Chip8Error::UnknownOpcode { opcode: 0xFFFF, pc: 0x204 }));
    assert_eq!(vm.pc(), 0x204);
    assert_eq!(vm.delay_timer(), 4);
    assert_eq!(vm.run(), Err(Chip8Error::UnknownOpcode { opcode: 0xFFFF, pc: 0x204 }));
}

#[test]
fn zero_word_is_unknown() {
    let mut vm = Chip8::new();
    assert_eq!(vm.run(), Err(Chip8Error::UnknownOpcode { opcode: 0, pc: 0x200 }));
}

#[test]
fn se_vb_skips_on_equal() {
    let mut vm = boot(&[0x3000]);
    vm.run().unwrap();
    assert_eq!(vm.pc(), 0x204);
    let mut vm = boot(&[0x3001]);
    vm.run().unwrap();
    assert_eq!(vm.pc(), 0x202);
}

#[test]
fn sne_vb_skips_on_unequal() {
    let mut vm = boot(&[0x4001]);
    vm.run().unwrap();
    assert_eq!(vm.pc(), 0x204);
    let mut vm = boot(&[0x4000]);
    vm.run().unwrap();
    assert_eq!(vm.pc(), 0x202);
}

#[test]
fn se_vv_skips_on_equal() {
    let mut vm = boot(&[0x6107, 0x6207, 0x5120]);
    for _ in 0..3 {
        vm.run().unwrap();
    }
    assert_eq!(vm.pc(), 0x208);
    let mut vm = boot(&[0x6107, 0x6208, 0x5120]);
    for _ in 0..3 {
        vm.run().unwrap();
    }
    assert_eq!(vm.pc(), 0x206);
}

#[test]
fn sne_vv_skips_on_unequal() {
    let mut vm = boot(&[0x6107, 0x6208, 0x9120]);
    for _ in 0..3 {
        vm.run().unwrap();
    }
    assert_eq!(vm.pc(), 0x208);
    let mut vm = boot(&[0x6107, 0x6207, 0x9120]);
    for _ in 0..3 {
        vm.run().unwrap();
    }
    assert_eq!(vm.pc(), 0x206);
}

#[test]
fn skp_skips_when_key_is_down() {
    let mut vm = boot(&[0x6005, 0xE09E]);
    vm.press(5);
    vm.run().unwrap();
    vm.run().unwrap();
    assert_eq!(vm.pc(), 0x206);
    let mut vm = boot(&[0x6005, 0xE09E]);
    vm.press(4);
    vm.run().unwrap();
    vm.run().unwrap();
    assert_eq!(vm.pc(), 0x204);
}

#[test]
fn sknp_skips_when_key_is_up() {
    let mut vm = boot(&[0x6005, 0xE0A1]);
    vm.press(4);
    vm.run().unwrap();
    vm.run().unwrap();
    assert_eq!(vm.pc(), 0x206);
    let mut vm = boot(&[0x6005, 0xE0A1]);
    vm.press(5);
    vm.run().unwrap();
    vm.run().unwrap();
    assert_eq!(vm.pc(), 0x204);
}

#[test]
fn key_test_of_no_key_is_a_fault() {
    let mut vm = boot(&[0x6010, 0xE09E]);
    vm.run().unwrap();
    assert_eq!(vm.run(), Err(Chip8Error::KeyOutOfRange { key: 16 }));
    assert_eq!(vm.pc(), 0x202);
    let mut vm = boot(&[0x60FF, 0xE0A1]);
    vm.run().unwrap();
    assert_eq!(vm.run(), Err(Chip8Error::KeyOutOfRange { key: 255 }));
    assert_eq!(vm.pc(), 0x202);
}

#[test]
fn press_and_reset_keys() {
    let mut vm = Chip8::new();
    vm.press(0);
    vm.press(15);
    vm.press(15);
    let mut expected = [false; 16];
    expected[0] = true;
    expected[15] = true;
    assert_eq!(vm.keys(), expected);
    vm.reset_keys();
    assert_eq!(vm.keys(), [false; 16]);
}

#[test]
fn ld_vk_waits_while_no_key_is_down() {
    let mut vm = boot(&[0xF30A, 0x6A01]);
    for _ in 0..25 {
        assert_eq!(vm.run(), Ok(()));
        assert_eq!(vm.pc(), 0x200);
        assert_eq!(vm.registers(), [0u8; 16]);
    }
    vm.press(7);
    assert_eq!(vm.run(), Ok(()));
    assert_eq!(vm.pc(), 0x202);
    assert_eq!(vm.registers()[3], 7);
    vm.run().unwrap();
    assert_eq!(vm.registers()[0xA], 1);
}

#[test]
fn ld_vk_waits_again_after_keys_are_reset() {
    let mut vm = boot(&[0xF30A, 0x1200]);
    vm.press(2);
    vm.run().unwrap();
    vm.run().unwrap();
    assert_eq!(vm.pc(), 0x200);
    vm.reset_keys();
    vm.run().unwrap();
    assert_eq!(vm.pc(), 0x200);
    assert_eq!(vm.registers()[3], 2);
}

#[test]
fn ld_vk_takes_the_highest_key_down() {
    let mut vm = boot(&[0xF30A]);
    vm.press(9);
    vm.press(2);
    vm.press(12);
    vm.press(4);
    vm.run().unwrap();
    assert_eq!(vm.registers()[3], 12);
    let mut vm = boot(&[0xF30A]);
    vm.press(0);
    vm.run().unwrap();
    assert_eq!(vm.registers()[3], 0);
    assert_eq!(vm.pc(), 0x202);
}

#[test]
fn ld_vk_lets_timers_run_while_waiting() {
    let mut vm = boot(&[0x6003, 0xF015, 0xF30A]);
    vm.run().unwrap();
    vm.run().unwrap();
    assert_eq!(vm.delay_timer(), 2);
    vm.run().unwrap();
    assert_eq!((vm.pc(), vm.delay_timer()), (0x204, 1));
    vm.run().unwrap();
    assert_eq!((vm.pc(), vm.delay_timer()), (0x204, 0));
    vm.run().unwrap();
    assert_eq!((vm.pc(), vm.delay_timer()), (0x204, 0));
}

#[test]
fn timer_set_to_five_reads_four_after_that_step() {
    let mut vm = boot(&[0x6005, 0xF015, 0xF018]);
    vm.run().unwrap();
    vm.run().unwrap();
    assert_eq!(vm.delay_timer(), 4);
    vm.run().unwrap();
    assert_eq!(vm.sound_timer(), 4);
    assert_eq!(vm.delay_timer(), 3);
}

#[test]
fn delay_timer_decays_to_zero_and_stays() {
    let mut vm = boot(&[0x6006, 0xF015, 0x6100, 0x6100, 0x6100, 0x6100, 0x6100, 0x6100, 0x6100]);
    vm.run().unwrap();
    vm.run().unwrap();
    assert_eq!(vm.delay_timer(), 5);
    for left in [4u8, 3, 2, 1, 0] {
        vm.run().unwrap();
        assert_eq!(vm.delay_timer(), left);
    }
    vm.run().unwrap();
    assert_eq!(vm.delay_timer(), 0);
    vm.run().unwrap();
    assert_eq!(vm.delay_timer(), 0);
}

#[test]
fn sound_timer_decays_to_zero_and_stays() {
    let mut vm = boot(&[0x6003, 0xF018, 0x6100, 0x6100, 0x6100, 0x6100]);
    vm.run().unwrap();
    vm.run().unwrap();
    assert_eq!(vm.sound_timer(), 2);
    for left in [1u8, 0, 0, 0] {
        vm.run().unwrap();
        assert_eq!(vm.sound_timer(), left);
    }
}

#[test]
fn ld_vdt_reads_the_timer_before_it_ticks() {
    let vm = run_all(&[0x6009, 0xF015, 0xF107]);
    assert_eq!(vm.registers()[1], 8);
    assert_eq!(vm.delay_timer(), 7);
}

#[test]
fn timers_do_not_tick_on_a_fault() {
    let mut vm = boot(&[0x6009, 0xF015, 0x00EE]);
    vm.run().unwrap();
    vm.run().unwrap();
    assert_eq!(vm.delay_timer(), 8);
    assert_eq!(vm.run(), Err(Chip8Error::StackUnderflow));
    assert_eq!(vm.delay_timer(), 8);
}

#[test]
fn rnd_masks_the_given_byte() {
    let mut vm = boot(&[0xC50F, 0xC6F0, 0xC7FF, 0xC800]);
    for _ in 0..4 {
        assert_eq!(vm.run_with(0xAB), Ok(()));
    }
    assert_eq!(&vm.registers()[5..9], &[0x0B, 0xA0, 0xAB, 0x00]);
    assert_eq!(vm.pc(), 0x208);
}

#[test]
fn rnd_with_zero_mask_is_zero() {
    let mut vm = boot(&[0x65FF, 0xC500]);
    vm.run().unwrap();
    vm.run().unwrap();
    assert_eq!(vm.registers()[5], 0);
}

#[test]
fn rnd_stays_within_the_mask() {
    let mut vm = boot(&[0xC50F, 0x1200]);
    for _ in 0..200 {
        vm.run().unwrap();
        assert!(vm.registers()[5] <= 0x0F);
        vm.run().unwrap();
    }
}

#[test]
fn rnd_draws_different_bytes() {
    let mut vm = boot(&[0xC5FF, 0x1200]);
    let mut seen = [false; 256];
    for _ in 0..400 {
        vm.run().unwrap();
        seen[vm.registers()[5] as usize] = true;
        vm.run().unwrap();
    }
    assert!(seen.iter().filter(|s| **s).count() > 32);
}

#[test]
fn run_with_ignores_the_byte_for_other_operations() {
    let words = [0x60C8, 0x6164, 0x8014, 0xA123, 0xF01E];
    let mut one = boot(&words);
    let mut other = boot(&words);
    for _ in 0..words.len() {
        assert_eq!(one.run_with(0x00), other.run_with(0xFF));
    }
    assert_eq!(one.registers(), other.registers());
    assert_eq!(one.index(), other.index());
    assert_eq!(one.pc(), other.pc());
}

#[test]
fn drw_draws_a_glyph_from_the_font() {
    // V0 = 1, I = glyph of V0, draw 5 rows at (V1, V2) = (8, 4).
    let vm = run_all(&[0x6001, 0xF029, 0x6108, 0x6204, 0xD125]);
    assert_eq!(vm.registers()[0xF], 0);
    let at = |col: usize, row: usize| row * 64 + col;
    let expected = vec![
        at(10, 4),
        at(9, 5),
        at(10, 5),
        at(10, 6),
        at(10, 7),
        at(9, 8),
        at(10, 8),
        at(11, 8),
    ];
    assert_eq!(lit_cells(&vm), expected);
    assert_eq!(vm.pc(), 0x20A);
}

#[test]
fn drw_twice_restores_the_screen_and_sets_vf() {
    let mut vm = boot(&[0x600A, 0xF029, 0x6114, 0x620A, 0xD125, 0xD125]);
    for _ in 0..5 {
        vm.run().unwrap();
    }
    assert_eq!(vm.registers()[0xF], 0);
    assert_eq!(lit_cells(&vm).len(), 14);
    vm.run().unwrap();
    assert_eq!(vm.registers()[0xF], 1);
    assert!(lit_cells(&vm).is_empty());
}

#[test]
fn drw_resets_vf_when_nothing_collides() {
    let vm = run_all(&[0x6F01, 0xA000, 0xD001]);
    assert_eq!(vm.registers()[0xF], 0);
    assert_eq!(lit_cells(&vm), vec![0, 1, 2, 3]);
}

#[test]
fn drw_with_no_rows_draws_nothing_and_clears_vf() {
    let vm = run_all(&[0x6F01, 0xAFFF, 0x60FF, 0xF01E, 0xD120]);
    assert_eq!(vm.index(), 0x10FE);
    assert_eq!(vm.registers()[0xF], 0);
    assert!(lit_cells(&vm).is_empty());
    assert_eq!(vm.pc(), 0x20A);
}

#[test]
fn drw_reads_its_coordinates_before_it_clears_vf() {
    // VF = 3 serves as the column.
    let vm = run_all(&[0x6F03, 0xA000, 0xDF11]);
    assert_eq!(lit_cells(&vm), vec![3, 4, 5, 6]);
    assert_eq!(vm.registers()[0xF], 0);
}

#[test]
fn drw_past_the_end_of_memory_is_a_fault() {
    let mut vm = boot(&[0x6F01, 0xAFFE, 0xD003]);
    vm.run().unwrap();
    vm.run().unwrap();
    assert_eq!(vm.run(), Err(Chip8Error::AddressOutOfRange { addr: 4096 }));
    assert_eq!(vm.registers()[0xF], 1);
    assert!(lit_cells(&vm).is_empty());
    assert_eq!(vm.pc(), 0x204);
}

#[test]
fn drw_clamps_to_the_last_cell() {
    // Glyph 0 starts with 0xF0: four set bits at columns 62 to 65 of row 31.
    // The first lands on 2046; the other three all land on the last cell.
    let vm = run_all(&[0x603E, 0x611F, 0xA000, 0xD011]);
    assert_eq!(lit_cells(&vm), vec![2046, 2047]);
    assert_eq!(vm.registers()[0xF], 1);
}

#[test]
fn cls_blanks_the_screen() {
    let mut vm = boot(&[0xA000, 0xD005, 0x610A, 0xD115, 0x00E0]);
    for _ in 0..4 {
        vm.run().unwrap();
    }
    assert!(!lit_cells(&vm).is_empty());
    vm.run().unwrap();
    assert_eq!(vm.screen().buffer().len(), 2048);
    assert!(vm.screen().buffer().iter().all(|c| *c == 0));
    assert_eq!(vm.pc(), 0x20A);
}

#[test]
fn cls_leaves_registers_and_memory_alone() {
    let mut vm = boot(&[0x6F01, 0x6A22, 0xA123, 0x00E0]);
    for _ in 0..3 {
        vm.run().unwrap();
    }
    let regs = vm.registers();
    let mem = *vm.memory();
    vm.run().unwrap();
    assert_eq!(vm.registers(), regs);
    assert_eq!(*vm.memory(), mem);
    assert_eq!(vm.index(), 0x123);
}

#[test]
fn a_small_program_counts_to_ten() {
    // V0 = 0; loop: V0 += 1; skip if V0 == 10; jmp loop; V1 = 0xEE.
    let mut vm = boot(&[0x6000, 0x7001, 0x300A, 0x1202, 0x61EE]);
    let mut steps = 0;
    while vm.registers()[1] != 0xEE {
        vm.run().unwrap();
        steps += 1;
        assert!(steps < 100);
    }
    assert_eq!(vm.registers()[0], 10);
    assert_eq!(steps, 1 + 10 * 3);
}

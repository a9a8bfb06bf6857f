use chip8::vm::Renderer;
use chip8::vm::VM;

struct NullRenderer;

impl Renderer for NullRenderer {
    fn clear_screen(&mut self) {}

    fn handle_event(&mut self) -> Result<[bool; 16], ()> {
        Ok([false; 16])
    }

    fn draw(&mut self, _pixels: &[bool; 2048]) {}
}

fn machine_with_program(words: &[u16]) -> VM {
    let mut vm = VM::new();
    let mut image: Vec<u8> = Vec::new();
    for w in words {
        image.push((w >> 8) as u8);
        image.push((w & 0xFF) as u8);
    }
    assert!(vm.load_image(&image));
    vm
}

fn step(vm: &mut VM) {
    let r = vm.cycle_with_random([false; 16], 0, &mut NullRenderer);
    assert!(r.is_ok());
}

fn step_keys(vm: &mut VM, keys: [bool; 16]) {
    let r = vm.cycle_with_random(keys, 0, &mut NullRenderer);
    assert!(r.is_ok());
}

#[test]
fn skip_if_equal_byte() {
    // V0=7: "skip if V0==7" jumps over the next instruction.
    let mut vm = machine_with_program(&[0x6007, 0x3007, 0x6101, 0x6201]);
    step(&mut vm);
    step(&mut vm);
    assert_eq!(vm.get_pc(), 0x206);
    step(&mut vm);
    assert_eq!(vm.get_register(1), 0);
    assert_eq!(vm.get_register(2), 1);

    // "skip if V0==8" does not skip.
    let mut vm = machine_with_program(&[0x6007, 0x3008, 0x6101]);
    step(&mut vm);
    step(&mut vm);
    assert_eq!(vm.get_pc(), 0x204);
    step(&mut vm);
    assert_eq!(vm.get_register(1), 1);
}

#[test]
fn skip_if_not_equal_byte() {
    let mut vm = machine_with_program(&[0x6007, 0x4008, 0x6101, 0x6201]);
    step(&mut vm);
    step(&mut vm);
    assert_eq!(vm.get_pc(), 0x206);

    let mut vm = machine_with_program(&[0x6007, 0x4007, 0x6101]);
    step(&mut vm);
    step(&mut vm);
    assert_eq!(vm.get_pc(), 0x204);
}

#[test]
fn skip_on_register_comparison() {
    // V0=V1=7: skip-if-equal-registers skips, skip-if-not-equal does not.
    let mut vm = machine_with_program(&[0x6007, 0x6107, 0x5010, 0x6201, 0x9010, 0x6301]);
    step(&mut vm);
    step(&mut vm);
    step(&mut vm);
    assert_eq!(vm.get_pc(), 0x208);
    step(&mut vm);
    assert_eq!(vm.get_pc(), 0x20A);
    step(&mut vm);
    assert_eq!(vm.get_register(2), 0);
    assert_eq!(vm.get_register(3), 1);
}

#[test]
fn register_to_register_ops() {
    // copy, or, and, xor on V0=0b1100, V1=0b1010.
    let mut vm = machine_with_program(&[0x600C, 0x610A, 0x8210, 0x8011]);
    step(&mut vm);
    step(&mut vm);
    step(&mut vm);
    assert_eq!(vm.get_register(2), 0x0A);
    step(&mut vm);
    assert_eq!(vm.get_register(0), 0x0E);

    let mut vm = machine_with_program(&[0x600C, 0x610A, 0x8012]);
    step(&mut vm);
    step(&mut vm);
    step(&mut vm);
    assert_eq!(vm.get_register(0), 0x08);

    let mut vm = machine_with_program(&[0x600C, 0x610A, 0x8013]);
    step(&mut vm);
    step(&mut vm);
    step(&mut vm);
    assert_eq!(vm.get_register(0), 0x06);
}

#[test]
fn add_with_carry_flag() {
    // 0x10 + 0x20: no carry, VF=0.
    let mut vm = machine_with_program(&[0x6010, 0x6120, 0x8014]);
    step(&mut vm);
    step(&mut vm);
    step(&mut vm);
    assert_eq!(vm.get_register(0), 0x30);
    assert_eq!(vm.get_register(15), 0);

    // 0xFF + 0x02: wraps to 0x01, VF=1, and the flag is written after the sum.
    let mut vm = machine_with_program(&[0x60FF, 0x6102, 0x8014]);
    step(&mut vm);
    step(&mut vm);
    step(&mut vm);
    assert_eq!(vm.get_register(0), 0x01);
    assert_eq!(vm.get_register(15), 1);
}

#[test]
fn carry_flag_overwrites_vf_operand() {
    // VF is the destination of the add: the carry flag wins over the sum.
    let mut vm = machine_with_program(&[0x6FFF, 0x6102, 0x8F14]);
    step(&mut vm);
    step(&mut vm);
    step(&mut vm);
    assert_eq!(vm.get_register(15), 1);
}

#[test]
fn reverse_subtract() {
    // V0 = V1 - V0 with the no-borrow flag.
    let mut vm = machine_with_program(&[0x6005, 0x610A, 0x8017]);
    step(&mut vm);
    step(&mut vm);
    step(&mut vm);
    assert_eq!(vm.get_register(0), 5);
    assert_eq!(vm.get_register(15), 1);

    let mut vm = machine_with_program(&[0x600A, 0x6105, 0x8017]);
    step(&mut vm);
    step(&mut vm);
    step(&mut vm);
    assert_eq!(vm.get_register(0), 0xFB);
    assert_eq!(vm.get_register(15), 0);
}

#[test]
fn shifts_capture_the_lost_bit() {
    // right shift: 0x05 -> 0x02, VF = low bit 1.
    let mut vm = machine_with_program(&[0x6005, 0x8006]);
    step(&mut vm);
    step(&mut vm);
    assert_eq!(vm.get_register(0), 0x02);
    assert_eq!(vm.get_register(15), 1);

    // left shift: 0x81 -> 0x02, VF = high bit 1.
    let mut vm = machine_with_program(&[0x6081, 0x800E]);
    step(&mut vm);
    step(&mut vm);
    assert_eq!(vm.get_register(0), 0x02);
    assert_eq!(vm.get_register(15), 1);

    // left shift without a high bit: VF = 0.
    let mut vm = machine_with_program(&[0x6041, 0x800E]);
    step(&mut vm);
    step(&mut vm);
    assert_eq!(vm.get_register(0), 0x82);
    assert_eq!(vm.get_register(15), 0);
}

#[test]
fn index_register_ops() {
    // set I, then add V0 into it.
    let mut vm = machine_with_program(&[0xA123, 0x6005, 0xF01E]);
    step(&mut vm);
    assert_eq!(vm.get_i_register(), 0x123);
    step(&mut vm);
    step(&mut vm);
    assert_eq!(vm.get_i_register(), 0x128);
}

#[test]
fn jump_with_offset() {
    let mut vm = machine_with_program(&[0x6005, 0xB300]);
    step(&mut vm);
    step(&mut vm);
    assert_eq!(vm.get_pc(), 0x305);
}

#[test]
fn random_is_masked() {
    // A zero mask forces zero whatever the random byte was.
    let mut vm = machine_with_program(&[0x6077, 0xC000]);
    step(&mut vm);
    assert_eq!(vm.get_register(0), 0x77);
    let r = vm.cycle([false; 16], &mut NullRenderer);
    assert!(r.is_ok());
    assert_eq!(vm.get_register(0), 0);

    // With a full mask and a caller-supplied byte, the register receives it.
    let mut vm = machine_with_program(&[0xC0FF]);
    let r = vm.cycle_with_random([false; 16], 0xAB, &mut NullRenderer);
    assert!(r.is_ok());
    assert_eq!(vm.get_register(0), 0xAB);

    // The mask keeps only its bits.
    let mut vm = machine_with_program(&[0xC00F]);
    let r = vm.cycle_with_random([false; 16], 0xAB, &mut NullRenderer);
    assert!(r.is_ok());
    assert_eq!(vm.get_register(0), 0x0B);
}

#[test]
fn read_and_write_timers() {
    // delay := 0x20; the next cycle decays it to 0x1F before reading it back.
    let mut vm = machine_with_program(&[0x6020, 0xF015, 0xF107, 0xF018]);
    step(&mut vm);
    step(&mut vm);
    assert_eq!(vm.get_delay_timer(), 0x20);
    step(&mut vm);
    assert_eq!(vm.get_register(1), 0x1F);
    step(&mut vm);
    assert_eq!(vm.get_sound_timer(), 0x20);
}

#[test]
fn glyph_index_uses_low_nibble() {
    // V3 = 0x0A: I points at glyph A, five bytes per glyph.
    let mut vm = machine_with_program(&[0x630A, 0xF329]);
    step(&mut vm);
    step(&mut vm);
    assert_eq!(vm.get_i_register(), 50);

    // Only the low nibble of the register matters.
    let mut vm = machine_with_program(&[0x63FA, 0xF329]);
    step(&mut vm);
    step(&mut vm);
    assert_eq!(vm.get_i_register(), 50);
}

#[test]
fn draw_a_font_glyph() {
    // Draw glyph 0 (0xF0 0x90 0x90 0x90 0xF0) at the origin.
    let mut vm = machine_with_program(&[0x6000, 0xF029, 0xD005]);
    step(&mut vm);
    step(&mut vm);
    assert_eq!(vm.get_i_register(), 0);
    step(&mut vm);
    for col in 0..4 {
        assert!(vm.get_pixel(0, col));
        assert!(vm.get_pixel(4, col));
    }
    for row in 1..4 {
        assert!(vm.get_pixel(row, 0));
        assert!(vm.get_pixel(row, 3));
        assert!(!vm.get_pixel(row, 1));
        assert!(!vm.get_pixel(row, 2));
    }
}

#[test]
fn store_and_load_registers() {
    // Store V0..=V2 at I, wipe them, load them back.
    let mut vm = machine_with_program(
        &[0x6011, 0x6122, 0x6233, 0xA300, 0xF255, 0x6000, 0x6100, 0x6200, 0xF265],
    );
    for _ in 0..5 {
        step(&mut vm);
    }
    assert_eq!(vm.get_byte(0x300), Some(0x11));
    assert_eq!(vm.get_byte(0x301), Some(0x22));
    assert_eq!(vm.get_byte(0x302), Some(0x33));
    assert_eq!(vm.get_byte(0x303), Some(0x00));
    for _ in 0..4 {
        step(&mut vm);
    }
    assert_eq!(vm.get_register(0), 0x11);
    assert_eq!(vm.get_register(1), 0x22);
    assert_eq!(vm.get_register(2), 0x33);
    assert_eq!(vm.get_register(3), 0x00);
}

#[test]
fn skip_on_key_state() {
    // V0 = 4: EX9E skips only while key 4 is held, EXA1 the other way round.
    let mut vm = machine_with_program(&[0x6004, 0xE09E, 0x6101, 0xE0A1, 0x6201]);
    let mut held = [false; 16];
    held[4] = true;
    step(&mut vm);
    step_keys(&mut vm, held);
    assert_eq!(vm.get_pc(), 0x206);
    step_keys(&mut vm, held);
    assert_eq!(vm.get_pc(), 0x208);
    step_keys(&mut vm, held);
    assert_eq!(vm.get_register(1), 0);
    assert_eq!(vm.get_register(2), 1);

    let mut vm = machine_with_program(&[0x6004, 0xE09E, 0x6101, 0xE0A1, 0x6201]);
    step(&mut vm);
    step(&mut vm);
    assert_eq!(vm.get_pc(), 0x204);
    step(&mut vm);
    assert_eq!(vm.get_register(1), 1);
    step(&mut vm);
    assert_eq!(vm.get_pc(), 0x20A);
}

#[test]
fn key_index_is_masked_to_low_nibble() {
    // V0 = 0x14: the tested key is 4, not 20.
    let mut vm = machine_with_program(&[0x6014, 0xE09E, 0x6101]);
    let mut held = [false; 16];
    held[4] = true;
    step(&mut vm);
    step_keys(&mut vm, held);
    assert_eq!(vm.get_pc(), 0x206);
}

#[test]
fn machine_primitives() {
    let mut vm = VM::new();
    vm.set_register(3, 0x42);
    assert_eq!(vm.get_register(3), 0x42);
    vm.add_register(3, 0xFF);
    assert_eq!(vm.get_register(3), 0x41);
    vm.sub_register(3, 0x42);
    assert_eq!(vm.get_register(3), 0xFF);
    vm.register_checker(true);
    assert_eq!(vm.get_register(15), 1);
    vm.register_checker(false);
    assert_eq!(vm.get_register(15), 0);
    vm.set_i_register(0xABC);
    assert_eq!(vm.get_i_register(), 0xABC);
    vm.increment_pc();
    assert_eq!(vm.get_pc(), 0x202);
    vm.skip_instruction_if(false);
    assert_eq!(vm.get_pc(), 0x202);
    vm.skip_instruction_if(true);
    assert_eq!(vm.get_pc(), 0x204);
    vm.jump_pc(0x300);
    assert_eq!(vm.get_pc(), 0x300);
    for k in 0..16 {
        assert!(vm.push_stack(0x200 + k));
    }
    assert!(!vm.push_stack(0xFFF));
    assert_eq!(vm.stack_depth(), 16);
    assert_eq!(vm.pop_stack(), Some(0x20F));
    assert_eq!(vm.stack_depth(), 15);
    let word = vm.get_current_instruction();
    assert_eq!(word, 0x0000);
}

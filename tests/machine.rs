use chip8::{Chip8, EmulatedScreen, Fault, OpCode};

#[test]
fn set_then_add_immediate() {
    let mut cpu = Chip8::new();
    cpu.execute(OpCode::SET(0xB, 0x44)).unwrap();
    cpu.execute(OpCode::ADD(0xB, 0x04)).unwrap();
    assert_eq!(cpu.v_registers[0xB], 0x48);
    cpu.execute(OpCode::ADD(0xB, 0x04)).unwrap();
    cpu.execute(OpCode::ADD(0xB, 0x04)).unwrap();
    assert_eq!(cpu.v_registers[0xB], 0x50);
}

#[test]
fn add_immediate_wraps() {
    let mut cpu = Chip8::new();
    cpu.v_registers[3] = 0xFF;
    cpu.execute(OpCode::ADD(3, 0x02)).unwrap();
    assert_eq!(cpu.v_registers[3], 0x01);
    assert_eq!(cpu.v_registers[0xF], 0);
}

#[test]
fn add_carry_sets_flag() {
    let mut cpu = Chip8::new();
    cpu.v_registers[2] = 0xFF;
    cpu.v_registers[3] = 0x02;
    cpu.execute(OpCode::AddXY(2, 3)).unwrap();
    assert_eq!(cpu.v_registers[2], 0x01);
    assert_eq!(cpu.v_registers[0xF], 1);
    cpu.v_registers[2] = 0x10;
    cpu.v_registers[3] = 0x10;
    cpu.execute(OpCode::AddXY(2, 3)).unwrap();
    assert_eq!(cpu.v_registers[2], 0x20);
    assert_eq!(cpu.v_registers[0xF], 0);
}

#[test]
fn sub_borrow_flag_means_no_borrow() {
    let mut cpu = Chip8::new();
    cpu.v_registers[4] = 3;
    cpu.v_registers[5] = 2;
    cpu.execute(OpCode::SubXY(4, 5)).unwrap();
    assert_eq!(cpu.v_registers[4], 1);
    assert_eq!(cpu.v_registers[0xF], 1);
    cpu.v_registers[4] = 1;
    cpu.v_registers[5] = 2;
    cpu.execute(OpCode::SubXY(4, 5)).unwrap();
    assert_eq!(cpu.v_registers[4], 255);
    assert_eq!(cpu.v_registers[0xF], 0);
}

#[test]
fn shifts_take_the_bit_from_vy() {
    let mut cpu = Chip8::new();
    cpu.v_registers[1] = 0b1011;
    cpu.execute(OpCode::SHR(0, 1)).unwrap();
    assert_eq!(cpu.v_registers[0], 0b0101);
    assert_eq!(cpu.v_registers[0xF], 1);
    cpu.v_registers[1] = 0b1011_0000;
    cpu.execute(OpCode::SHL(0, 1)).unwrap();
    assert_eq!(cpu.v_registers[0], 0b0110_0000);
    assert_eq!(cpu.v_registers[0xF], 1);
    cpu.v_registers[1] = 0b0011_0000;
    cpu.execute(OpCode::SHL(0, 1)).unwrap();
    assert_eq!(cpu.v_registers[0], 0b0110_0000);
    assert_eq!(cpu.v_registers[0xF], 0);
}

#[test]
fn call_then_return_round_trip() {
    let mut cpu = Chip8::new();
    cpu.pc = 0x50;
    cpu.execute(OpCode::CALL(0x111)).unwrap();
    assert_eq!(cpu.pc, 0x111);
    assert_eq!(cpu.address_stack, vec![0x50]);
    assert_eq!(cpu.stack_pointer, 1);
    cpu.execute(OpCode::RET).unwrap();
    assert_eq!(cpu.pc, 0x50);
    assert!(cpu.address_stack.is_empty());
    assert_eq!(cpu.stack_pointer, 0);
}

#[test]
fn return_on_empty_stack_faults_and_keeps_state() {
    let mut cpu = Chip8::new();
    cpu.pc = 0x234;
    cpu.v_registers[1] = 9;
    assert_eq!(cpu.execute(OpCode::RET), Err(Fault::StackUnderflow));
    assert_eq!(cpu.pc, 0x234);
    assert_eq!(cpu.v_registers[1], 9);
    assert_eq!(cpu.stack_pointer, 0);
}

#[test]
fn call_with_full_counter_faults() {
    let mut cpu = Chip8::new();
    for _ in 0..255 {
        cpu.execute(OpCode::CALL(0x300)).unwrap();
    }
    assert_eq!(cpu.stack_pointer, 255);
    assert_eq!(cpu.execute(OpCode::CALL(0x300)), Err(Fault::StackOverflow));
    assert_eq!(cpu.address_stack.len(), 255);
}

#[test]
fn memory_access_past_the_end_faults() {
    let mut cpu = Chip8::new();
    cpu.i_reg = 0xFFE;
    cpu.v_registers[0] = 123;
    assert_eq!(cpu.execute(OpCode::SaveBCD(0)), Err(Fault::AddressOutOfRange));
    assert_eq!(cpu.ram.read_byte(0xFFE), 0);
    assert_eq!(cpu.ram.read_byte(0xFFF), 0);
    assert_eq!(cpu.execute(OpCode::StoreV0ToVx(2)), Err(Fault::AddressOutOfRange));
    assert_eq!(cpu.execute(OpCode::ReadV0ToVx(2)), Err(Fault::AddressOutOfRange));
    assert_eq!(cpu.v_registers[0], 123);
    assert_eq!(cpu.execute(OpCode::DXYN(0, 0, 3)), Err(Fault::AddressOutOfRange));
    cpu.execute(OpCode::StoreV0ToVx(1)).unwrap();
    assert_eq!(cpu.ram.read_byte(0xFFE), 123);
}

#[test]
fn fetch_past_the_end_faults() {
    let mut cpu = Chip8::new();
    cpu.pc = 0xFFF;
    assert_eq!(cpu.cycle(), Err(Fault::AddressOutOfRange));
    assert_eq!(cpu.pc, 0xFFF);
}

#[test]
fn decode_whole_table() {
    let cpu = Chip8::new();
    assert_eq!(cpu.decode(0x00EE), OpCode::RET);
    assert_eq!(cpu.decode(0x2345), OpCode::CALL(0x345));
    assert_eq!(cpu.decode(0x3A7F), OpCode::SkipEqualNN(0xA, 0x7F));
    assert_eq!(cpu.decode(0x4A7F), OpCode::SkipNotEqualNN(0xA, 0x7F));
    assert_eq!(cpu.decode(0x5AB0), OpCode::SkipEqualXY(0xA, 0xB));
    assert_eq!(cpu.decode(0x8AB0), OpCode::LDXY(0xA, 0xB));
    assert_eq!(cpu.decode(0x8AB1), OpCode::BOR(0xA, 0xB));
    assert_eq!(cpu.decode(0x8AB2), OpCode::BAND(0xA, 0xB));
    assert_eq!(cpu.decode(0x8AB3), OpCode::BXOR(0xA, 0xB));
    assert_eq!(cpu.decode(0x8AB4), OpCode::AddXY(0xA, 0xB));
    assert_eq!(cpu.decode(0x8AB5), OpCode::SubXY(0xA, 0xB));
    assert_eq!(cpu.decode(0x8AB6), OpCode::SHR(0xA, 0xB));
    assert_eq!(cpu.decode(0x8AB7), OpCode::SUBN(0xA, 0xB));
    assert_eq!(cpu.decode(0x8ABE), OpCode::SHL(0xA, 0xB));
    assert_eq!(cpu.decode(0x9AB0), OpCode::SkipNotEqualXY(0xA, 0xB));
    assert_eq!(cpu.decode(0xB123), OpCode::JumpPlusV0(0x123));
    assert_eq!(cpu.decode(0xC3F0), OpCode::RAND(3, 0xF0));
    assert_eq!(cpu.decode(0xF31E), OpCode::AddVxToI(3));
    assert_eq!(cpu.decode(0xF233), OpCode::SaveBCD(2));
    assert_eq!(cpu.decode(0xF455), OpCode::StoreV0ToVx(4));
    assert_eq!(cpu.decode(0xF565), OpCode::ReadV0ToVx(5));
}

#[test]
fn decode_unknown_words() {
    let cpu = Chip8::new();
    assert_eq!(cpu.decode(0x0000), OpCode::UNFINISHED);
    assert_eq!(cpu.decode(0x01E0), OpCode::UNFINISHED);
    assert_eq!(cpu.decode(0x8AB8), OpCode::UNFINISHED);
    assert_eq!(cpu.decode(0x9AB1), OpCode::UNFINISHED);
    assert_eq!(cpu.decode(0x5AB1), OpCode::UNFINISHED);
    assert_eq!(cpu.decode(0x5ABF), OpCode::UNFINISHED);
    assert_eq!(cpu.decode(0xE09E), OpCode::UNFINISHED);
    assert_eq!(cpu.decode(0xF007), OpCode::UNFINISHED);
    assert_eq!(cpu.decode(0x1234), cpu.decode(0x1234));
}

#[test]
fn unfinished_is_a_no_op() {
    let mut cpu = Chip8::new();
    cpu.pc = 0x246;
    cpu.execute(OpCode::UNFINISHED).unwrap();
    assert_eq!(cpu.pc, 0x246);
    assert_eq!(cpu.v_registers, [0; 16]);
}

#[test]
fn address_arithmetic_wraps() {
    let mut cpu = Chip8::new();
    cpu.v_registers[0] = 2;
    cpu.execute(OpCode::JumpPlusV0(0xFFFF)).unwrap();
    assert_eq!(cpu.pc, 1);
    cpu.i_reg = 0xFFFF;
    cpu.execute(OpCode::AddVxToI(0)).unwrap();
    assert_eq!(cpu.i_reg, 1);
    cpu.pc = 0xFFFE;
    cpu.execute(OpCode::SkipEqualNN(0, 2)).unwrap();
    assert_eq!(cpu.pc, 0);
}

#[test]
fn rand_is_masked_by_immediate() {
    let mut cpu = Chip8::new();
    cpu.v_registers[3] = 0x77;
    cpu.execute(OpCode::RAND(3, 0x00)).unwrap();
    assert_eq!(cpu.v_registers[3], 0);
    cpu.execute(OpCode::RAND(3, 0x0F)).unwrap();
    assert!(cpu.v_registers[3] <= 0x0F);
    cpu.execute_with_random(OpCode::RAND(3, 0x0F), 0xAB).unwrap();
    assert_eq!(cpu.v_registers[3], 0x0B);
}

#[test]
fn bcd_of_small_values() {
    let mut cpu = Chip8::new();
    cpu.v_registers[7] = 7;
    cpu.i_reg = 0x300;
    cpu.execute(OpCode::SaveBCD(7)).unwrap();
    assert_eq!(cpu.ram.read_byte(0x300), 0);
    assert_eq!(cpu.ram.read_byte(0x301), 0);
    assert_eq!(cpu.ram.read_byte(0x302), 7);
    cpu.v_registers[7] = 255;
    cpu.execute(OpCode::SaveBCD(7)).unwrap();
    assert_eq!(cpu.ram.read_byte(0x300), 2);
    assert_eq!(cpu.ram.read_byte(0x301), 5);
    assert_eq!(cpu.ram.read_byte(0x302), 5);
}

#[test]
fn draw_twice_restores_and_collides() {
    let mut cpu = Chip8::new();
    cpu.ram.write_byte(0x400, 0b1111_0000);
    cpu.ram.write_byte(0x401, 0b1001_0000);
    cpu.i_reg = 0x400;
    cpu.v_registers[0] = 10;
    cpu.v_registers[1] = 31;
    cpu.screen.put_pixel(0, 0, true);
    let before = cpu.get_screen();
    cpu.execute(OpCode::DXYN(0, 1, 2)).unwrap();
    assert_eq!(cpu.v_registers[0xF], 0);
    assert_ne!(cpu.get_screen(), before);
    assert!(cpu.screen.pixels[31][13]);
    assert!(cpu.screen.pixels[0][13]);
    cpu.execute(OpCode::DXYN(0, 1, 2)).unwrap();
    assert_eq!(cpu.v_registers[0xF], 1);
    assert_eq!(cpu.get_screen(), before);
}

#[test]
fn draw_collisions_accumulate_over_rows() {
    let mut screen = EmulatedScreen::new();
    screen.put_pixel(0, 0, true);
    // The first row hits the lit pixel, the second row does not.
    assert!(screen.draw(0, 0, &[0b1000_0000, 0b0100_0000]));
    assert!(!screen.get_pixel(0, 0));
    assert!(screen.get_pixel(1, 1));
    assert!(!screen.draw(20, 20, &[0b1000_0000]));
}

#[test]
fn draw_with_zero_rows_does_nothing() {
    let mut cpu = Chip8::new();
    cpu.i_reg = 0xFFFF;
    cpu.v_registers[0xF] = 1;
    cpu.execute(OpCode::DXYN(0, 0, 0)).unwrap();
    assert_eq!(cpu.v_registers[0xF], 0);
    assert_eq!(cpu.get_screen(), [[false; 64]; 32]);
}

#[test]
fn draw_wraps_at_right_edge() {
    let mut screen = EmulatedScreen::new();
    assert_eq!(screen.write_byte(63, 0, 0xFF), 0);
    assert!(screen.get_pixel(63, 0));
    for x in 0..7 {
        assert!(screen.get_pixel(x, 0));
    }
    assert!(!screen.get_pixel(7, 0));
    assert!(!screen.get_pixel(62, 0));
    assert_eq!(screen.write_byte(63, 32, 0b0000_0001), 1);
    assert!(!screen.get_pixel(6, 0));
}

#[test]
fn draw_wraps_at_bottom_edge() {
    let mut screen = EmulatedScreen::new();
    assert!(!screen.draw(0, 31, &[0x80, 0x80, 0x80]));
    assert!(screen.get_pixel(0, 31));
    assert!(screen.get_pixel(0, 0));
    assert!(screen.get_pixel(0, 1));
    assert!(!screen.get_pixel(0, 2));
}

#[test]
fn get_pixel_wraps_coordinates() {
    let mut screen = EmulatedScreen::new();
    screen.put_pixel(200, 100, true);
    assert!(screen.get_pixel(200, 100));
    assert!(screen.get_pixel(200 % 64, 100 % 32));
    assert!(screen.get_pixel(8, 4));
    assert!(!screen.get_pixel(64, 32));
}

#[test]
fn clear_turns_everything_off() {
    let mut screen = EmulatedScreen::new();
    screen.put_pixel(5, 6, true);
    screen.put_pixel(63, 31, true);
    screen.clear();
    assert_eq!(screen.get_screen(), [[false; 64]; 32]);
}

#[test]
fn cycle_fetches_decodes_and_executes() {
    let mut cpu = Chip8::new();
    cpu.load_program(vec![0x6A, 0x42, 0x00, 0xE0]);
    cpu.pc = 0x200;
    cpu.cycle().unwrap();
    assert_eq!(cpu.v_registers[0xA], 0x42);
    assert_eq!(cpu.pc, 0x202);
    cpu.cycle().unwrap();
    assert_eq!(cpu.pc, 0x204);
}

#[test]
fn cycle_fault_leaves_machine_unchanged() {
    let mut cpu = Chip8::new();
    cpu.load_program(vec![0x00, 0xEE]);
    cpu.pc = 0x200;
    assert_eq!(cpu.cycle(), Err(Fault::StackUnderflow));
    assert_eq!(cpu.pc, 0x200);
}

#[test]
fn run_starts_at_program_start() {
    let mut cpu = Chip8::new();
    // 0x200: V1 += 1; 0x202: jump to 0x200.
    cpu.load_program(vec![0x71, 0x01, 0x12, 0x00]);
    cpu.run().unwrap();
    assert_eq!(cpu.v_registers[1], 25);
    assert_eq!(cpu.pc, 0x200);
}

#[test]
fn run_stops_at_first_fault() {
    let mut cpu = Chip8::new();
    // 0x200: V1 := 5; 0x202: return with an empty stack.
    cpu.load_program(vec![0x61, 0x05, 0x00, 0xEE]);
    assert_eq!(cpu.run(), Err(Fault::StackUnderflow));
    assert_eq!(cpu.v_registers[1], 5);
    assert_eq!(cpu.pc, 0x202);
}

#[test]
fn new_machine_state() {
    let cpu = Chip8::new();
    assert_eq!(cpu.pc, 0);
    assert_eq!(cpu.i_reg, 0);
    assert_eq!(cpu.stack_pointer, 0);
    assert_eq!(cpu.delay_timer.val, 0);
    assert_eq!(cpu.ram.read_byte(0), 0xF0);
    assert_eq!(cpu.ram.read_byte(0x200), 0);
}

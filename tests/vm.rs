use synacor_vm::console::{parse_command, parse_debug_command};
use synacor_vm::image::{decode_image, encode_image};
use synacor_vm::isa::{arity, mnemonic, word_name};
use synacor_vm::{Command, DebugCommand, Event, Fault, ImageError, Reply, WordName, CPU};

fn image(words: &[u16]) -> Vec<u8> {
    let mut bytes = Vec::new();
    for w in words {
        bytes.push((w & 0xff) as u8);
        bytes.push((w >> 8) as u8);
    }
    bytes
}

fn boot(words: &[u16]) -> CPU {
    let mut cpu = CPU::new();
    assert_eq!(cpu.read_binary(&image(words)), Ok(()));
    cpu
}

fn run_to_end(cpu: &mut CPU) -> (Event, Vec<u8>) {
    let mut out = Vec::new();
    let e = cpu.run(10_000, &mut out);
    (e, out)
}

#[test]
fn add_wraps_modulo_32768() {
    let mut cpu = boot(&[9, 32768, 32758, 10, 0]);
    let (e, out) = run_to_end(&mut cpu);
    assert_eq!(e, Event::Halted);
    assert!(out.is_empty());
    assert_eq!(cpu.pc(), 4);
    assert_eq!(cpu.register(0), 0);
}

#[test]
fn not_masks_to_fifteen_bits() {
    let mut cpu = boot(&[14, 32768, 1, 0]);
    let (e, _) = run_to_end(&mut cpu);
    assert_eq!(e, Event::Halted);
    assert_eq!(cpu.register(0), 32766);
}

#[test]
fn call_and_ret_print_b_then_a() {
    let mut cpu = boot(&[17, 5, 19, 65, 0, 19, 66, 18]);
    let (e, out) = run_to_end(&mut cpu);
    assert_eq!(e, Event::Halted);
    assert_eq!(out, b"BA".to_vec());
}

#[test]
fn registers_as_operands() {
    let mut cpu = boot(&[1, 32768, 5, 9, 32769, 32768, 32768, 0]);
    let (e, _) = run_to_end(&mut cpu);
    assert_eq!(e, Event::Halted);
    assert_eq!(cpu.register(0), 5);
    assert_eq!(cpu.register(1), 10);
}

#[test]
fn register_words_follow_their_offset() {
    // R7 is the word 32775, not R0.
    let mut cpu = boot(&[1, 32775, 42, 0]);
    run_to_end(&mut cpu);
    assert_eq!(cpu.register(7), 42);
    assert_eq!(cpu.register(0), 0);
}

#[test]
fn out_emits_low_byte() {
    // 32767 AND 0xFF = 0xFF; 0x141 AND 0xFF = 'A'.
    let mut cpu = boot(&[19, 32767, 19, 0x141, 0]);
    let (_, out) = run_to_end(&mut cpu);
    assert_eq!(out, vec![0xff, b'A']);
}

#[test]
fn arithmetic_results() {
    // MULT 300*300 = 90000 mod 32768 = 24464; MOD 17 % 5 = 2;
    // AND 12 & 10 = 8; OR 12 | 10 = 14; EQ 3 3 = 1; GT 2 3 = 0.
    let mut cpu = boot(&[
        10, 32768, 300, 300, 11, 32769, 17, 5, 12, 32770, 12, 10, 13, 32771, 12, 10, 4, 32772, 3,
        3, 5, 32773, 2, 3, 0,
    ]);
    let (e, _) = run_to_end(&mut cpu);
    assert_eq!(e, Event::Halted);
    assert_eq!(cpu.register(0), 24464);
    assert_eq!(cpu.register(1), 2);
    assert_eq!(cpu.register(2), 8);
    assert_eq!(cpu.register(3), 14);
    assert_eq!(cpu.register(4), 1);
    assert_eq!(cpu.register(5), 0);
}

#[test]
fn stack_push_pop_and_memory() {
    // PUSH 7; POP R0; WMEM 100 <- 9; RMEM R1 <- [100]; HALT
    let mut cpu = boot(&[2, 7, 3, 32768, 16, 100, 9, 15, 32769, 100, 0]);
    let (e, _) = run_to_end(&mut cpu);
    assert_eq!(e, Event::Halted);
    assert_eq!(cpu.register(0), 7);
    assert_eq!(cpu.register(1), 9);
    assert_eq!(cpu.word_at(100), 9);
    assert_eq!(cpu.stack_len(), 0);
}

#[test]
fn jumps() {
    // JT 1 -> 6; (3: HALT-less filler); 6: JF 0 -> 10; 10: JMP 13; 13: HALT
    let mut cpu = boot(&[7, 1, 6, 19, 88, 0, 8, 0, 10, 0, 6, 13, 0, 0]);
    let (e, out) = run_to_end(&mut cpu);
    assert_eq!(e, Event::Halted);
    assert!(out.is_empty());
    assert_eq!(cpu.pc(), 13);
}

#[test]
fn faults() {
    let mut cpu = boot(&[11, 32768, 4, 0]);
    assert_eq!(run_to_end(&mut cpu).0, Event::Fault(Fault::DivideByZero));
    assert!(cpu.is_halted());

    let mut cpu = boot(&[3, 32768]);
    assert_eq!(run_to_end(&mut cpu).0, Event::Fault(Fault::EmptyStack));

    let mut cpu = boot(&[22]);
    assert_eq!(run_to_end(&mut cpu).0, Event::Fault(Fault::InvalidOpcode));
    assert_eq!(cpu.pc(), 0);

    let mut cpu = boot(&[1, 5, 5, 0]);
    assert_eq!(run_to_end(&mut cpu).0, Event::Fault(Fault::InvalidOperand));

    let mut cpu = boot(&[2, 32776, 0]);
    assert_eq!(run_to_end(&mut cpu).0, Event::Fault(Fault::InvalidOperand));

    // RMEM of a word above 32767 is a fault; the register keeps its value.
    let mut cpu = boot(&[15, 32768, 1, 0]);
    assert_eq!(cpu.step(), Event::Fault(Fault::InvalidOperand));
    assert_eq!(cpu.register(0), 0);
    assert!(cpu.is_halted());
}

#[test]
fn ret_on_empty_stack_halts() {
    let mut cpu = boot(&[18]);
    assert_eq!(run_to_end(&mut cpu).0, Event::Halted);
    assert!(cpu.is_halted());
    assert_eq!(cpu.step(), Event::Halted);
}

#[test]
fn input_feeds_one_character_per_in() {
    // IN R0; IN R1; OUT R1; HALT
    let mut cpu = boot(&[20, 32768, 20, 32769, 19, 32769, 0]);
    let (e, out) = run_to_end(&mut cpu);
    assert_eq!(e, Event::NeedInput);
    assert!(out.is_empty());
    assert_eq!(cpu.pc(), 0);
    assert_eq!(cpu.handle_line(&b"hi".to_vec()), Reply::Queued);
    assert_eq!(cpu.queue_len(), 3);
    let (e, out) = run_to_end(&mut cpu);
    assert_eq!(e, Event::Halted);
    assert_eq!(cpu.register(0), b'h' as u16);
    assert_eq!(out, b"i".to_vec());
    assert_eq!(cpu.queue_len(), 1);
}

#[test]
fn non_ascii_lines_are_dropped() {
    let mut cpu = boot(&[20, 32768, 0]);
    assert_eq!(cpu.handle_line(&vec![0xc3, 0xa9, b'\n']), Reply::NotAscii);
    assert_eq!(cpu.queue_len(), 0);
}

#[test]
fn save_load_restores_state() {
    // IN R0; PUSH R0; IN R1; HALT
    let mut cpu = boot(&[20, 32768, 2, 32768, 20, 32769, 0]);
    assert_eq!(run_to_end(&mut cpu).0, Event::NeedInput);
    assert_eq!(cpu.handle_line(&b"save\n".to_vec()), Reply::Saved);
    assert_eq!(cpu.handle_line(&b"xy\n".to_vec()), Reply::Queued);
    assert_eq!(cpu.handle_line(&b"set 3 1234\n".to_vec()), Reply::RegisterSet(3, 1234));
    assert_eq!(cpu.register(3), 1234);
    assert_eq!(run_to_end(&mut cpu).0, Event::Halted);
    assert_eq!(cpu.stack_len(), 1);
    let queued = cpu.queue_len();
    assert_eq!(cpu.handle_line(&b"  load \n".to_vec()), Reply::Loaded);
    assert_eq!(cpu.pc(), 0);
    assert!(!cpu.is_halted());
    assert_eq!(cpu.register(0), 0);
    assert_eq!(cpu.register(3), 0);
    assert_eq!(cpu.stack_len(), 0);
    assert_eq!(cpu.queue_len(), queued);
}

#[test]
fn save_then_load_changes_nothing() {
    let mut cpu = boot(&[1, 32768, 9, 20, 32769, 0]);
    assert_eq!(run_to_end(&mut cpu).0, Event::NeedInput);
    cpu.save();
    cpu.load();
    assert_eq!(cpu.pc(), 3);
    assert_eq!(cpu.register(0), 9);
    assert_eq!(run_to_end(&mut cpu).0, Event::NeedInput);
}

#[test]
fn operator_commands() {
    let mut cpu = boot(&[0]);
    assert_eq!(cpu.handle_line(&b"d\n".to_vec()), Reply::Debugging(true));
    assert!(cpu.is_debugging());
    assert_eq!(cpu.handle_line(&b"d\n".to_vec()), Reply::Debugging(false));
    assert_eq!(cpu.handle_line(&b"s\n".to_vec()), Reply::Stepping);
    assert_eq!(cpu.handle_line(&b"reg\n".to_vec()), Reply::ShowRegisters);
    assert_eq!(cpu.handle_line(&b"q\n".to_vec()), Reply::Quit);
    assert_eq!(cpu.handle_line(&b"set 8 1\n".to_vec()), Reply::BadSet);
    assert_eq!(cpu.handle_line(&b"set 1 x\n".to_vec()), Reply::BadSet);
    assert_eq!(cpu.handle_line(&b"set 1 32768\n".to_vec()), Reply::BadSet);
    assert_eq!(cpu.queue_len(), 0);
    assert_eq!(parse_command(&b"set 7 32767".to_vec()), Command::SetRegister(7, 32767));
    assert_eq!(parse_command(&b"saved\n".to_vec()), Command::Guest);
    assert_eq!(parse_command(&b"\tq \r\n".to_vec()), Command::Quit);
}

#[test]
fn debugger_commands_and_breakpoint() {
    assert_eq!(parse_debug_command(&b"b 12\n".to_vec()), DebugCommand::Break(12));
    assert_eq!(parse_debug_command(&b"b x\n".to_vec()), DebugCommand::BadBreak);
    assert_eq!(parse_debug_command(&b"c\n".to_vec()), DebugCommand::Continue);
    assert_eq!(parse_debug_command(&b"s\n".to_vec()), DebugCommand::Step);

    let mut cpu = boot(&[21, 21, 21, 0]);
    assert!(!cpu.pre_fetch());
    cpu.handle_line(&b"d\n".to_vec());
    assert!(cpu.pre_fetch());
    assert_eq!(cpu.debug_line(&b"b 2\n".to_vec()), DebugCommand::Break(2));
    assert!(!cpu.is_stepping());
    assert_eq!(cpu.breakpoint(), 2);
    assert!(!cpu.pre_fetch());
    cpu.step();
    assert!(!cpu.pre_fetch());
    cpu.step();
    assert!(cpu.pre_fetch());
    assert_eq!(cpu.debug_line(&b"c\n".to_vec()), DebugCommand::Continue);
    assert!(!cpu.is_stepping());
}

#[test]
fn debugger_window() {
    let mut cpu = boot(&[21, 21, 9, 32768, 1, 2, 19, 65, 0]);
    cpu.step();
    cpu.step();
    assert_eq!(cpu.pc(), 2);
    let w = cpu.window();
    assert_eq!(w.len(), 9);
    assert_eq!(w[0].addr, 0);
    assert_eq!(w[2].addr, 2);
    assert_eq!(w[2].opcode, 9);
    assert_eq!(w[2].operands, vec![32768, 1, 2]);
    assert!(w[2].current);
    assert!(!w[0].current);
    assert_eq!(w[6].operands, vec![65]);
    assert_eq!(w[3].operands, Vec::<u16>::new());
}

#[test]
fn stack_top_shows_last_five() {
    let mut cpu = boot(&[2, 1, 2, 2, 2, 3, 2, 4, 2, 5, 2, 6, 0]);
    assert_eq!(cpu.stack_top(), Vec::<u16>::new());
    run_to_end(&mut cpu);
    assert_eq!(cpu.stack_len(), 6);
    assert_eq!(cpu.stack_top(), vec![2, 3, 4, 5, 6]);
}

#[test]
fn image_decoding() {
    assert_eq!(decode_image(&vec![1, 2, 3]), Err(ImageError::OddLength));
    assert_eq!(decode_image(&vec![0; 65538]), Err(ImageError::TooLarge));
    assert_eq!(decode_image(&vec![0x34, 0x12, 0xff, 0x7f]), Ok(vec![0x1234, 0x7fff]));
    let bytes = vec![9, 0, 0, 128, 0xf6, 0x7f, 10, 0, 0, 0];
    let words = decode_image(&bytes).unwrap();
    assert_eq!(words, vec![9, 32768, 32758, 10, 0]);
    assert_eq!(encode_image(&words), bytes);
    let mut cpu = CPU::new();
    assert_eq!(cpu.read_binary(&vec![1]), Err(ImageError::OddLength));
    assert_eq!(cpu.read_binary(&bytes), Ok(()));
    assert_eq!(cpu.word_at(1), 32768);
    assert_eq!(cpu.word_at(5), 0);
    assert_eq!(cpu.word_at(32767), 0);
}

#[test]
fn loading_an_image_changes_only_memory_and_pc() {
    // SET R0 7; PUSH 3; HALT
    let mut cpu = boot(&[1, 32768, 7, 2, 3, 0]);
    assert_eq!(run_to_end(&mut cpu).0, Event::Halted);
    assert_eq!(cpu.read_binary(&image(&[21, 0])), Ok(()));
    assert_eq!(cpu.register(0), 7);
    assert_eq!(cpu.stack_len(), 1);
    assert!(cpu.is_halted());
    assert_eq!(cpu.pc(), 0);
    assert_eq!(cpu.word_at(0), 21);
    assert_eq!(cpu.word_at(2), 0);
}

#[test]
fn opcode_table() {
    assert_eq!(mnemonic(0), "HALT");
    assert_eq!(mnemonic(10), "MULT");
    assert_eq!(mnemonic(21), "NOOP");
    assert_eq!(arity(0), 0);
    assert_eq!(arity(19), 1);
    assert_eq!(arity(15), 2);
    assert_eq!(arity(13), 3);
    assert_eq!(word_name(32770), WordName::Register(2));
    assert_eq!(word_name(5), WordName::Opcode(5));
    assert_eq!(word_name(100), WordName::Literal(100));
    assert_eq!(word_name(32776), WordName::Literal(32776));
}

#[test]
fn bitwise_results_stay_fifteen_bits() {
    // OR 32767 32767; AND 32767 32767; NOT 0; ADD 32767 32767
    let mut cpu = boot(&[13, 32768, 32767, 32767, 12, 32769, 32767, 32767, 14, 32770, 0, 9, 32771, 32767, 32767, 0]);
    run_to_end(&mut cpu);
    assert_eq!(cpu.register(0), 32767);
    assert_eq!(cpu.register(1), 32767);
    assert_eq!(cpu.register(2), 32767);
    assert_eq!(cpu.register(3), 32766);
}

#[test]
fn same_input_same_transcript() {
    let program = [20, 32768, 19, 32768, 6, 0];
    let mut a = boot(&program);
    let mut b = boot(&program);
    a.handle_line(&b"abc\n".to_vec());
    b.handle_line(&b"abc\n".to_vec());
    let (ea, oa) = run_to_end(&mut a);
    let (eb, ob) = run_to_end(&mut b);
    assert_eq!(ea, eb);
    assert_eq!(oa, ob);
    assert_eq!(oa, b"abc\n".to_vec());
}

#[test]
fn running_off_the_end_of_memory_faults() {
    let mut words = vec![6, 32766];
    words.resize(32768, 0);
    words[32766] = 21;
    words[32767] = 21;
    let mut cpu = boot(&words);
    assert_eq!(cpu.step(), Event::Continue);
    assert_eq!(cpu.step(), Event::Continue);
    assert_eq!(cpu.pc(), 32767);
    assert_eq!(cpu.step(), Event::Fault(Fault::AddressOutOfRange));
    assert_eq!(cpu.pc(), 32767);
}

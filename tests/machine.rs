use hack_emu::app::{App, InputMode, Key};
use hack_emu::assembler::{assemble, to_asm, tokenize, AsmErrorKind, Command};
use hack_emu::bits::{get_bit, get_bit_slice};
use hack_emu::computer::{Computer, KBD_ADDRESS, SCR_ADDRESS};

fn lines(src: &[&str]) -> Vec<String> {
    src.iter().map(|s| s.to_string()).collect()
}

fn machine_for(src: &[&str]) -> Computer {
    let program = assemble(&lines(src)).expect("assembles");
    let mut c = Computer::new();
    c.load(&program);
    c
}

fn run(c: &mut Computer, steps: usize) {
    for _ in 0..steps {
        c.step();
    }
}

#[test]
fn bit_reads_twos_complement() {
    assert!(get_bit(-1, 15));
    assert!(get_bit(5, 0));
    assert!(!get_bit(5, 1));
    assert!(get_bit(5, 2));
    assert!(get_bit(i16::MIN, 15));
    assert!(!get_bit(i16::MAX, 15));
    for i in 0..16u16 {
        assert_eq!(get_bit(0x1234, i), (0x1234u16 >> i) & 1 == 1);
    }
}

#[test]
fn slice_is_right_aligned_and_unsigned() {
    assert_eq!(get_bit_slice(-1, 0, 3), 7);
    assert_eq!(get_bit_slice(-1, 13, 16), 7);
    assert_eq!(get_bit_slice(-1, 6, 12), 63);
    assert_eq!(get_bit_slice(0b0000_0001_1100_0000, 6, 9), 7);
    assert_eq!(get_bit_slice(0x1234, 4, 4), 0);
    assert_eq!(get_bit_slice(0x1234, 0, 16), 0x1234);
    for lo in 0..16u16 {
        for hi in lo..16u16 {
            let s = get_bit_slice(-12345, lo, hi);
            assert!(s >= 0);
            assert!((s as i32) < (1i32 << (hi - lo)));
        }
    }
}

#[test]
fn add_program_stores_sum() {
    let mut c = machine_for(&["@2", "D=A", "@3", "D=D+A", "@0", "M=D"]);
    run(&mut c, 6);
    assert_eq!(c.memory[0], 5);
}

const MAX_PROGRAM: [&str; 18] = [
    "@0", "D=M", "@1", "D=D-M", "@FIRST", "D;JGT", "@1", "D=M", "@STORE", "0;JMP", "(FIRST)",
    "@0", "D=M", "(STORE)", "@2", "M=D", "(END)", "@END",
];

fn max_of(a: i16, b: i16) -> i16 {
    let mut src: Vec<&str> = MAX_PROGRAM.to_vec();
    src.push("0;JMP");
    let mut c = machine_for(&src);
    c.memory[0] = a;
    c.memory[1] = b;
    run(&mut c, 40);
    c.memory[2]
}

#[test]
fn max_of_two_first_larger() {
    assert_eq!(max_of(7, 4), 7);
}

#[test]
fn max_of_two_second_larger() {
    assert_eq!(max_of(2, 9), 9);
}

#[test]
fn jump_to_label_skips_rest() {
    let mut c = machine_for(&["@END", "0;JMP", "@1", "M=1", "(END)"]);
    run(&mut c, 2);
    assert_eq!(c.pc, 4);
    assert_eq!(c.memory[1], 0);
}

#[test]
fn variables_are_allocated_from_sixteen() {
    // `2` is no computation of the table, so the last line is refused as written.
    let err = assemble(&lines(&["@x", "M=1", "@y", "M=2"])).unwrap_err();
    assert_eq!(err.kind, AsmErrorKind::InvalidComp);
    assert_eq!(err.line, 4);
    let program = assemble(&lines(&["@x", "M=1", "@y", "M=1", "M=M+1"])).unwrap();
    assert_eq!(program[0], 16);
    assert_eq!(program[2], 17);
    let mut c = machine_for(&["@x", "M=1", "@y", "M=1", "M=M+1"]);
    run(&mut c, 5);
    assert_eq!(c.memory[16], 1);
    assert_eq!(c.memory[17], 2);
}

#[test]
fn swapped_operands_assemble_alike() {
    assert_eq!(assemble(&lines(&["D=A+D"])).unwrap(), assemble(&lines(&["D=D+A"])).unwrap());
    assert_eq!(assemble(&lines(&["M=M&D"])).unwrap(), assemble(&lines(&["M=D&M"])).unwrap());
    assert_eq!(assemble(&lines(&["A=M|D"])).unwrap(), assemble(&lines(&["A=D|M"])).unwrap());
    let a_minus_d = assemble(&lines(&["D=A-D"])).unwrap();
    let d_minus_a = assemble(&lines(&["D=D-A"])).unwrap();
    assert_ne!(a_minus_d, d_minus_a);
    assert_eq!(to_asm(a_minus_d[0]), "D=A-D");
    let err = assemble(&lines(&["", "D=M-A"])).unwrap_err();
    assert_eq!(err.kind, AsmErrorKind::InvalidComp);
    assert_eq!(err.line, 2);
    assert_eq!(err.token, "M-A");
}

#[test]
fn keyboard_word_reaches_d() {
    let mut c = machine_for(&["@24576", "D=M"]);
    c.inject_key(65);
    run(&mut c, 2);
    assert_eq!(c.d_register, 65);
    c.clear_key();
    c.pc = 0;
    run(&mut c, 2);
    assert_eq!(c.d_register, 0);
}

#[test]
fn c_words_have_exact_layout() {
    let words = assemble(&lines(&["AMD=M+1;JMP", "0;JMP", "D=A", "  M=D // store", "@100"])).unwrap();
    assert_eq!(words[0] as u16, 0b1111_1101_1111_1111);
    assert_eq!(words[1] as u16, 0b1110_1010_1000_0111);
    assert_eq!(words[2] as u16, 0b1110_1100_0001_0000);
    assert_eq!(words[3] as u16, 0b1110_0011_0000_1000);
    assert_eq!(words[4], 100);
    assert_eq!(words.len(), 5);
}

#[test]
fn canonical_mnemonics_round_trip() {
    let comps = [
        "0", "1", "-1", "D", "A", "M", "!D", "!A", "!M", "-D", "-A", "-M", "D+1", "A+1", "M+1",
        "D-1", "A-1", "M-1", "D+A", "D+M", "D-A", "D-M", "A-D", "M-D", "D&A", "D&M", "D|A", "D|M",
    ];
    for comp in comps.iter() {
        for dest in ["", "M=", "D=", "MD=", "A=", "AM=", "AD=", "AMD="].iter() {
            for jump in ["", ";JGT", ";JEQ", ";JGE", ";JLT", ";JNE", ";JLE", ";JMP"].iter() {
                let m = format!("{}{}{}", dest, comp, jump);
                let w = assemble(&vec![m.clone()]).unwrap();
                assert_eq!(to_asm(w[0]), m);
            }
        }
    }
    for n in [0i16, 1, 7, 100, 16384, 24576, 32767].iter() {
        let m = format!("@{}", n);
        let w = assemble(&vec![m.clone()]).unwrap();
        assert_eq!(to_asm(w[0]), m);
    }
}

#[test]
fn unknown_comp_field_shows_placeholder() {
    assert_eq!(to_asm(0b1111_1111_1100_0000u16 as i16), "???");
}

#[test]
fn symbols_resolve_in_order() {
    let words = assemble(&lines(&["@i", "(LOOP)", "@i", "@END", "0;JMP", "(END)"])).unwrap();
    assert_eq!(words[0], 16);
    assert_eq!(words[1], 16);
    assert_eq!(words[2], 4);
    let words = assemble(&lines(&["@LOOP", "(LOOP)", "@SCREEN", "@KBD", "@R13", "@THAT"])).unwrap();
    assert_eq!(words, vec![1, 16384, 24576, 13, 4]);
}

fn alu_result(d: i16, y: i16, comp: &str, use_m: bool) -> i16 {
    let mut c = if use_m {
        machine_for(&["@7", format!("D={}", comp).as_str()])
    } else {
        machine_for(&[format!("@{}", y).as_str(), format!("D={}", comp).as_str()])
    };
    c.d_register = d;
    c.memory[7] = y;
    run(&mut c, 2);
    c.d_register
}

#[test]
fn alu_spot_checks() {
    assert_eq!(alu_result(5, 3, "D-A", false), 2);
    assert_eq!(alu_result(0, 3, "!D", false), -1);
    assert_eq!(alu_result(0x00FF, 0x0F0F, "D&M", true), 0x000F);
    assert_eq!(alu_result(0x00F0, 0x0F0F, "D|M", true), 0x0FFF);
    assert_eq!(alu_result(5, 3, "A-D", false), -2);
    assert_eq!(alu_result(9, 3, "D+1", false), 10);
    assert_eq!(alu_result(9, 3, "A-1", false), 2);
    assert_eq!(alu_result(9, 3, "-A", false), -3);
    assert_eq!(alu_result(9, 3, "0", false), 0);
    assert_eq!(alu_result(9, 3, "-1", false), -1);
    assert_eq!(alu_result(i16::MAX, 1, "D+M", true), i16::MIN);
}

#[test]
fn unconditional_jump_goes_to_a() {
    let mut c = machine_for(&["@5", "D;JMP"]);
    run(&mut c, 2);
    assert_eq!(c.pc, 5);
}

#[test]
fn untaken_jump_falls_through() {
    let mut c = machine_for(&["@5", "D;JGT"]);
    c.d_register = 0;
    run(&mut c, 2);
    assert_eq!(c.pc, 2);
}

#[test]
fn jumps_follow_flags() {
    for (jump, d, taken) in [
        ("JEQ", 0, true), ("JEQ", 1, false), ("JLT", -1, true), ("JLT", 0, false),
        ("JGE", 0, true), ("JGE", -3, false), ("JNE", 2, true), ("JNE", 0, false),
        ("JLE", 0, true), ("JLE", 1, false), ("JGT", 1, true), ("JGT", -1, false),
    ].iter() {
        let mut c = machine_for(&["@9", format!("D;{}", jump).as_str()]);
        c.d_register = *d;
        run(&mut c, 2);
        assert_eq!(c.pc, if *taken { 9 } else { 2 }, "{} with D={}", jump, d);
    }
}

#[test]
fn screen_pixel_at_origin_word() {
    let mut c = Computer::new();
    c.memory[SCR_ADDRESS] = 0x0001;
    assert_eq!(c.screen_pixels(), vec![(0u16, 255u16)]);
}

#[test]
fn screen_pixel_on_second_row() {
    let mut c = Computer::new();
    c.memory[SCR_ADDRESS + 512 / 16] = 0x8000u16 as i16;
    assert_eq!(c.screen_pixels(), vec![(15u16, 254u16)]);
}

#[test]
fn out_of_range_addresses_are_clamped() {
    let mut c = machine_for(&["@32767", "M=1", "D=-1", "A=D", "M=1", "@30000", "0;JMP"]);
    run(&mut c, 7);
    assert_eq!(c.memory[KBD_ADDRESS], 1);
    assert_eq!(c.memory[0], 1);
    assert_eq!(c.pc, 999);
}

#[test]
fn invalid_dest_and_jump_are_reported() {
    let err = assemble(&lines(&["@1", "X=D"])).unwrap_err();
    assert_eq!(err.kind, AsmErrorKind::InvalidDest);
    assert_eq!(err.line, 2);
    assert_eq!(err.token, "X");
    let err = assemble(&lines(&["// c", "0;JXX"])).unwrap_err();
    assert_eq!(err.kind, AsmErrorKind::InvalidJump);
    assert_eq!(err.line, 2);
    assert_eq!(err.token, "JXX");
    let err = assemble(&lines(&["D=Q"])).unwrap_err();
    assert_eq!(err.kind, AsmErrorKind::InvalidComp);
    assert_eq!(err.line, 1);
    assert_eq!(err.token, "Q");
}

#[test]
fn negative_literal_and_empty_source() {
    assert_eq!(assemble(&lines(&["@-1"])).unwrap(), vec![-1]);
    assert_eq!(assemble(&lines(&["", "   // nothing", "\t"])).unwrap(), Vec::<i16>::new());
    assert_eq!(to_asm(5), "@5");
    assert_eq!(to_asm(32767), "@32767");
}

#[test]
fn debugger_keys_drive_the_machine() {
    let program = assemble(&lines(&["@24576", "D=M"])).unwrap();
    let mut app = App::new("prog.asm".to_string(), program);
    assert!(!app.handle_input_event(Key::Char('b')));
    assert_eq!(app.input_mode, InputMode::Keyboard);
    app.handle_input_event(Key::Char('A'));
    assert_eq!(app.computer.memory[KBD_ADDRESS], 65);
    app.clear_input_event();
    assert_eq!(app.computer.memory[KBD_ADDRESS], 0);
    app.handle_input_event(Key::Char('A'));
    app.handle_input_event(Key::Esc);
    assert_eq!(app.input_mode, InputMode::Normal);
    app.handle_input_event(Key::Char('n'));
    app.handle_input_event(Key::Char('n'));
    assert_eq!(app.computer.d_register, 65);
    assert_eq!(app.rom_cursor, 2);
    app.handle_input_event(Key::Char('j'));
    app.handle_input_event(Key::Char('j'));
    app.handle_input_event(Key::Char('k'));
    assert_eq!(app.ram_cursor, 1);
    app.handle_input_event(Key::Char('r'));
    for c in ['-', '1', 'x', '2'].iter() {
        app.handle_input_event(Key::Char(*c));
    }
    app.handle_input_event(Key::Backspace);
    app.handle_input_event(Key::Char('3'));
    app.handle_input_event(Key::Enter);
    assert_eq!(app.computer.memory[1], -13);
    assert_eq!(app.input_mode, InputMode::Normal);
    app.handle_input_event(Key::Char('f'));
    assert!(app.is_full_screen);
    assert!(app.handle_input_event(Key::Char('q')));
}

#[test]
fn debugger_ignores_unparsable_entry() {
    let mut app = App::new("p".to_string(), vec![]);
    app.handle_input_event(Key::Char('r'));
    app.handle_input_event(Key::Char('-'));
    app.handle_input_event(Key::Enter);
    assert_eq!(app.computer.memory[0], 0);
    assert!(app.input.is_empty());
    app.handle_input_event(Key::Char('k'));
    assert_eq!(app.ram_cursor, 0);
}

#[test]
fn statements_carry_one_based_lines() {
    let cmds = tokenize(&lines(&["// header", "@1", "", "(L)", "D=M;JGT"]));
    let found: Vec<usize> = cmds
        .iter()
        .map(|c| match c {
            Command::A { line_number, .. } => *line_number,
            Command::C { line_number, .. } => *line_number,
            Command::L { line_number, .. } => *line_number,
        })
        .collect();
    assert_eq!(found, vec![2, 4, 5]);
    match &cmds[2] {
        Command::C { dest, comp, jump, .. } => {
            assert_eq!(dest.as_deref(), Some("D"));
            assert_eq!(comp, "M");
            assert_eq!(jump.as_deref(), Some("JGT"));
        }
        _ => panic!("expected a C-statement"),
    }
}

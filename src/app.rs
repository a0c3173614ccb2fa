use vstd::prelude::*;

use crate::computer::{step_spec, Computer, Machine, KBD_ADDRESS, RAM_SIZE, ROM_SIZE};
use crate::text::{decimal_word, parse_word, string_of_chars};

verus! {

/// What the keys of the debugger do at the moment.
#[derive(PartialEq, Eq, Structural, Clone, Copy, Debug)]
pub enum InputMode {
    Normal,
    Editing,
    Keyboard,
}

/// A key press, as the debugger sees it.
#[derive(PartialEq, Eq, Structural, Clone, Copy, Debug)]
pub enum Key {
    Char(char),
    Backspace,
    Enter,
    Esc,
    Other,
}

/// The debugger: a computer, the selected ROM and RAM rows, and the input state.
pub struct App {
    pub filename: String,
    pub computer: Computer,
    pub rom_cursor: usize,
    pub ram_cursor: usize,
    pub input: Vec<char>,
    pub input_mode: InputMode,
    pub is_full_screen: bool,
}

/// The debugger's state as plain values.
pub struct AppState {
    pub machine: Machine,
    pub rom_cursor: int,
    pub ram_cursor: int,
    pub input: Seq<char>,
    pub mode: InputMode,
    pub full_screen: bool,
}

impl View for App {
    type V = AppState;

    open spec fn view(&self) -> AppState {
        AppState {
            machine: self.computer@,
            rom_cursor: self.rom_cursor as int,
            ram_cursor: self.ram_cursor as int,
            input: self.input@,
            mode: self.input_mode,
            full_screen: self.is_full_screen,
        }
    }
}

/// The keyboard code of a character: its code point cut to 16 bits.
pub open spec fn key_code(c: char) -> i16 {
    (c as u32) as i16
}

/// The ROM row that shows program counter `pc`.
pub open spec fn pc_row(pc: i16) -> int {
    if pc >= 0 {
        pc as int
    } else {
        0
    }
}

/// The state after key `k`, and whether the key asks to quit.
pub open spec fn on_key(s: AppState, k: Key) -> (AppState, bool) {
    match s.mode {
        InputMode::Editing => match k {
            Key::Char(c) => if ('0' <= c && c <= '9') || c == '-' {
                (AppState { input: s.input.push(c), ..s }, false)
            } else {
                (s, false)
            },
            Key::Backspace => (
                AppState {
                    input: if s.input.len() > 0 { s.input.drop_last() } else { s.input },
                    ..s
                },
                false,
            ),
            Key::Enter => {
                let machine = match decimal_word(s.input) {
                    Some(v) => Machine { ram: s.machine.ram.update(s.ram_cursor, v), ..s.machine },
                    None => s.machine,
                };
                (AppState { machine, input: Seq::empty(), mode: InputMode::Normal, ..s }, false)
            },
            Key::Esc => (AppState { input: Seq::empty(), mode: InputMode::Normal, ..s }, false),
            _ => (s, false),
        },
        InputMode::Normal => match k {
            Key::Char('n') => {
                let machine = step_spec(s.machine);
                (AppState { machine, rom_cursor: pc_row(machine.pc), ..s }, false)
            },
            Key::Char('f') => (AppState { full_screen: !s.full_screen, ..s }, false),
            Key::Char('j') => (
                AppState {
                    ram_cursor: if s.ram_cursor + 1 < RAM_SIZE { s.ram_cursor + 1 } else { s.ram_cursor },
                    ..s
                },
                false,
            ),
            Key::Char('k') => (
                AppState {
                    ram_cursor: if s.ram_cursor > 0 { s.ram_cursor - 1 } else { s.ram_cursor },
                    ..s
                },
                false,
            ),
            Key::Char('r') => (AppState { mode: InputMode::Editing, ..s }, false),
            Key::Char('b') => (AppState { mode: InputMode::Keyboard, ..s }, false),
            Key::Char('q') => (s, true),
            _ => (s, false),
        },
        InputMode::Keyboard => match k {
            Key::Esc => (AppState { mode: InputMode::Normal, ..s }, false),
            Key::Char(c) => (
                AppState {
                    machine: Machine {
                        ram: s.machine.ram.update(KBD_ADDRESS as int, key_code(c)),
                        ..s.machine
                    },
                    ..s
                },
                false,
            ),
            _ => (s, false),
        },
    }
}

impl App {
    /// The computer has its memories and the RAM row is inside RAM.
    pub open spec fn wf(&self) -> bool {
        self.computer.wf() && self.ram_cursor < RAM_SIZE
    }

    /// A debugger for `program`, loaded into ROM of a fresh computer.
    pub fn new(filename: String, program: Vec<i16>) -> (r: App)
        requires
            program@.len() <= ROM_SIZE,
        ensures
            r.wf(),
            r.filename == filename,
            r.computer.d_register == 0 && r.computer.a_register == 0 && r.computer.pc == 0,
            forall|i: int| 0 <= i < program@.len() ==> r.computer.rom@[i] == Some(program@[i]),
            forall|i: int| program@.len() <= i < ROM_SIZE ==> r.computer.rom@[i] is None,
            forall|i: int| 0 <= i < RAM_SIZE ==> r.computer.memory@[i] == 0,
            r.rom_cursor == 0 && r.ram_cursor == 0,
            r.input@.len() == 0,
            r.input_mode == InputMode::Normal,
            !r.is_full_screen,
    {
        let mut computer = Computer::new();
        computer.load(&program);
        App {
            filename,
            computer,
            rom_cursor: 0,
            ram_cursor: 0,
            input: Vec::new(),
            input_mode: InputMode::Normal,
            is_full_screen: false,
        }
    }

    /// Releases the injected key when the keyboard mode is on.
    pub fn clear_input_event(&mut self)
        requires
            old(self).wf(),
        ensures
            final(self).wf(),
            final(self).filename == old(self).filename,
            final(self)@ == (if old(self).input_mode == InputMode::Keyboard {
                AppState {
                    machine: Machine { ram: old(self)@.machine.ram.update(KBD_ADDRESS as int, 0), ..old(self)@.machine },
                    ..old(self)@
                }
            } else {
                old(self)@
            }),
    {
        match self.input_mode {
            InputMode::Keyboard => self.computer.clear_key(),
            _ => {},
        }
    }

    /// Handles one key press; returns whether it asks to quit.
    pub fn handle_input_event(&mut self, event: Key) -> (quit: bool)
        requires
            old(self).wf(),
        ensures
            final(self).wf(),
            final(self).filename == old(self).filename,
            (final(self)@, quit) == on_key(old(self)@, event),
    {
        match self.input_mode {
            InputMode::Editing => match event {
                Key::Char(c) => {
                    if ('0' <= c && c <= '9') || c == '-' {
                        self.input.push(c);
                    }
                },
                Key::Backspace => {
                    if self.input.len() > 0 {
                        self.input.pop();
                    }
                },
                Key::Enter => {
                    let text = string_of_chars(&self.input);
                    match parse_word(text.as_str()) {
                        Some(v) => self.computer.write_ram(self.ram_cursor, v),
                        None => {},
                    }
                    self.input = Vec::new();
                    self.input_mode = InputMode::Normal;
                },
                Key::Esc => {
                    self.input = Vec::new();
                    self.input_mode = InputMode::Normal;
                },
                _ => {},
            },
            InputMode::Normal => match event {
                Key::Char('n') => {
                    self.computer.step();
                    self.rom_cursor = if self.computer.pc >= 0 {
                        self.computer.pc as usize
                    } else {
                        0
                    };
                },
                Key::Char('f') => {
                    self.is_full_screen = !self.is_full_screen;
                },
                Key::Char('j') => {
                    if self.ram_cursor + 1 < RAM_SIZE {
                        self.ram_cursor = self.ram_cursor + 1;
                    }
                },
                Key::Char('k') => {
                    if self.ram_cursor > 0 {
                        self.ram_cursor = self.ram_cursor - 1;
                    }
                },
                Key::Char('r') => {
                    self.input_mode = InputMode::Editing;
                },
                Key::Char('b') => {
                    self.input_mode = InputMode::Keyboard;
                },
                Key::Char('q') => {
                    return true;
                },
                _ => {},
            },
            InputMode::Keyboard => match event {
                Key::Esc => {
                    self.input_mode = InputMode::Normal;
                },
                Key::Char(c) => {
                    self.computer.inject_key(#[verifier::truncate] ((c as u32) as i16));
                },
                _ => {},
            },
        }
        false
    }
}

} // verus!

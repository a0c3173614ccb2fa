use vstd::prelude::*;
use vstd::string::*;

use crate::bits::{bit_of, get_bit, get_bit_slice, slice_of};
use crate::computer::wrap16;
use crate::isa::{
    comp_bits, comp_code, comp_name, comp_text, dest_bits, dest_code, dest_name, dest_text,
    jump_bits, jump_code, jump_name, jump_text,
};
use crate::text::{
    all_digits, back_spaces, decimal_of, decimal_word, digit_char, digit_value, digits_of, digits_value, find_char, find_from,
    is_space, is_space_spec,
    parse_word, skip_spaces, string_of_chars, word_text,
};

verus! {

/// One statement of assembly source, with its 1-based source line.
pub enum Command {
    A { address: String, line_number: usize },
    C { dest: Option<String>, comp: String, jump: Option<String>, line_number: usize },
    L { label: String, line_number: usize },
}

/// A statement as plain values.
pub enum CommandModel {
    A { address: Seq<char>, line: int },
    C { dest: Option<Seq<char>>, comp: Seq<char>, jump: Option<Seq<char>>, line: int },
    L { label: Seq<char>, line: int },
}

/// The text of an optional field.
pub open spec fn opt_view(o: Option<String>) -> Option<Seq<char>> {
    match o {
        Some(s) => Some(s@),
        None => None,
    }
}

impl View for Command {
    type V = CommandModel;

    open spec fn view(&self) -> CommandModel {
        match self {
            Command::A { address, line_number } => CommandModel::A {
                address: address@,
                line: *line_number as int,
            },
            Command::C { dest, comp, jump, line_number } => CommandModel::C {
                dest: opt_view(*dest),
                comp: comp@,
                jump: opt_view(*jump),
                line: *line_number as int,
            },
            Command::L { label, line_number } => CommandModel::L {
                label: label@,
                line: *line_number as int,
            },
        }
    }
}

/// Which field of a C-instruction could not be assembled.
#[derive(PartialEq, Eq, Structural, Clone, Copy, Debug)]
pub enum AsmErrorKind {
    InvalidComp,
    InvalidDest,
    InvalidJump,
}

/// An assembly error: the field, the 1-based source line and the offending text.
#[derive(Debug)]
pub struct AsmError {
    pub kind: AsmErrorKind,
    pub line: usize,
    pub token: String,
}

/// An assembly error as plain values.
pub struct AsmFault {
    pub kind: AsmErrorKind,
    pub line: int,
    pub token: Seq<char>,
}

impl View for AsmError {
    type V = AsmFault;

    open spec fn view(&self) -> AsmFault {
        AsmFault { kind: self.kind, line: self.line as int, token: self.token@ }
    }
}

/// The statement text of a line: leading white space dropped, cut at the first `/`,
/// trailing white space dropped.
pub open spec fn clean_line(l: Seq<char>) -> Seq<char> {
    let a = skip_spaces(l, 0);
    let b = find_from(l, '/', a);
    l.subrange(a, back_spaces(l, a, b))
}

/// The statement that cleaned text `t` on line `n` holds, if any.
pub open spec fn parse_statement(t: Seq<char>, n: int) -> Option<CommandModel> {
    if t.len() == 0 {
        None
    } else if t[0] == '@' {
        Some(CommandModel::A { address: t.skip(1), line: n })
    } else if t[0] == '(' {
        let label = if t.len() >= 2 { t.subrange(1, t.len() - 1) } else { Seq::empty() };
        Some(CommandModel::L { label, line: n })
    } else {
        let eq = find_from(t, '=', 0);
        let sc = find_from(t, ';', 0);
        let start = if eq < t.len() { eq + 1 } else { 0 };
        Some(CommandModel::C {
            dest: if eq < t.len() { Some(t.take(eq)) } else { None },
            comp: if start <= sc { t.subrange(start, sc) } else { Seq::empty() },
            jump: if sc < t.len() { Some(t.skip(sc + 1)) } else { None },
            line: n,
        })
    }
}

/// The statements of a source, in order, each with its 1-based source line.
pub open spec fn tokens(lines: Seq<Seq<char>>) -> Seq<CommandModel>
    decreases lines.len(),
{
    if lines.len() == 0 {
        Seq::empty()
    } else {
        let prev = tokens(lines.drop_last());
        match parse_statement(clean_line(lines.last()), lines.len() as int) {
            Some(c) => prev.push(c),
            None => prev,
        }
    }
}

/// A symbol table: bindings in the order they were made.
pub type Bindings = Seq<(Seq<char>, usize)>;

/// The address bound to `name`.
pub open spec fn lookup(t: Bindings, name: Seq<char>) -> Option<usize>
    decreases t.len(),
{
    if t.len() == 0 {
        None
    } else if t.last().0 == name {
        Some(t.last().1)
    } else {
        lookup(t.drop_last(), name)
    }
}

/// `t` with `name` bound to `addr`, unless `name` is bound already.
pub open spec fn bind(t: Bindings, name: Seq<char>, addr: usize) -> Bindings {
    if lookup(t, name) is Some {
        t
    } else {
        t.push((name, addr))
    }
}

/// The predefined symbols.
pub open spec fn predefined() -> Bindings {
    seq![
        ("SP"@, 0usize), ("LCL"@, 1usize), ("ARG"@, 2usize), ("THIS"@, 3usize),
        ("THAT"@, 4usize), ("SCREEN"@, 16384usize), ("KBD"@, 24576usize),
        ("R0"@, 0usize), ("R1"@, 1usize), ("R2"@, 2usize), ("R3"@, 3usize),
        ("R4"@, 4usize), ("R5"@, 5usize), ("R6"@, 6usize), ("R7"@, 7usize),
        ("R8"@, 8usize), ("R9"@, 9usize), ("R10"@, 10usize), ("R11"@, 11usize),
        ("R12"@, 12usize), ("R13"@, 13usize), ("R14"@, 14usize), ("R15"@, 15usize),
    ]
}

/// The first pass: each label is bound to the number of words emitted before it.
pub open spec fn bind_labels(cmds: Seq<CommandModel>, t: Bindings, count: int) -> Bindings
    decreases cmds.len(),
{
    if cmds.len() == 0 {
        t
    } else {
        match cmds[0] {
            CommandModel::L { label, .. } => bind_labels(cmds.skip(1), bind(t, label, count as usize), count),
            _ => bind_labels(cmds.skip(1), t, count + 1),
        }
    }
}

/// The computation field of a comp mnemonic, trying the operands swapped for a
/// three-character mnemonic whose operator is not `-`.
pub open spec fn comp_field(comp: Seq<char>) -> Option<i16> {
    match comp_code(comp) {
        Some(c) => Some(c),
        None => if comp.len() == 3 && comp[1] != '-' {
            comp_code(seq![comp[2], comp[1], comp[0]])
        } else {
            None
        },
    }
}

/// The machine word of a C-instruction: `0b111 << 13 | c << 6 | d << 3 | j`.
pub open spec fn c_word(c: i16, d: i16, j: i16) -> i16 {
    wrap16(0b111 * 8192 + c * 64 + d * 8 + j)
}

/// The word of a C-statement on line `n`, or the first field that fails.
pub open spec fn assemble_c(dest: Option<Seq<char>>, comp: Seq<char>, jump: Option<Seq<char>>, n: int)
    -> Result<i16, AsmFault>
{
    match comp_field(comp) {
        None => Err(AsmFault { kind: AsmErrorKind::InvalidComp, line: n, token: comp }),
        Some(c) => {
            let d = match dest {
                None => Some(0i16),
                Some(m) => dest_code(m),
            };
            let j = match jump {
                None => Some(0i16),
                Some(m) => jump_code(m),
            };
            if d is None {
                Err(AsmFault { kind: AsmErrorKind::InvalidDest, line: n, token: dest->0 })
            } else if j is None {
                Err(AsmFault { kind: AsmErrorKind::InvalidJump, line: n, token: jump->0 })
            } else {
                Ok(c_word(c, d->0, j->0))
            }
        },
    }
}

/// The second pass: words appended to `out`; a new symbol is bound to `cursor + 1`.
pub open spec fn emit(cmds: Seq<CommandModel>, t: Bindings, cursor: int, out: Seq<i16>) -> Result<
    Seq<i16>,
    AsmFault,
>
    decreases cmds.len(),
{
    if cmds.len() == 0 {
        Ok(out)
    } else {
        let rest = cmds.skip(1);
        match cmds[0] {
            CommandModel::A { address, .. } => match decimal_word(address) {
                Some(v) => emit(rest, t, cursor, out.push(v)),
                None => match lookup(t, address) {
                    Some(a) => emit(rest, t, cursor, out.push(a as i16)),
                    None => emit(
                        rest,
                        t.push((address, (cursor + 1) as usize)),
                        cursor + 1,
                        out.push((cursor + 1) as usize as i16),
                    ),
                },
            },
            CommandModel::C { dest, comp, jump, line } => match assemble_c(dest, comp, jump, line) {
                Ok(w) => emit(rest, t, cursor, out.push(w)),
                Err(e) => Err(e),
            },
            CommandModel::L { .. } => emit(rest, t, cursor, out),
        }
    }
}

/// The symbol table after the second pass: each symbol that is neither a number nor
/// bound yet is bound to the next address after `cursor`, in order of first use.
pub open spec fn emit_table(cmds: Seq<CommandModel>, t: Bindings, cursor: int) -> Bindings
    decreases cmds.len(),
{
    if cmds.len() == 0 {
        t
    } else {
        let rest = cmds.skip(1);
        match cmds[0] {
            CommandModel::A { address, .. } => if decimal_word(address) is None && lookup(t, address) is None {
                emit_table(rest, t.push((address, (cursor + 1) as usize)), cursor + 1)
            } else {
                emit_table(rest, t, cursor)
            },
            _ => emit_table(rest, t, cursor),
        }
    }
}

/// The machine code of a source given as lines.
pub open spec fn assemble_spec(lines: Seq<Seq<char>>) -> Result<Seq<i16>, AsmFault> {
    let cmds = tokens(lines);
    emit(cmds, bind_labels(cmds, predefined(), 0), 15, Seq::empty())
}

/// The text of a machine word.
pub open spec fn asm_text(instr: i16) -> Seq<char> {
    if !bit_of(instr, 15) {
        "@"@ + decimal_of(instr)
    } else {
        let c = slice_of(instr, 6, 13);
        let d = slice_of(instr, 3, 6);
        let j = slice_of(instr, 0, 3);
        let dest_part = if d != 0 { dest_name(d) + "="@ } else { Seq::empty() };
        let comp_part = match comp_name(c) {
            Some(m) => m,
            None => "???"@,
        };
        let jump_part = if j != 0 { ";"@ + jump_name(j) } else { Seq::empty() };
        dest_part + comp_part + jump_part
    }
}

/// Source lines as character sequences.
pub open spec fn line_views(input: Seq<String>) -> Seq<Seq<char>> {
    input.map_values(|s: String| s@)
}

/// Statements as plain values.
pub open spec fn command_views(cmds: Seq<Command>) -> Seq<CommandModel> {
    cmds.map_values(|c: Command| c@)
}

/// A symbol table as plain bindings.
pub open spec fn binding_views(t: Seq<(String, usize)>) -> Bindings {
    t.map_values(|p: (String, usize)| (p.0@, p.1))
}

/// The statement on one line of source, if the line holds one.
fn parse_line(line: &str, line_number: usize) -> (r: Option<Command>)
    ensures
        match r {
            Some(c) => parse_statement(clean_line(line@), line_number as int) == Some(c@),
            None => parse_statement(clean_line(line@), line_number as int) is None,
        },
{
    let ghost l = line@;
    let n = line.unicode_len();
    let mut a: usize = 0;
    while a < n && is_space(line.get_char(a))
        invariant
            n == l.len(),
            l == line@,
            a <= n,
            skip_spaces(l, a as int) == skip_spaces(l, 0),
        decreases n - a,
    {
        a = a + 1;
    }
    let b = find_char(line, '/', a);
    let mut e: usize = b;
    while e > a && is_space(line.get_char(e - 1))
        invariant
            n == l.len(),
            l == line@,
            a <= e <= b <= n,
            back_spaces(l, a as int, e as int) == back_spaces(l, a as int, b as int),
        decreases e - a,
    {
        e = e - 1;
    }
    if e == a {
        return None;
    }
    let t = line.substring_char(a, e);
    assert(t@ == clean_line(l));
    let len = e - a;
    let first = t.get_char(0);
    if first == '@' {
        let address = t.substring_char(1, len).to_owned();
        assert(address@ =~= t@.skip(1));
        Some(Command::A { address, line_number })
    } else if first == '(' {
        let label = if len >= 2 {
            t.substring_char(1, len - 1).to_owned()
        } else {
            String::new()
        };
        Some(Command::L { label, line_number })
    } else {
        let eq = find_char(t, '=', 0);
        let sc = find_char(t, ';', 0);
        let dest = if eq < len {
            Some(t.substring_char(0, eq).to_owned())
        } else {
            None
        };
        let start = if eq < len {
            eq + 1
        } else {
            0
        };
        let comp = if start <= sc {
            t.substring_char(start, sc).to_owned()
        } else {
            String::new()
        };
        let jump = if sc < len {
            Some(t.substring_char(sc + 1, len).to_owned())
        } else {
            None
        };
        proof {
            if sc < len {
                assert(t@.subrange(sc + 1, len as int) =~= t@.skip(sc + 1));
            }
        }
        Some(Command::C { dest, comp, jump, line_number })
    }
}

/// Splits source lines into statements.
pub fn tokenize(input: &Vec<String>) -> (r: Vec<Command>)
    ensures
        command_views(r@) == tokens(line_views(input@)),
        r@.len() <= input@.len(),
        forall|i: int| 0 <= i < r@.len() ==> 1 <= (#[trigger] r@[i]).line_number() <= input@.len(),
{
    let mut commands: Vec<Command> = Vec::new();
    let mut i: usize = 0;
    while i < input.len()
        invariant
            i <= input@.len(),
            commands@.len() <= i,
            command_views(commands@) == tokens(line_views(input@).take(i as int)),
            forall|k: int| 0 <= k < commands@.len() ==> 1 <= (#[trigger] commands@[k]).line_number() <= i,
        decreases input@.len() - i,
    {
        let line = input[i].as_str();
        let ghost before = commands@;
        assert(line_views(input@).take(i + 1).drop_last() =~= line_views(input@).take(i as int));
        match parse_line(line, i + 1) {
            Some(c) => {
                commands.push(c);
                assert(command_views(commands@) =~= command_views(before).push(commands@.last()@));
            },
            None => {},
        }
        i = i + 1;
    }
    assert(line_views(input@).take(input@.len() as int) =~= line_views(input@));
    commands
}

impl Command {
    /// The 1-based source line of the statement.
    pub open spec fn line_number(&self) -> usize {
        match self {
            Command::A { line_number, .. } => *line_number,
            Command::C { line_number, .. } => *line_number,
            Command::L { line_number, .. } => *line_number,
        }
    }
}


/// The address bound to `name` in `table`.
fn table_lookup(table: &Vec<(String, usize)>, name: &String) -> (r: Option<usize>)
    ensures
        r == lookup(binding_views(table@), name@),
{
    let ghost t = binding_views(table@);
    let mut i: usize = table.len();
    assert(t.take(i as int) =~= t);
    while i > 0
        invariant
            i <= table@.len(),
            t == binding_views(table@),
            lookup(t.take(i as int), name@) == lookup(t, name@),
        decreases i,
    {
        assert(t.take(i as int).drop_last() =~= t.take(i - 1));
        if table[i - 1].0 == *name {
            return Some(table[i - 1].1);
        }
        i = i - 1;
    }
    None
}

/// Binds `name` to `addr` in `table` unless it is bound already.
fn table_bind(table: &mut Vec<(String, usize)>, name: &String, addr: usize)
    ensures
        binding_views(final(table)@) == bind(binding_views(old(table)@), name@, addr),
{
    if table_lookup(table, name).is_none() {
        table.push((name.clone(), addr));
        assert(binding_views(table@) =~= binding_views(old(table)@).push((name@, addr)));
    }
}

/// The symbol table holding the predefined symbols.
pub fn init_symbol_table() -> (r: Vec<(String, usize)>)
    ensures
        binding_views(r@) == predefined(),
{
    let mut t: Vec<(String, usize)> = Vec::new();
    t.push((String::from_str("SP"), 0));
    t.push((String::from_str("LCL"), 1));
    t.push((String::from_str("ARG"), 2));
    t.push((String::from_str("THIS"), 3));
    t.push((String::from_str("THAT"), 4));
    t.push((String::from_str("SCREEN"), 16384));
    t.push((String::from_str("KBD"), 24576));
    t.push((String::from_str("R0"), 0));
    t.push((String::from_str("R1"), 1));
    t.push((String::from_str("R2"), 2));
    t.push((String::from_str("R3"), 3));
    t.push((String::from_str("R4"), 4));
    t.push((String::from_str("R5"), 5));
    t.push((String::from_str("R6"), 6));
    t.push((String::from_str("R7"), 7));
    t.push((String::from_str("R8"), 8));
    t.push((String::from_str("R9"), 9));
    t.push((String::from_str("R10"), 10));
    t.push((String::from_str("R11"), 11));
    t.push((String::from_str("R12"), 12));
    t.push((String::from_str("R13"), 13));
    t.push((String::from_str("R14"), 14));
    t.push((String::from_str("R15"), 15));
    assert(binding_views(t@) =~= predefined());
    t
}

/// The computation field of a comp mnemonic, accepting swapped operands.
fn comp_field_of(comp: &String) -> (r: Option<i16>)
    ensures
        r == comp_field(comp@),
{
    match comp_bits(comp.as_str()) {
        Some(c) => Some(c),
        None => {
            let s = comp.as_str();
            if s.unicode_len() == 3 && s.get_char(1) != '-' {
                let rev: Vec<char> = vec![s.get_char(2), s.get_char(1), s.get_char(0)];
                let rcomp = string_of_chars(&rev);
                assert(rev@ =~= seq![comp@[2], comp@[1], comp@[0]]);
                comp_bits(rcomp.as_str())
            } else {
                None
            }
        },
    }
}

/// The machine word of a C-statement on source line `line_number`.
fn c_instruction(dest: &Option<String>, comp: &String, jump: &Option<String>, line_number: usize) -> (r:
    Result<i16, AsmError>)
    ensures
        match r {
            Ok(w) => assemble_c(opt_view(*dest), comp@, opt_view(*jump), line_number as int) == Ok::<
                i16,
                AsmFault,
            >(w),
            Err(e) => assemble_c(opt_view(*dest), comp@, opt_view(*jump), line_number as int) == Err::<
                i16,
                AsmFault,
            >(e@),
        },
{
    let c = match comp_field_of(comp) {
        Some(c) => c,
        None => {
            return Err(
                AsmError { kind: AsmErrorKind::InvalidComp, line: line_number, token: comp.clone() },
            );
        },
    };
    let d: i16 = match dest {
        None => 0,
        Some(m) => match dest_bits(m.as_str()) {
            Some(d) => d,
            None => {
                return Err(
                    AsmError { kind: AsmErrorKind::InvalidDest, line: line_number, token: m.clone() },
                );
            },
        },
    };
    let j: i16 = match jump {
        None => 0,
        Some(m) => match jump_bits(m.as_str()) {
            Some(j) => j,
            None => {
                return Err(
                    AsmError { kind: AsmErrorKind::InvalidJump, line: line_number, token: m.clone() },
                );
            },
        },
    };
    let v: i32 = 0b111 * 8192 + (c as i32) * 64 + (d as i32) * 8 + (j as i32);
    Ok((v - 65536) as i16)
}

/// Binds the labels, then emits one word per A- or C-statement.
fn transform(commands: &Vec<Command>, symbol_table: &mut Vec<(String, usize)>) -> (r: Result<Vec<i16>, AsmError>)
    requires
        commands@.len() < usize::MAX - 16,
    ensures
        ({
            let cv = command_views(commands@);
            let res = emit(cv, bind_labels(cv, binding_views(old(symbol_table)@), 0), 15, Seq::empty());
            match r {
                Ok(v) => res == Ok::<Seq<i16>, AsmFault>(v@),
                Err(e) => res == Err::<Seq<i16>, AsmFault>(e@),
            }
        }),
        r is Ok ==> binding_views(final(symbol_table)@) == emit_table(
            command_views(commands@),
            bind_labels(command_views(commands@), binding_views(old(symbol_table)@), 0),
            15,
        ),
{
    let ghost cv = command_views(commands@);
    let ghost t0 = binding_views(symbol_table@);
    let mut current_line: usize = 0;
    let mut i: usize = 0;
    assert(cv.skip(0) =~= cv);
    while i < commands.len()
        invariant
            i <= commands@.len(),
            current_line <= i,
            cv == command_views(commands@),
            bind_labels(cv.skip(i as int), binding_views(symbol_table@), current_line as int)
                == bind_labels(cv, t0, 0),
        decreases commands@.len() - i,
    {
        assert(cv.skip(i as int).skip(1) =~= cv.skip(i + 1));
        match &commands[i] {
            Command::L { label, .. } => {
                table_bind(symbol_table, label, current_line);
            },
            _ => {
                current_line = current_line + 1;
            },
        }
        i = i + 1;
    }
    let ghost t1 = binding_views(symbol_table@);
    assert(t1 == bind_labels(cv, t0, 0));

    let mut memory_address: usize = 15;
    let mut binary_code: Vec<i16> = Vec::new();
    let mut i: usize = 0;
    assert(cv.skip(0) =~= cv);
    while i < commands.len()
        invariant
            i <= commands@.len() < usize::MAX - 16,
            memory_address <= 15 + i,
            cv == command_views(commands@),
            t0 == binding_views(old(symbol_table)@),
            t1 == bind_labels(cv, t0, 0),
            emit(cv.skip(i as int), binding_views(symbol_table@), memory_address as int, binary_code@)
                == emit(cv, t1, 15, Seq::empty()),
            emit_table(cv.skip(i as int), binding_views(symbol_table@), memory_address as int)
                == emit_table(cv, t1, 15),
        decreases commands@.len() - i,
    {
        assert(cv.skip(i as int).skip(1) =~= cv.skip(i + 1));
        assert(cv.skip(i as int)[0] == commands@[i as int]@);
        match &commands[i] {
            Command::A { address, .. } => {
                match parse_word(address.as_str()) {
                    Some(number) => {
                        binary_code.push(number);
                    },
                    None => {
                        match table_lookup(symbol_table, address) {
                            Some(number) => {
                                binary_code.push(#[verifier::truncate] (number as i16));
                            },
                            None => {
                                memory_address = memory_address + 1;
                                let ghost tb = binding_views(symbol_table@);
                                symbol_table.push((address.clone(), memory_address));
                                assert(binding_views(symbol_table@) =~= tb.push((address@, memory_address)));
                                binary_code.push(#[verifier::truncate] (memory_address as i16));
                            },
                        }
                    },
                }
            },
            Command::C { dest, comp, jump, line_number } => {
                match c_instruction(dest, comp, jump, *line_number) {
                    Ok(w) => {
                        binary_code.push(w);
                    },
                    Err(e) => {
                        assert(emit(cv.skip(i as int), binding_views(symbol_table@), memory_address as int, binary_code@)
                            == Err::<Seq<i16>, AsmFault>(e@));
                        return Err(e);
                    },
                }
            },
            Command::L { .. } => {},
        }
        i = i + 1;
    }
    assert(cv.skip(i as int) =~= Seq::<CommandModel>::empty());
    Ok(binary_code)
}

/// Assembles source lines into machine words.
pub fn assemble(input: &Vec<String>) -> (r: Result<Vec<i16>, AsmError>)
    requires
        input@.len() < usize::MAX - 16,
    ensures
        match r {
            Ok(v) => assemble_spec(line_views(input@)) == Ok::<Seq<i16>, AsmFault>(v@),
            Err(e) => assemble_spec(line_views(input@)) == Err::<Seq<i16>, AsmFault>(e@),
        },
{
    let mut symbol_table = init_symbol_table();
    let commands = tokenize(input);
    transform(&commands, &mut symbol_table)
}

/// The assembly text of a machine word; an unknown computation field shows as `???`.
pub fn to_asm(instr: i16) -> (r: String)
    ensures
        r@ == asm_text(instr),
{
    let is_a_instr = !get_bit(instr, 15);
    if is_a_instr {
        let mut text = String::from_str("@");
        let digits = word_text(instr);
        text.append(digits.as_str());
        text
    } else {
        let comp = get_bit_slice(instr, 6, 13);
        let dest = get_bit_slice(instr, 3, 6);
        let jump = get_bit_slice(instr, 0, 3);
        let mut text = String::new();
        if dest != 0 {
            text.append(dest_text(dest));
            text.append("=");
        }
        match comp_text(comp) {
            Some(m) => text.append(m.as_str()),
            None => text.append("???"),
        }
        if jump != 0 {
            text.append(";");
            text.append(jump_text(jump));
        }
        proof {
            let dp = if dest != 0 { dest_name(dest) + "="@ } else { Seq::<char>::empty() };
            let cp = match comp_name(comp) {
                Some(m) => m,
                None => "???"@,
            };
            let jp = if jump != 0 { ";"@ + jump_name(jump) } else { Seq::<char>::empty() };
            assert(text@ =~= dp + cp + jp);
        }
        text
    }
}


/// The text of a C-instruction's fields: `dest=` if any, the comp mnemonic, `;jump` if any.
pub open spec fn c_text(d: i16, comp: Seq<char>, j: i16) -> Seq<char> {
    let dest_part = if d != 0 { dest_name(d) + "="@ } else { Seq::empty() };
    let jump_part = if j != 0 { ";"@ + jump_name(j) } else { Seq::empty() };
    dest_part + comp + jump_part
}

/// Every C-instruction word starts with three 1-bits and holds its fields at their places.
pub proof fn lemma_c_word_layout(c: i16, d: i16, j: i16)
    requires
        0 <= c < 128,
        0 <= d < 8,
        0 <= j < 8,
    ensures
        slice_of(c_word(c, d, j), 13, 16) == 7,
        bit_of(c_word(c, d, j), 15),
        slice_of(c_word(c, d, j), 6, 13) == c,
        slice_of(c_word(c, d, j), 3, 6) == d,
        slice_of(c_word(c, d, j), 0, 3) == j,
{
    let w = c_word(c, d, j);
    assert(w == (c * 64 + d * 8 + j - 8192) as i16);
    assert(bit_of(w, 15) && slice_of(w, 13, 16) == 7 && slice_of(w, 6, 13) == c && slice_of(w, 3, 6)
        == d && slice_of(w, 0, 3) == j) by (bit_vector)
        requires
            w == (c * 64 + d * 8 + j - 8192) as i16,
            0 <= c < 128,
            0 <= d < 8,
            0 <= j < 8,
    ;
}

/// A C-instruction word built from canonical fields disassembles to the mnemonics of its
/// fields, each of which assembles back to its field.
pub proof fn lemma_c_round_trip(c: i16, d: i16, j: i16)
    requires
        comp_name(c) is Some,
        0 <= d < 8,
        0 <= j < 8,
    ensures
        asm_text(c_word(c, d, j)) == c_text(d, comp_name(c)->0, j),
        comp_field(comp_name(c)->0) == Some(c),
        d != 0 ==> dest_code(dest_name(d)) == Some(d),
        j != 0 ==> jump_code(jump_name(j)) == Some(j),
{
    lemma_comp_names_invert(c);
    if d != 0 {
        lemma_dest_names_invert(d);
    }
    if j != 0 {
        lemma_jump_names_invert(j);
    }
    lemma_c_word_layout(c, d, j);
}

/// A character that is neither white space nor one that the tokenizer splits on.
pub open spec fn plain_char(ch: char) -> bool {
    !is_space_spec(ch) && ch != '/' && ch != '=' && ch != ';' && ch != '@' && ch != '('
}

/// Every character of `s` is plain.
pub open spec fn plain(s: Seq<char>) -> bool {
    forall|k: int| 0 <= k < s.len() ==> plain_char(#[trigger] s[k])
}

proof fn lemma_comp_names_invert(c: i16)
    requires
        comp_name(c) is Some,
    ensures
        0 <= c < 128,
        comp_code(comp_name(c)->0) == Some(c),
        plain(comp_name(c)->0),
        comp_name(c)->0.len() > 0,
{
    reveal_strlit("0");
    reveal_strlit("1");
    reveal_strlit("-1");
    reveal_strlit("D");
    reveal_strlit("A");
    reveal_strlit("M");
    reveal_strlit("!D");
    reveal_strlit("!A");
    reveal_strlit("!M");
    reveal_strlit("-D");
    reveal_strlit("-A");
    reveal_strlit("-M");
    reveal_strlit("D+1");
    reveal_strlit("A+1");
    reveal_strlit("M+1");
    reveal_strlit("D-1");
    reveal_strlit("A-1");
    reveal_strlit("M-1");
    reveal_strlit("D+A");
    reveal_strlit("D+M");
    reveal_strlit("D-A");
    reveal_strlit("D-M");
    reveal_strlit("A-D");
    reveal_strlit("M-D");
    reveal_strlit("D&A");
    reveal_strlit("D&M");
    reveal_strlit("D|A");
    reveal_strlit("D|M");
}

proof fn lemma_dest_names_invert(d: i16)
    requires
        0 < d < 8,
    ensures
        dest_code(dest_name(d)) == Some(d),
        plain(dest_name(d)),
        dest_name(d).len() > 0,
{
    reveal_strlit("M");
    reveal_strlit("D");
    reveal_strlit("MD");
    reveal_strlit("A");
    reveal_strlit("AM");
    reveal_strlit("AD");
    reveal_strlit("AMD");
}

proof fn lemma_jump_names_invert(j: i16)
    requires
        0 < j < 8,
    ensures
        jump_code(jump_name(j)) == Some(j),
        plain(jump_name(j)),
        jump_name(j).len() > 0,
{
    reveal_strlit("JGT");
    reveal_strlit("JEQ");
    reveal_strlit("JGE");
    reveal_strlit("JLT");
    reveal_strlit("JNE");
    reveal_strlit("JLE");
    reveal_strlit("JMP");
}


proof fn lemma_find_at(l: Seq<char>, c: char, i: int, p: int)
    requires
        0 <= i <= p <= l.len(),
        forall|k: int| i <= k < p ==> l[k] != c,
        p < l.len() ==> l[p] == c,
    ensures
        find_from(l, c, i) == p,
    decreases p - i,
{
    if i < p {
        lemma_find_at(l, c, i + 1, p);
    }
}

proof fn lemma_digits(v: nat)
    ensures
        digits_of(v).len() > 0,
        all_digits(digits_of(v)),
        digits_value(digits_of(v)) == v,
    decreases v,
{
    let k = (v % 10) as int;
    assert(digit_value(digit_char(k)) == k && '0' <= digit_char(k) && digit_char(k) <= '9');
    if v >= 10 {
        lemma_digits(v / 10);
        assert(digits_of(v).drop_last() =~= digits_of(v / 10));
        assert(v == (v / 10) * 10 + v % 10);
        assert(digits_of(v).last() == digit_char(k));
    } else {
        assert(digits_of(v).drop_last() =~= Seq::<char>::empty());
        assert(digits_of(v).last() == digit_char(k));
        assert(digits_value(Seq::<char>::empty()) == 0);
    }
}

/// For `0 <= n < 2^15`, the line `@n` assembles to the single word `n`, which
/// disassembles to `@n` again.
pub proof fn lemma_a_round_trip(n: i16)
    requires
        0 <= n,
    ensures
        assemble_spec(seq!["@"@ + decimal_of(n)]) == Ok::<Seq<i16>, AsmFault>(seq![n]),
        asm_text(n) == "@"@ + decimal_of(n),
{
    reveal_strlit("@");
    let digits = digits_of(n as nat);
    lemma_digits(n as nat);
    let m = "@"@ + digits;
    assert(decimal_of(n) == digits);
    assert(m[0] == '@');
    assert(forall|k: int| 1 <= k < m.len() ==> m[k] == digits[k - 1]);
    lemma_find_at(m, '/', 0, m.len() as int);
    assert(skip_spaces(m, 0) == 0);
    assert(back_spaces(m, 0, m.len() as int) == m.len());
    assert(m.subrange(0, m.len() as int) =~= m);
    assert(clean_line(m) == m);
    assert(m.skip(1) =~= digits);
    assert(decimal_word(digits) == Some(n));
    let cmd = CommandModel::A { address: digits, line: 1 };
    assert(parse_statement(m, 1) == Some(cmd));
    let lines = seq![m];
    assert(lines.drop_last() =~= Seq::<Seq<char>>::empty());
    assert(tokens(lines.drop_last()) == Seq::<CommandModel>::empty());
    assert(tokens(lines) =~= seq![cmd]);
    let cmds = seq![cmd];
    assert(cmds.skip(1) =~= Seq::<CommandModel>::empty());
    assert(bind_labels(cmds.skip(1), predefined(), 1) == predefined());
    assert(bind_labels(cmds, predefined(), 0) == predefined());
    assert(Seq::<i16>::empty().push(n) =~= seq![n]);
    assert(emit(cmds.skip(1), predefined(), 15, seq![n]) == Ok::<Seq<i16>, AsmFault>(seq![n]));
    assert(emit(cmds, predefined(), 15, Seq::empty()) == Ok::<Seq<i16>, AsmFault>(seq![n]));
    assert(!bit_of(n, 15)) by (bit_vector)
        requires
            0 <= n,
    ;
}


/// The line `dn=name;jn`, where `dn=` stands only if `has_dest` and `;jn` only if `has_jump`.
pub open spec fn fields_line(dn: Seq<char>, name: Seq<char>, jn: Seq<char>, has_dest: bool, has_jump: bool)
    -> Seq<char>
{
    let dp = if has_dest { dn + "="@ } else { Seq::empty() };
    let jp = if has_jump { ";"@ + jn } else { Seq::empty() };
    dp + name + jp
}

/// A line made of plain fields is one C-statement holding exactly those fields.
proof fn lemma_fields_line_tokens(dn: Seq<char>, name: Seq<char>, jn: Seq<char>, has_dest: bool, has_jump: bool)
    requires
        plain(dn),
        plain(name),
        plain(jn),
        name.len() > 0,
        has_dest ==> dn.len() > 0,
        has_jump ==> jn.len() > 0,
    ensures
        tokens(seq![fields_line(dn, name, jn, has_dest, has_jump)]) == seq![
            CommandModel::C {
                dest: if has_dest { Some(dn) } else { None },
                comp: name,
                jump: if has_jump { Some(jn) } else { None },
                line: 1,
            },
        ],
{
    reveal_strlit("=");
    reveal_strlit(";");
    let dp = if has_dest { dn + "="@ } else { Seq::<char>::empty() };
    let jp = if has_jump { ";"@ + jn } else { Seq::<char>::empty() };
    let m = fields_line(dn, name, jn, has_dest, has_jump);
    assert(m == dp + name + jp);
    let e = dp.len() as int;
    let s = e + name.len();
    assert(forall|k: int|
        0 <= k < m.len() && (has_dest ==> k != dn.len()) && (has_jump ==> k != s) ==> plain_char(
            #[trigger] m[k],
        )) by {
        assert forall|k: int|
            0 <= k < m.len() && (has_dest ==> k != dn.len()) && (has_jump ==> k != s) implies plain_char(
            #[trigger] m[k],
        ) by {
            if k < e {
                assert(has_dest && k < dn.len());
                assert(m[k] == dn[k]);
            } else if k < s {
                assert(m[k] == name[k - e]);
            } else {
                assert(has_jump);
                assert(m[k] == jn[k - s - 1]);
            }
        }
    }
    assert(has_dest ==> m[dn.len() as int] == '=');
    assert(has_jump ==> m[s] == ';');
    assert(name[0] == m[e]);
    assert(m.len() > 0 && plain_char(m[0]));
    assert(plain_char(m[m.len() - 1]));
    lemma_find_at(m, '/', 0, m.len() as int);
    assert(skip_spaces(m, 0) == 0);
    assert(back_spaces(m, 0, m.len() as int) == m.len());
    assert(m.subrange(0, m.len() as int) =~= m);
    assert(clean_line(m) == m);
    let eq = if has_dest { dn.len() as int } else { m.len() as int };
    let sc = if has_jump { s } else { m.len() as int };
    lemma_find_at(m, '=', 0, eq);
    lemma_find_at(m, ';', 0, sc);
    assert(m.subrange(e, s) =~= name);
    if has_dest {
        assert(m.take(eq) =~= dn);
    }
    if has_jump {
        assert(m.skip(sc + 1) =~= jn);
    }
    let cmd = CommandModel::C {
        dest: if has_dest { Some(dn) } else { None },
        comp: name,
        jump: if has_jump { Some(jn) } else { None },
        line: 1,
    };
    assert(parse_statement(m, 1) == Some(cmd));
    let lines = seq![m];
    assert(lines.drop_last() =~= Seq::<Seq<char>>::empty());
    assert(tokens(lines.drop_last()) == Seq::<CommandModel>::empty());
    assert(tokens(lines) =~= seq![cmd]);
}

/// A line `dest=comp;jump` of canonical mnemonics (`dest=` and `;jump` each optional)
/// assembles to the single word `c_word(c, d, j)`, which disassembles to the same line.
pub proof fn lemma_c_line_round_trip(c: i16, d: i16, j: i16)
    requires
        comp_name(c) is Some,
        0 <= d < 8,
        0 <= j < 8,
    ensures
        assemble_spec(seq![c_text(d, comp_name(c)->0, j)]) == Ok::<Seq<i16>, AsmFault>(
            seq![c_word(c, d, j)],
        ),
        asm_text(c_word(c, d, j)) == c_text(d, comp_name(c)->0, j),
{
    lemma_c_round_trip(c, d, j);
    let name = comp_name(c)->0;
    let dn = if d != 0 { dest_name(d) } else { Seq::<char>::empty() };
    let jn = if j != 0 { jump_name(j) } else { Seq::<char>::empty() };
    if d != 0 {
        lemma_dest_names_invert(d);
    }
    if j != 0 {
        lemma_jump_names_invert(j);
    }
    lemma_fields_line_tokens(dn, name, jn, d != 0, j != 0);
    assert(fields_line(dn, name, jn, d != 0, j != 0) == c_text(d, name, j));
    let dest = if d != 0 { Some(dn) } else { None::<Seq<char>> };
    let jump = if j != 0 { Some(jn) } else { None::<Seq<char>> };
    let cmd = CommandModel::C { dest, comp: name, jump, line: 1 };
    let cmds = seq![cmd];
    assert(cmds.skip(1) =~= Seq::<CommandModel>::empty());
    assert(bind_labels(cmds.skip(1), predefined(), 1) == predefined());
    assert(bind_labels(cmds, predefined(), 0) == predefined());
    assert(assemble_c(dest, name, jump, 1) == Ok::<i16, AsmFault>(c_word(c, d, j)));
    let w = c_word(c, d, j);
    assert(Seq::<i16>::empty().push(w) =~= seq![w]);
    assert(emit(cmds.skip(1), predefined(), 15, seq![w]) == Ok::<Seq<i16>, AsmFault>(seq![w]));
}


proof fn lemma_lookup_push(t: Bindings, entry: (Seq<char>, usize), name: Seq<char>)
    requires
        entry.0 != name,
    ensures
        lookup(t.push(entry), name) == lookup(t, name),
{
    assert(t.push(entry).drop_last() =~= t);
}

proof fn lemma_bind_labels_keeps(cmds: Seq<CommandModel>, t: Bindings, count: int, name: Seq<char>)
    requires
        lookup(t, name) is Some,
    ensures
        lookup(bind_labels(cmds, t, count), name) == lookup(t, name),
    decreases cmds.len(),
{
    if cmds.len() > 0 {
        match cmds[0] {
            CommandModel::L { label, .. } => {
                let t2 = bind(t, label, count as usize);
                if lookup(t, label) is None {
                    lemma_lookup_push(t, (label, count as usize), name);
                }
                lemma_bind_labels_keeps(cmds.skip(1), t2, count, name);
            },
            _ => {
                lemma_bind_labels_keeps(cmds.skip(1), t, count + 1, name);
            },
        }
    }
}

proof fn lemma_emit_table_extends(cmds: Seq<CommandModel>, t: Bindings, cursor: int, name: Seq<char>)
    requires
        0 <= cursor,
        cursor + cmds.len() < usize::MAX,
    ensures
        ({
            let r = emit_table(cmds, t, cursor);
            &&& r.len() >= t.len()
            &&& r.take(t.len() as int) == t
            &&& forall|i: int| t.len() <= i < r.len() ==> r[i].1 == cursor + 1 + (i - t.len())
            &&& lookup(t, name) is Some ==> lookup(r, name) == lookup(t, name)
        }),
    decreases cmds.len(),
{
    let r = emit_table(cmds, t, cursor);
    if cmds.len() == 0 {
        assert(t.take(t.len() as int) =~= t);
    } else {
        let rest = cmds.skip(1);
        match cmds[0] {
            CommandModel::A { address, .. } => {
                if decimal_word(address) is None && lookup(t, address) is None {
                    let entry = (address, (cursor + 1) as usize);
                    let t2 = t.push(entry);
                    lemma_emit_table_extends(rest, t2, cursor + 1, name);
                    assert(r == emit_table(rest, t2, cursor + 1));
                    assert(r.take(t.len() as int) =~= r.take(t2.len() as int).take(t.len() as int));
                    assert(t2.take(t.len() as int) =~= t);
                    assert(r[t.len() as int] == t2[t.len() as int]);
                    if lookup(t, name) is Some {
                        lemma_lookup_push(t, entry, name);
                    }
                } else {
                    lemma_emit_table_extends(rest, t, cursor, name);
                }
            },
            _ => {
                lemma_emit_table_extends(rest, t, cursor, name);
            },
        }
    }
}

/// Assembly never rebinds a name that the symbol table held before, and the second
/// pass only appends variables, bound to 16, 17, ... in order of first use.
pub proof fn lemma_symbol_table_grows(cmds: Seq<CommandModel>, t: Bindings, name: Seq<char>)
    requires
        cmds.len() < usize::MAX - 16,
    ensures
        ({
            let labelled = bind_labels(cmds, t, 0);
            let last = emit_table(cmds, labelled, 15);
            &&& lookup(t, name) is Some ==> lookup(labelled, name) == lookup(t, name)
            &&& lookup(t, name) is Some ==> lookup(last, name) == lookup(t, name)
            &&& lookup(labelled, name) is Some ==> lookup(last, name) == lookup(labelled, name)
            &&& last.take(labelled.len() as int) == labelled
            &&& forall|i: int| labelled.len() <= i < last.len() ==> last[i].1 == 16 + (i - labelled.len())
        }),
{
    if lookup(t, name) is Some {
        lemma_bind_labels_keeps(cmds, t, 0, name);
    }
    lemma_emit_table_extends(cmds, bind_labels(cmds, t, 0), 15, name);
}


/// A one-line source `dest=comp;jump` whose fields hold no white space and none of the
/// characters `/ = ; @ (` assembles exactly as its fields decide: one word if the comp
/// (directly, or swapped for a three-character mnemonic whose operator is not `-`), the
/// dest and the jump are all known, else the error for the first field that is not,
/// citing line 1.
pub proof fn lemma_c_line_rule(dn: Seq<char>, comp: Seq<char>, jn: Seq<char>, has_dest: bool, has_jump: bool)
    requires
        plain(dn),
        plain(comp),
        plain(jn),
        comp.len() > 0,
        has_dest ==> dn.len() > 0,
        has_jump ==> jn.len() > 0,
    ensures
        ({
            let dest = if has_dest { Some(dn) } else { None };
            let jump = if has_jump { Some(jn) } else { None };
            assemble_spec(seq![fields_line(dn, comp, jn, has_dest, has_jump)]) == match assemble_c(
                dest,
                comp,
                jump,
                1,
            ) {
                Ok(w) => Ok::<Seq<i16>, AsmFault>(seq![w]),
                Err(e) => Err(e),
            }
        }),
{
    lemma_fields_line_tokens(dn, comp, jn, has_dest, has_jump);
    let dest = if has_dest { Some(dn) } else { None::<Seq<char>> };
    let jump = if has_jump { Some(jn) } else { None::<Seq<char>> };
    let cmd = CommandModel::C { dest, comp, jump, line: 1 };
    let cmds = seq![cmd];
    assert(cmds.skip(1) =~= Seq::<CommandModel>::empty());
    assert(bind_labels(cmds.skip(1), predefined(), 1) == predefined());
    assert(bind_labels(cmds, predefined(), 0) == predefined());
    match assemble_c(dest, comp, jump, 1) {
        Ok(w) => {
            assert(Seq::<i16>::empty().push(w) =~= seq![w]);
            assert(emit(cmds.skip(1), predefined(), 15, seq![w]) == Ok::<Seq<i16>, AsmFault>(seq![w]));
        },
        Err(e) => {},
    }
}

} // verus!

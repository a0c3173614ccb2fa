use vstd::prelude::*;
use vstd::string::*;

verus! {

/// The 7-bit computation field (the `a` bit, then `zx nx zy ny f no`) of a comp mnemonic.
pub open spec fn comp_code(m: Seq<char>) -> Option<i16> {
    if m.len() == 1 {
        match m[0] {
            '0' => Some(0b0101010i16),
            '1' => Some(0b0111111i16),
            'D' => Some(0b0001100i16),
            'A' => Some(0b0110000i16),
            'M' => Some(0b1110000i16),
            _ => None,
        }
    } else if m.len() == 2 {
        match (m[0], m[1]) {
            ('-', '1') => Some(0b0111010i16),
            ('!', 'D') => Some(0b0001101i16),
            ('!', 'A') => Some(0b0110001i16),
            ('!', 'M') => Some(0b1110001i16),
            ('-', 'D') => Some(0b0001111i16),
            ('-', 'A') => Some(0b0110011i16),
            ('-', 'M') => Some(0b1110011i16),
            _ => None,
        }
    } else if m.len() == 3 {
        match (m[0], m[1], m[2]) {
            ('D', '+', '1') => Some(0b0011111i16),
            ('A', '+', '1') => Some(0b0110111i16),
            ('M', '+', '1') => Some(0b1110111i16),
            ('D', '-', '1') => Some(0b0001110i16),
            ('A', '-', '1') => Some(0b0110010i16),
            ('M', '-', '1') => Some(0b1110010i16),
            ('D', '+', 'A') => Some(0b0000010i16),
            ('D', '+', 'M') => Some(0b1000010i16),
            ('D', '-', 'A') => Some(0b0010011i16),
            ('D', '-', 'M') => Some(0b1010011i16),
            ('A', '-', 'D') => Some(0b0000111i16),
            ('M', '-', 'D') => Some(0b1000111i16),
            ('D', '&', 'A') => Some(0b0000000i16),
            ('D', '&', 'M') => Some(0b1000000i16),
            ('D', '|', 'A') => Some(0b0010101i16),
            ('D', '|', 'M') => Some(0b1010101i16),
            _ => None,
        }
    } else {
        None
    }
}

/// The 3-bit destination field of a dest mnemonic (bit 2 = A, bit 1 = D, bit 0 = M).
pub open spec fn dest_code(m: Seq<char>) -> Option<i16> {
    if m.len() == 1 {
        match m[0] {
            'M' => Some(0b001i16),
            'D' => Some(0b010i16),
            'A' => Some(0b100i16),
            _ => None,
        }
    } else if m.len() == 2 {
        match (m[0], m[1]) {
            ('M', 'D') => Some(0b011i16),
            ('A', 'M') => Some(0b101i16),
            ('A', 'D') => Some(0b110i16),
            _ => None,
        }
    } else if m.len() == 3 && m[0] == 'A' && m[1] == 'M' && m[2] == 'D' {
        Some(0b111i16)
    } else {
        None
    }
}

/// The 3-bit jump field of a jump mnemonic.
pub open spec fn jump_code(m: Seq<char>) -> Option<i16> {
    if m.len() == 3 && m[0] == 'J' {
        match (m[1], m[2]) {
            ('G', 'T') => Some(0b001i16),
            ('E', 'Q') => Some(0b010i16),
            ('G', 'E') => Some(0b011i16),
            ('L', 'T') => Some(0b100i16),
            ('N', 'E') => Some(0b101i16),
            ('L', 'E') => Some(0b110i16),
            ('M', 'P') => Some(0b111i16),
            _ => None,
        }
    } else {
        None
    }
}

/// The comp mnemonic of a 7-bit computation field, where there is one.
pub open spec fn comp_name(c: i16) -> Option<Seq<char>> {
    match c {
        0b0101010i16 => Some("0"@),
        0b0111111i16 => Some("1"@),
        0b0111010i16 => Some("-1"@),
        0b0001100i16 => Some("D"@),
        0b0110000i16 => Some("A"@),
        0b1110000i16 => Some("M"@),
        0b0001101i16 => Some("!D"@),
        0b0110001i16 => Some("!A"@),
        0b1110001i16 => Some("!M"@),
        0b0001111i16 => Some("-D"@),
        0b0110011i16 => Some("-A"@),
        0b1110011i16 => Some("-M"@),
        0b0011111i16 => Some("D+1"@),
        0b0110111i16 => Some("A+1"@),
        0b1110111i16 => Some("M+1"@),
        0b0001110i16 => Some("D-1"@),
        0b0110010i16 => Some("A-1"@),
        0b1110010i16 => Some("M-1"@),
        0b0000010i16 => Some("D+A"@),
        0b1000010i16 => Some("D+M"@),
        0b0010011i16 => Some("D-A"@),
        0b1010011i16 => Some("D-M"@),
        0b0000111i16 => Some("A-D"@),
        0b1000111i16 => Some("M-D"@),
        0b0000000i16 => Some("D&A"@),
        0b1000000i16 => Some("D&M"@),
        0b0010101i16 => Some("D|A"@),
        0b1010101i16 => Some("D|M"@),
        _ => None,
    }
}

/// The dest mnemonic of a 3-bit destination field; empty for none.
pub open spec fn dest_name(d: i16) -> Seq<char> {
    match d {
        1i16 => "M"@,
        2i16 => "D"@,
        3i16 => "MD"@,
        4i16 => "A"@,
        5i16 => "AM"@,
        6i16 => "AD"@,
        7i16 => "AMD"@,
        _ => ""@,
    }
}

/// The jump mnemonic of a 3-bit jump field; empty for none.
pub open spec fn jump_name(j: i16) -> Seq<char> {
    match j {
        1i16 => "JGT"@,
        2i16 => "JEQ"@,
        3i16 => "JGE"@,
        4i16 => "JLT"@,
        5i16 => "JNE"@,
        6i16 => "JLE"@,
        7i16 => "JMP"@,
        _ => ""@,
    }
}

/// Looks up a comp mnemonic.
pub fn comp_bits(m: &str) -> (r: Option<i16>)
    ensures
        r == comp_code(m@),
{
    let n = m.unicode_len();
    if n == 1 {
        match m.get_char(0) {
            '0' => Some(0b0101010),
            '1' => Some(0b0111111),
            'D' => Some(0b0001100),
            'A' => Some(0b0110000),
            'M' => Some(0b1110000),
            _ => None,
        }
    } else if n == 2 {
        match (m.get_char(0), m.get_char(1)) {
            ('-', '1') => Some(0b0111010),
            ('!', 'D') => Some(0b0001101),
            ('!', 'A') => Some(0b0110001),
            ('!', 'M') => Some(0b1110001),
            ('-', 'D') => Some(0b0001111),
            ('-', 'A') => Some(0b0110011),
            ('-', 'M') => Some(0b1110011),
            _ => None,
        }
    } else if n == 3 {
        match (m.get_char(0), m.get_char(1), m.get_char(2)) {
            ('D', '+', '1') => Some(0b0011111),
            ('A', '+', '1') => Some(0b0110111),
            ('M', '+', '1') => Some(0b1110111),
            ('D', '-', '1') => Some(0b0001110),
            ('A', '-', '1') => Some(0b0110010),
            ('M', '-', '1') => Some(0b1110010),
            ('D', '+', 'A') => Some(0b0000010),
            ('D', '+', 'M') => Some(0b1000010),
            ('D', '-', 'A') => Some(0b0010011),
            ('D', '-', 'M') => Some(0b1010011),
            ('A', '-', 'D') => Some(0b0000111),
            ('M', '-', 'D') => Some(0b1000111),
            ('D', '&', 'A') => Some(0b0000000),
            ('D', '&', 'M') => Some(0b1000000),
            ('D', '|', 'A') => Some(0b0010101),
            ('D', '|', 'M') => Some(0b1010101),
            _ => None,
        }
    } else {
        None
    }
}

/// Looks up a dest mnemonic.
pub fn dest_bits(m: &str) -> (r: Option<i16>)
    ensures
        r == dest_code(m@),
{
    let n = m.unicode_len();
    if n == 1 {
        match m.get_char(0) {
            'M' => Some(0b001),
            'D' => Some(0b010),
            'A' => Some(0b100),
            _ => None,
        }
    } else if n == 2 {
        match (m.get_char(0), m.get_char(1)) {
            ('M', 'D') => Some(0b011),
            ('A', 'M') => Some(0b101),
            ('A', 'D') => Some(0b110),
            _ => None,
        }
    } else if n == 3 && m.get_char(0) == 'A' && m.get_char(1) == 'M' && m.get_char(2) == 'D' {
        Some(0b111)
    } else {
        None
    }
}

/// Looks up a jump mnemonic.
pub fn jump_bits(m: &str) -> (r: Option<i16>)
    ensures
        r == jump_code(m@),
{
    if m.unicode_len() == 3 && m.get_char(0) == 'J' {
        match (m.get_char(1), m.get_char(2)) {
            ('G', 'T') => Some(0b001),
            ('E', 'Q') => Some(0b010),
            ('G', 'E') => Some(0b011),
            ('L', 'T') => Some(0b100),
            ('N', 'E') => Some(0b101),
            ('L', 'E') => Some(0b110),
            ('M', 'P') => Some(0b111),
            _ => None,
        }
    } else {
        None
    }
}

/// The comp mnemonic of a computation field, as text.
pub fn comp_text(c: i16) -> (r: Option<String>)
    ensures
        r matches Some(s) ==> comp_name(c) == Some(s@),
        r is None ==> comp_name(c) is None,
{
    let s = match c {
        0b0101010 => "0",
        0b0111111 => "1",
        0b0111010 => "-1",
        0b0001100 => "D",
        0b0110000 => "A",
        0b1110000 => "M",
        0b0001101 => "!D",
        0b0110001 => "!A",
        0b1110001 => "!M",
        0b0001111 => "-D",
        0b0110011 => "-A",
        0b1110011 => "-M",
        0b0011111 => "D+1",
        0b0110111 => "A+1",
        0b1110111 => "M+1",
        0b0001110 => "D-1",
        0b0110010 => "A-1",
        0b1110010 => "M-1",
        0b0000010 => "D+A",
        0b1000010 => "D+M",
        0b0010011 => "D-A",
        0b1010011 => "D-M",
        0b0000111 => "A-D",
        0b1000111 => "M-D",
        0b0000000 => "D&A",
        0b1000000 => "D&M",
        0b0010101 => "D|A",
        0b1010101 => "D|M",
        _ => {
            return None;
        },
    };
    Some(String::from_str(s))
}

/// The dest mnemonic of a destination field, as text (empty for none).
pub fn dest_text(d: i16) -> (r: &'static str)
    ensures
        r@ == dest_name(d),
{
    match d {
        1 => "M",
        2 => "D",
        3 => "MD",
        4 => "A",
        5 => "AM",
        6 => "AD",
        7 => "AMD",
        _ => "",
    }
}

/// The jump mnemonic of a jump field, as text (empty for none).
pub fn jump_text(j: i16) -> (r: &'static str)
    ensures
        r@ == jump_name(j),
{
    match j {
        1 => "JGT",
        2 => "JEQ",
        3 => "JGE",
        4 => "JLT",
        5 => "JNE",
        6 => "JLE",
        7 => "JMP",
        _ => "",
    }
}

} // verus!

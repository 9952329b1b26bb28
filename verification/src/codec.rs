//! Bidirectional codec between the legacy numeric video identifier and the
//! canonical 12-character alphanumeric identifier.
//!
//! `encode` sets bit 51 of the numeric value, XORs it with a fixed mixing
//! constant, writes the result as 9 base-58 digits (custom alphabet) into a
//! fixed template `BV1?????????`, least-significant digit last in value order
//! but scattered over the payload positions by a fixed permutation, and
//! `decode` reverses every step.  The transform is a bijection on `[0, 2^51)`.

use vstd::prelude::*;
use vstd::arithmetic::div_mod::{lemma_div_denominator, lemma_fundamental_div_mod, lemma_basic_div, lemma_div_basics};

verus! {

#[derive(Clone, Copy, Debug, PartialEq, Eq, Structural)]
pub enum CodecError {
    /// The numeric identifier does not fit in 51 bits (encode), or the
    /// accumulated payload of a canonical identifier is outside the mixed
    /// 52-bit range (decode).
    OutOfRange,
    /// The canonical identifier is not 12 characters of the expected shape.
    MalformedId,
}

/// Fixed 51-bit mixing constant.
pub const XOR_CODE: u64 = 23442827791579;
/// Low 51 bits.
pub const MASK_CODE: u64 = 2251799813685247;
/// 2^51: one past the largest encodable numeric identifier.
pub const MAX_AID: u64 = 2251799813685248;

pub open spec fn pow58(k: nat) -> nat
    decreases k,
{
    if k == 0 {
        1
    } else {
        58 * pow58((k - 1) as nat)
    }
}

/// The bit-mixing step: set bit 51, then XOR with the mixing constant.
pub open spec fn mixed(n: u64) -> u64 {
    (n | MAX_AID) ^ XOR_CODE
}

/// Base-58 digit `i` (least significant is digit 0) of `x`.
pub open spec fn digit_at(x: int, i: nat) -> int {
    (x / (pow58(i) as int)) % 58
}

/// The base-58 alphabet, as a map from digit value to character.
pub open spec fn char_of_digit(d: int) -> char {
    if d == 0 { 'F' } else if d == 1 { 'c' } else if d == 2 { 'w' } else if d == 3 { 'A' }
    else if d == 4 { 'P' } else if d == 5 { 'N' } else if d == 6 { 'K' } else if d == 7 { 'T' }
    else if d == 8 { 'M' } else if d == 9 { 'u' } else if d == 10 { 'g' } else if d == 11 { '3' }
    else if d == 12 { 'G' } else if d == 13 { 'V' } else if d == 14 { '5' } else if d == 15 { 'L' }
    else if d == 16 { 'j' } else if d == 17 { '7' } else if d == 18 { 'E' } else if d == 19 { 'J' }
    else if d == 20 { 'n' } else if d == 21 { 'H' } else if d == 22 { 'p' } else if d == 23 { 'W' }
    else if d == 24 { 's' } else if d == 25 { 'x' } else if d == 26 { '4' } else if d == 27 { 't' }
    else if d == 28 { 'b' } else if d == 29 { '8' } else if d == 30 { 'h' } else if d == 31 { 'a' }
    else if d == 32 { 'Y' } else if d == 33 { 'e' } else if d == 34 { 'v' } else if d == 35 { 'i' }
    else if d == 36 { 'q' } else if d == 37 { 'B' } else if d == 38 { 'z' } else if d == 39 { '6' }
    else if d == 40 { 'r' } else if d == 41 { 'k' } else if d == 42 { 'C' } else if d == 43 { 'y' }
    else if d == 44 { '1' } else if d == 45 { '2' } else if d == 46 { 'm' } else if d == 47 { 'U' }
    else if d == 48 { 'S' } else if d == 49 { 'D' } else if d == 50 { 'Q' } else if d == 51 { 'X' }
    else if d == 52 { '9' } else if d == 53 { 'R' } else if d == 54 { 'd' } else if d == 55 { 'o' }
    else if d == 56 { 'Z' } else { 'f' }
}

/// Inverse of the alphabet: the digit value of a character, or -1 if the
/// character is not in the alphabet.
pub open spec fn digit_of_char(c: char) -> int {
    if c == 'F' { 0 } else if c == 'c' { 1 } else if c == 'w' { 2 } else if c == 'A' { 3 }
    else if c == 'P' { 4 } else if c == 'N' { 5 } else if c == 'K' { 6 } else if c == 'T' { 7 }
    else if c == 'M' { 8 } else if c == 'u' { 9 } else if c == 'g' { 10 } else if c == '3' { 11 }
    else if c == 'G' { 12 } else if c == 'V' { 13 } else if c == '5' { 14 } else if c == 'L' { 15 }
    else if c == 'j' { 16 } else if c == '7' { 17 } else if c == 'E' { 18 } else if c == 'J' { 19 }
    else if c == 'n' { 20 } else if c == 'H' { 21 } else if c == 'p' { 22 } else if c == 'W' { 23 }
    else if c == 's' { 24 } else if c == 'x' { 25 } else if c == '4' { 26 } else if c == 't' { 27 }
    else if c == 'b' { 28 } else if c == '8' { 29 } else if c == 'h' { 30 } else if c == 'a' { 31 }
    else if c == 'Y' { 32 } else if c == 'e' { 33 } else if c == 'v' { 34 } else if c == 'i' { 35 }
    else if c == 'q' { 36 } else if c == 'B' { 37 } else if c == 'z' { 38 } else if c == '6' { 39 }
    else if c == 'r' { 40 } else if c == 'k' { 41 } else if c == 'C' { 42 } else if c == 'y' { 43 }
    else if c == '1' { 44 } else if c == '2' { 45 } else if c == 'm' { 46 } else if c == 'U' { 47 }
    else if c == 'S' { 48 } else if c == 'D' { 49 } else if c == 'Q' { 50 } else if c == 'X' { 51 }
    else if c == '9' { 52 } else if c == 'R' { 53 } else if c == 'd' { 54 } else if c == 'o' { 55 }
    else if c == 'Z' { 56 } else if c == 'f' { 57 } else { -1 }
}

/// Which base-58 digit of the mixed value sits at payload position `p`
/// (positions 3 to 11 of the 12-character identifier).  This is the fixed
/// scatter permutation: digits written most-significant-first from position 3,
/// then positions 3 and 9 swapped, then positions 4 and 7 swapped.
pub open spec fn bv_digit_index(p: int) -> int {
    if p == 3 { 2 }
    else if p == 4 { 4 }
    else if p == 5 { 6 }
    else if p == 6 { 5 }
    else if p == 7 { 7 }
    else if p == 8 { 3 }
    else if p == 9 { 8 }
    else if p == 10 { 1 }
    else { 0 }
}

/// The position holding digit `8 - k`: the order in which `decode` reads the
/// payload, most significant digit first.
pub open spec fn read_pos(k: int) -> int {
    if k == 0 { 9 }
    else if k == 1 { 7 }
    else if k == 2 { 5 }
    else if k == 3 { 6 }
    else if k == 4 { 4 }
    else if k == 5 { 8 }
    else if k == 6 { 3 }
    else if k == 7 { 10 }
    else { 11 }
}

/// The canonical identifier of numeric identifier `n`: `BV1` followed by the
/// nine scattered base-58 digits of `mixed(n)`.
pub open spec fn bv_chars_of(n: u64) -> Seq<char> {
    seq!['B', 'V', '1'] + Seq::new(9, |j: int| char_of_digit(digit_at(mixed(n) as int, bv_digit_index(3 + j) as nat)))
}

/// The two-letter prefix may vary in case; the leading template digit may not.
pub open spec fn bv_prefix_ok(s: Seq<char>) -> bool {
    &&& s[0] == 'B' || s[0] == 'b'
    &&& s[1] == 'V' || s[1] == 'v'
    &&& s[2] == '1'
}

pub open spec fn bv_payload_ok(s: Seq<char>) -> bool {
    forall|p: int| 3 <= p < 12 ==> digit_of_char(s[p]) >= 0
}

/// The mixed value read back from the payload: positions visited in
/// `read_pos` order, most significant digit first.
pub open spec fn bv_acc(s: Seq<char>, k: int) -> int
    decreases k,
{
    if k <= 0 {
        0
    } else {
        58 * bv_acc(s, k - 1) + digit_of_char(s[read_pos(k - 1)])
    }
}

/// What `decode` returns on any input string.
pub open spec fn decode_spec(s: Seq<char>) -> Result<u64, CodecError> {
    if s.len() != 12 {
        Err(CodecError::MalformedId)
    } else if !bv_prefix_ok(s) {
        Err(CodecError::MalformedId)
    } else if !bv_payload_ok(s) {
        Err(CodecError::MalformedId)
    } else if !(2251799813685248 <= bv_acc(s, 9) < 4503599627370496) {
        Err(CodecError::OutOfRange)
    } else {
        Ok((((bv_acc(s, 9) as u64) & MASK_CODE) ^ XOR_CODE))
    }
}

proof fn lemma_pow58_values()
    ensures
        pow58(0) == 1,
        pow58(1) == 58,
        pow58(2) == 3364,
        pow58(3) == 195112,
        pow58(4) == 11316496,
        pow58(5) == 656356768,
        pow58(6) == 38068692544,
        pow58(7) == 2207984167552,
        pow58(8) == 128063081718016,
        pow58(9) == 7427658739644928,
{
    assert(pow58(0) == 1);
    assert(pow58(1) == 58);
    assert(pow58(2) == 3364);
    assert(pow58(3) == 195112);
    assert(pow58(4) == 11316496);
    assert(pow58(5) == 656356768);
    assert(pow58(6) == 38068692544);
    assert(pow58(7) == 2207984167552);
    assert(pow58(8) == 128063081718016);
    assert(pow58(9) == 7427658739644928);
}

proof fn lemma_digit_roundtrip(d: int)
    requires
        0 <= d < 58,
    ensures
        digit_of_char(char_of_digit(d)) == d,
{
}

/// Appends the alphabet character of digit `d` to `s`.
fn push_digit(s: &mut String, d: u8)
    requires
        d < 58,
    ensures
        final(s)@ == old(s)@.push(char_of_digit(d as int)),
{
    if d == 0 {
        proof { reveal_strlit("F"); assert(old(s)@ + "F"@ =~= old(s)@.push('F')); }
        s.append("F");
    } else if d == 1 {
        proof { reveal_strlit("c"); assert(old(s)@ + "c"@ =~= old(s)@.push('c')); }
        s.append("c");
    } else if d == 2 {
        proof { reveal_strlit("w"); assert(old(s)@ + "w"@ =~= old(s)@.push('w')); }
        s.append("w");
    } else if d == 3 {
        proof { reveal_strlit("A"); assert(old(s)@ + "A"@ =~= old(s)@.push('A')); }
        s.append("A");
    } else if d == 4 {
        proof { reveal_strlit("P"); assert(old(s)@ + "P"@ =~= old(s)@.push('P')); }
        s.append("P");
    } else if d == 5 {
        proof { reveal_strlit("N"); assert(old(s)@ + "N"@ =~= old(s)@.push('N')); }
        s.append("N");
    } else if d == 6 {
        proof { reveal_strlit("K"); assert(old(s)@ + "K"@ =~= old(s)@.push('K')); }
        s.append("K");
    } else if d == 7 {
        proof { reveal_strlit("T"); assert(old(s)@ + "T"@ =~= old(s)@.push('T')); }
        s.append("T");
    } else if d == 8 {
        proof { reveal_strlit("M"); assert(old(s)@ + "M"@ =~= old(s)@.push('M')); }
        s.append("M");
    } else if d == 9 {
        proof { reveal_strlit("u"); assert(old(s)@ + "u"@ =~= old(s)@.push('u')); }
        s.append("u");
    } else if d == 10 {
        proof { reveal_strlit("g"); assert(old(s)@ + "g"@ =~= old(s)@.push('g')); }
        s.append("g");
    } else if d == 11 {
        proof { reveal_strlit("3"); assert(old(s)@ + "3"@ =~= old(s)@.push('3')); }
        s.append("3");
    } else if d == 12 {
        proof { reveal_strlit("G"); assert(old(s)@ + "G"@ =~= old(s)@.push('G')); }
        s.append("G");
    } else if d == 13 {
        proof { reveal_strlit("V"); assert(old(s)@ + "V"@ =~= old(s)@.push('V')); }
        s.append("V");
    } else if d == 14 {
        proof { reveal_strlit("5"); assert(old(s)@ + "5"@ =~= old(s)@.push('5')); }
        s.append("5");
    } else if d == 15 {
        proof { reveal_strlit("L"); assert(old(s)@ + "L"@ =~= old(s)@.push('L')); }
        s.append("L");
    } else if d == 16 {
        proof { reveal_strlit("j"); assert(old(s)@ + "j"@ =~= old(s)@.push('j')); }
        s.append("j");
    } else if d == 17 {
        proof { reveal_strlit("7"); assert(old(s)@ + "7"@ =~= old(s)@.push('7')); }
        s.append("7");
    } else if d == 18 {
        proof { reveal_strlit("E"); assert(old(s)@ + "E"@ =~= old(s)@.push('E')); }
        s.append("E");
    } else if d == 19 {
        proof { reveal_strlit("J"); assert(old(s)@ + "J"@ =~= old(s)@.push('J')); }
        s.append("J");
    } else if d == 20 {
        proof { reveal_strlit("n"); assert(old(s)@ + "n"@ =~= old(s)@.push('n')); }
        s.append("n");
    } else if d == 21 {
        proof { reveal_strlit("H"); assert(old(s)@ + "H"@ =~= old(s)@.push('H')); }
        s.append("H");
    } else if d == 22 {
        proof { reveal_strlit("p"); assert(old(s)@ + "p"@ =~= old(s)@.push('p')); }
        s.append("p");
    } else if d == 23 {
        proof { reveal_strlit("W"); assert(old(s)@ + "W"@ =~= old(s)@.push('W')); }
        s.append("W");
    } else if d == 24 {
        proof { reveal_strlit("s"); assert(old(s)@ + "s"@ =~= old(s)@.push('s')); }
        s.append("s");
    } else if d == 25 {
        proof { reveal_strlit("x"); assert(old(s)@ + "x"@ =~= old(s)@.push('x')); }
        s.append("x");
    } else if d == 26 {
        proof { reveal_strlit("4"); assert(old(s)@ + "4"@ =~= old(s)@.push('4')); }
        s.append("4");
    } else if d == 27 {
        proof { reveal_strlit("t"); assert(old(s)@ + "t"@ =~= old(s)@.push('t')); }
        s.append("t");
    } else if d == 28 {
        proof { reveal_strlit("b"); assert(old(s)@ + "b"@ =~= old(s)@.push('b')); }
        s.append("b");
    } else if d == 29 {
        proof { reveal_strlit("8"); assert(old(s)@ + "8"@ =~= old(s)@.push('8')); }
        s.append("8");
    } else if d == 30 {
        proof { reveal_strlit("h"); assert(old(s)@ + "h"@ =~= old(s)@.push('h')); }
        s.append("h");
    } else if d == 31 {
        proof { reveal_strlit("a"); assert(old(s)@ + "a"@ =~= old(s)@.push('a')); }
        s.append("a");
    } else if d == 32 {
        proof { reveal_strlit("Y"); assert(old(s)@ + "Y"@ =~= old(s)@.push('Y')); }
        s.append("Y");
    } else if d == 33 {
        proof { reveal_strlit("e"); assert(old(s)@ + "e"@ =~= old(s)@.push('e')); }
        s.append("e");
    } else if d == 34 {
        proof { reveal_strlit("v"); assert(old(s)@ + "v"@ =~= old(s)@.push('v')); }
        s.append("v");
    } else if d == 35 {
        proof { reveal_strlit("i"); assert(old(s)@ + "i"@ =~= old(s)@.push('i')); }
        s.append("i");
    } else if d == 36 {
        proof { reveal_strlit("q"); assert(old(s)@ + "q"@ =~= old(s)@.push('q')); }
        s.append("q");
    } else if d == 37 {
        proof { reveal_strlit("B"); assert(old(s)@ + "B"@ =~= old(s)@.push('B')); }
        s.append("B");
    } else if d == 38 {
        proof { reveal_strlit("z"); assert(old(s)@ + "z"@ =~= old(s)@.push('z')); }
        s.append("z");
    } else if d == 39 {
        proof { reveal_strlit("6"); assert(old(s)@ + "6"@ =~= old(s)@.push('6')); }
        s.append("6");
    } else if d == 40 {
        proof { reveal_strlit("r"); assert(old(s)@ + "r"@ =~= old(s)@.push('r')); }
        s.append("r");
    } else if d == 41 {
        proof { reveal_strlit("k"); assert(old(s)@ + "k"@ =~= old(s)@.push('k')); }
        s.append("k");
    } else if d == 42 {
        proof { reveal_strlit("C"); assert(old(s)@ + "C"@ =~= old(s)@.push('C')); }
        s.append("C");
    } else if d == 43 {
        proof { reveal_strlit("y"); assert(old(s)@ + "y"@ =~= old(s)@.push('y')); }
        s.append("y");
    } else if d == 44 {
        proof { reveal_strlit("1"); assert(old(s)@ + "1"@ =~= old(s)@.push('1')); }
        s.append("1");
    } else if d == 45 {
        proof { reveal_strlit("2"); assert(old(s)@ + "2"@ =~= old(s)@.push('2')); }
        s.append("2");
    } else if d == 46 {
        proof { reveal_strlit("m"); assert(old(s)@ + "m"@ =~= old(s)@.push('m')); }
        s.append("m");
    } else if d == 47 {
        proof { reveal_strlit("U"); assert(old(s)@ + "U"@ =~= old(s)@.push('U')); }
        s.append("U");
    } else if d == 48 {
        proof { reveal_strlit("S"); assert(old(s)@ + "S"@ =~= old(s)@.push('S')); }
        s.append("S");
    } else if d == 49 {
        proof { reveal_strlit("D"); assert(old(s)@ + "D"@ =~= old(s)@.push('D')); }
        s.append("D");
    } else if d == 50 {
        proof { reveal_strlit("Q"); assert(old(s)@ + "Q"@ =~= old(s)@.push('Q')); }
        s.append("Q");
    } else if d == 51 {
        proof { reveal_strlit("X"); assert(old(s)@ + "X"@ =~= old(s)@.push('X')); }
        s.append("X");
    } else if d == 52 {
        proof { reveal_strlit("9"); assert(old(s)@ + "9"@ =~= old(s)@.push('9')); }
        s.append("9");
    } else if d == 53 {
        proof { reveal_strlit("R"); assert(old(s)@ + "R"@ =~= old(s)@.push('R')); }
        s.append("R");
    } else if d == 54 {
        proof { reveal_strlit("d"); assert(old(s)@ + "d"@ =~= old(s)@.push('d')); }
        s.append("d");
    } else if d == 55 {
        proof { reveal_strlit("o"); assert(old(s)@ + "o"@ =~= old(s)@.push('o')); }
        s.append("o");
    } else if d == 56 {
        proof { reveal_strlit("Z"); assert(old(s)@ + "Z"@ =~= old(s)@.push('Z')); }
        s.append("Z");
    } else {
        proof { reveal_strlit("f"); assert(old(s)@ + "f"@ =~= old(s)@.push('f')); }
        s.append("f");
    }
}

/// The digit value of a payload character, or `None` when the character is
/// not in the alphabet.
fn digit_of(c: char) -> (r: Option<u8>)
    ensures
        match r {
            Some(d) => d < 58 && digit_of_char(c) == d as int,
            None => digit_of_char(c) == -1,
        },
{
    match c {
        'F' => Some(0),
        'c' => Some(1),
        'w' => Some(2),
        'A' => Some(3),
        'P' => Some(4),
        'N' => Some(5),
        'K' => Some(6),
        'T' => Some(7),
        'M' => Some(8),
        'u' => Some(9),
        'g' => Some(10),
        '3' => Some(11),
        'G' => Some(12),
        'V' => Some(13),
        '5' => Some(14),
        'L' => Some(15),
        'j' => Some(16),
        '7' => Some(17),
        'E' => Some(18),
        'J' => Some(19),
        'n' => Some(20),
        'H' => Some(21),
        'p' => Some(22),
        'W' => Some(23),
        's' => Some(24),
        'x' => Some(25),
        '4' => Some(26),
        't' => Some(27),
        'b' => Some(28),
        '8' => Some(29),
        'h' => Some(30),
        'a' => Some(31),
        'Y' => Some(32),
        'e' => Some(33),
        'v' => Some(34),
        'i' => Some(35),
        'q' => Some(36),
        'B' => Some(37),
        'z' => Some(38),
        '6' => Some(39),
        'r' => Some(40),
        'k' => Some(41),
        'C' => Some(42),
        'y' => Some(43),
        '1' => Some(44),
        '2' => Some(45),
        'm' => Some(46),
        'U' => Some(47),
        'S' => Some(48),
        'D' => Some(49),
        'Q' => Some(50),
        'X' => Some(51),
        '9' => Some(52),
        'R' => Some(53),
        'd' => Some(54),
        'o' => Some(55),
        'Z' => Some(56),
        'f' => Some(57),
        _ => None,
    }
}
/// Bounds of the mixed value: bit 51 is always set and nothing above it.
proof fn lemma_mixed_bounds(n: u64)
    requires
        n < MAX_AID,
    ensures
        2251799813685248 <= mixed(n) < 4503599627370496,
{
    assert(2251799813685248u64 <= ((n | 2251799813685248u64) ^ 23442827791579u64) < 4503599627370496u64) by (bit_vector)
        requires n < 2251799813685248u64;
}

/// Unmixing undoes mixing on the 51-bit domain.
proof fn lemma_unmix(n: u64)
    requires
        n < MAX_AID,
    ensures
        ((mixed(n) & MASK_CODE) ^ XOR_CODE) == n,
{
    assert(((((n | 2251799813685248u64) ^ 23442827791579u64) & 2251799813685247u64) ^ 23442827791579u64) == n) by (bit_vector)
        requires n < 2251799813685248u64;
}

/// Encodes a numeric identifier as its canonical 12-character identifier.
/// Succeeds on exactly the 51-bit domain.
pub fn encode(n: u64) -> (r: Result<String, CodecError>)
    ensures
        n < MAX_AID ==> match r {
            Ok(s) => s@ == bv_chars_of(n),
            Err(_) => false,
        },
        n >= MAX_AID ==> r == Err::<String, CodecError>(CodecError::OutOfRange),
{
    if n >= MAX_AID {
        return Err(CodecError::OutOfRange);
    }
    let m: u64 = (n | MAX_AID) ^ XOR_CODE;
    let d0: u8 = (m % 58) as u8;
    let m1: u64 = m / 58;
    let d1: u8 = (m1 % 58) as u8;
    let m2: u64 = m1 / 58;
    let d2: u8 = (m2 % 58) as u8;
    let m3: u64 = m2 / 58;
    let d3: u8 = (m3 % 58) as u8;
    let m4: u64 = m3 / 58;
    let d4: u8 = (m4 % 58) as u8;
    let m5: u64 = m4 / 58;
    let d5: u8 = (m5 % 58) as u8;
    let m6: u64 = m5 / 58;
    let d6: u8 = (m6 % 58) as u8;
    let m7: u64 = m6 / 58;
    let d7: u8 = (m7 % 58) as u8;
    let m8: u64 = m7 / 58;
    let d8: u8 = (m8 % 58) as u8;
    proof {
        lemma_pow58_values();
        assert(m == mixed(n));
        lemma_div_basics(m as int);
        assert(m1 as int == m as int / pow58(1) as int);
        lemma_div_denominator(m as int, 58, 58);
        assert(m2 as int == m as int / pow58(2) as int);
        lemma_div_denominator(m as int, 3364, 58);
        assert(m3 as int == m as int / pow58(3) as int);
        lemma_div_denominator(m as int, 195112, 58);
        assert(m4 as int == m as int / pow58(4) as int);
        lemma_div_denominator(m as int, 11316496, 58);
        assert(m5 as int == m as int / pow58(5) as int);
        lemma_div_denominator(m as int, 656356768, 58);
        assert(m6 as int == m as int / pow58(6) as int);
        lemma_div_denominator(m as int, 38068692544, 58);
        assert(m7 as int == m as int / pow58(7) as int);
        lemma_div_denominator(m as int, 2207984167552, 58);
        assert(m8 as int == m as int / pow58(8) as int);
        assert(d0 as int == digit_at(m as int, 0));
        assert(d1 as int == digit_at(m as int, 1));
        assert(d2 as int == digit_at(m as int, 2));
        assert(d3 as int == digit_at(m as int, 3));
        assert(d4 as int == digit_at(m as int, 4));
        assert(d5 as int == digit_at(m as int, 5));
        assert(d6 as int == digit_at(m as int, 6));
        assert(d7 as int == digit_at(m as int, 7));
        assert(d8 as int == digit_at(m as int, 8));
    }
    let mut s = String::new();
    s.append("BV1");
    push_digit(&mut s, d2);
    push_digit(&mut s, d4);
    push_digit(&mut s, d6);
    push_digit(&mut s, d5);
    push_digit(&mut s, d7);
    push_digit(&mut s, d3);
    push_digit(&mut s, d8);
    push_digit(&mut s, d1);
    push_digit(&mut s, d0);
    proof {
        reveal_strlit("BV1");
        assert(s@ =~= bv_chars_of(n));
    }
    Ok(s)
}

/// Decodes a canonical 12-character identifier back to its numeric
/// identifier.  Accepts exactly the strings whose shape, alphabet and mixed
/// range are valid, as `decode_spec` states.
pub fn decode(s: &str) -> (r: Result<u64, CodecError>)
    ensures
        r == decode_spec(s@),
{
    let len = s.unicode_len();
    if len != 12 {
        return Err(CodecError::MalformedId);
    }
    let c0 = s.get_char(0);
    let c1 = s.get_char(1);
    let c2 = s.get_char(2);
    if !((c0 == 'B' || c0 == 'b') && (c1 == 'V' || c1 == 'v') && c2 == '1') {
        return Err(CodecError::MalformedId);
    }
    proof {
        lemma_pow58_values();
    }
    let da = match digit_of(s.get_char(9)) {
        Some(d) => d,
        None => {
            return Err(CodecError::MalformedId);
        },
    };
    let db = match digit_of(s.get_char(7)) {
        Some(d) => d,
        None => {
            return Err(CodecError::MalformedId);
        },
    };
    let dc = match digit_of(s.get_char(5)) {
        Some(d) => d,
        None => {
            return Err(CodecError::MalformedId);
        },
    };
    let dd = match digit_of(s.get_char(6)) {
        Some(d) => d,
        None => {
            return Err(CodecError::MalformedId);
        },
    };
    let de = match digit_of(s.get_char(4)) {
        Some(d) => d,
        None => {
            return Err(CodecError::MalformedId);
        },
    };
    let df = match digit_of(s.get_char(8)) {
        Some(d) => d,
        None => {
            return Err(CodecError::MalformedId);
        },
    };
    let dg = match digit_of(s.get_char(3)) {
        Some(d) => d,
        None => {
            return Err(CodecError::MalformedId);
        },
    };
    let dh = match digit_of(s.get_char(10)) {
        Some(d) => d,
        None => {
            return Err(CodecError::MalformedId);
        },
    };
    let di = match digit_of(s.get_char(11)) {
        Some(d) => d,
        None => {
            return Err(CodecError::MalformedId);
        },
    };
    let mut acc: u64 = da as u64;
    assert(bv_acc(s@, 0) == 0);
    assert(acc as int == bv_acc(s@, 1));
    acc = acc * 58 + (db as u64);
    assert(acc as int == bv_acc(s@, 2) && acc < 3364);
    acc = acc * 58 + (dc as u64);
    assert(acc as int == bv_acc(s@, 3) && acc < 195112);
    acc = acc * 58 + (dd as u64);
    assert(acc as int == bv_acc(s@, 4) && acc < 11316496);
    acc = acc * 58 + (de as u64);
    assert(acc as int == bv_acc(s@, 5) && acc < 656356768);
    acc = acc * 58 + (df as u64);
    assert(acc as int == bv_acc(s@, 6) && acc < 38068692544);
    acc = acc * 58 + (dg as u64);
    assert(acc as int == bv_acc(s@, 7) && acc < 2207984167552);
    acc = acc * 58 + (dh as u64);
    assert(acc as int == bv_acc(s@, 8) && acc < 128063081718016);
    acc = acc * 58 + (di as u64);
    assert(acc as int == bv_acc(s@, 9) && acc < 7427658739644928);
    if !(2251799813685248 <= acc && acc < 4503599627370496) {
        return Err(CodecError::OutOfRange);
    }
    Ok((acc & MASK_CODE) ^ XOR_CODE)
}

/// After `k` reads the accumulator holds the mixed value shifted right by the
/// digits not yet read.
proof fn lemma_acc_reconstructs(m: u64, s: Seq<char>, k: int)
    requires
        m < 7427658739644928,
        s.len() == 12,
        forall|p: int| 3 <= p < 12 ==> s[p] == char_of_digit(digit_at(m as int, bv_digit_index(p) as nat)),
        0 <= k <= 9,
    ensures
        bv_acc(s, k) == m as int / pow58((9 - k) as nat) as int,
    decreases k,
{
    lemma_pow58_values();
    if k == 0 {
        lemma_basic_div(m as int, pow58(9) as int);
    } else {
        lemma_acc_reconstructs(m, s, k - 1);
        let p = read_pos(k - 1);
        assert(3 <= p < 12);
        assert(bv_digit_index(p) == 9 - k);
        let big = pow58((10 - k) as nat) as int;
        let small = pow58((9 - k) as nat) as int;
        assert(big == 58 * small);
        assert(s[p] == char_of_digit(digit_at(m as int, (9 - k) as nat)));
        assert(0 <= digit_at(m as int, (9 - k) as nat) < 58);
        lemma_digit_roundtrip(digit_at(m as int, (9 - k) as nat));
        let q = m as int / small;
        lemma_div_denominator(m as int, small, 58);
        assert(m as int / big == q / 58);
        lemma_fundamental_div_mod(q, 58);
        assert(bv_acc(s, k) == 58 * (q / 58) + q % 58);
    }
}

/// The codec is a bijection on its 51-bit domain: decoding an encoded
/// identifier returns the original numeric identifier.
pub proof fn lemma_codec_round_trip(n: u64)
    requires
        n < MAX_AID,
    ensures
        decode_spec(bv_chars_of(n)) == Ok::<u64, CodecError>(n),
{
    lemma_pow58_values();
    lemma_mixed_bounds(n);
    lemma_unmix(n);
    let m = mixed(n);
    let s = bv_chars_of(n);
    assert(s.len() == 12);
    assert(s[0] == 'B' && s[1] == 'V' && s[2] == '1');
    assert(forall|p: int| 3 <= p < 12 ==> s[p] == char_of_digit(digit_at(m as int, bv_digit_index(p) as nat)));
    assert forall|p: int| 3 <= p < 12 implies digit_of_char(s[p]) >= 0 by {
        assert(0 <= digit_at(m as int, bv_digit_index(p) as nat) < 58);
        lemma_digit_roundtrip(digit_at(m as int, bv_digit_index(p) as nat));
    }
    lemma_acc_reconstructs(m, s, 9);
    lemma_div_basics(m as int);
    assert(bv_acc(s, 9) == m as int);
}

} // verus!

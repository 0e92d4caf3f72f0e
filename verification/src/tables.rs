use vstd::prelude::*;

verus! {

/// The largest weight in the weight table.
pub const MAX_WEIGHT: u8 = 118;

/// The value above which a single numeral symbol is refused.
pub const NUMERAL_CEILING: u16 = 35;

/// The longest text that is scanned: up to this length the sums over a
/// text fit in 32 bits.
pub const MAX_SCAN_LENGTH: usize = 65535;

/// The numeral table: the value of a numeral symbol, `None` for any other
/// character.
pub open spec fn numeral_value(c: char) -> Option<nat> {
    match c {
        'I' => Some(1nat),
        'V' => Some(5nat),
        'X' => Some(10nat),
        'L' => Some(50nat),
        'C' => Some(100nat),
        'D' => Some(500nat),
        'M' => Some(1000nat),
        _ => None,
    }
}

/// The one-character entries of the weight table.
pub open spec fn single_weight(c: char) -> Option<nat> {
    match c {
        'H' => Some(1nat),
        'B' => Some(5nat),
        'C' => Some(6nat),
        'N' => Some(7nat),
        'O' => Some(8nat),
        'F' => Some(9nat),
        'P' => Some(15nat),
        'S' => Some(16nat),
        'K' => Some(19nat),
        'V' => Some(23nat),
        'Y' => Some(39nat),
        'I' => Some(53nat),
        'W' => Some(74nat),
        'U' => Some(92nat),
        _ => None,
    }
}

/// The two-character entries of the weight table.
pub open spec fn pair_weight(a: char, b: char) -> Option<nat> {
    match (a, b) {
        ('H', 'e') => Some(2nat),
        ('L', 'i') => Some(3nat),
        ('B', 'e') => Some(4nat),
        ('N', 'e') => Some(10nat),
        ('N', 'a') => Some(11nat),
        ('M', 'g') => Some(12nat),
        ('A', 'l') => Some(13nat),
        ('S', 'i') => Some(14nat),
        ('C', 'l') => Some(17nat),
        ('A', 'r') => Some(18nat),
        ('C', 'a') => Some(20nat),
        ('S', 'c') => Some(21nat),
        ('T', 'i') => Some(22nat),
        ('C', 'r') => Some(24nat),
        ('M', 'n') => Some(25nat),
        ('F', 'e') => Some(26nat),
        ('C', 'o') => Some(27nat),
        ('N', 'i') => Some(28nat),
        ('C', 'u') => Some(29nat),
        ('Z', 'n') => Some(30nat),
        ('G', 'a') => Some(31nat),
        ('G', 'e') => Some(32nat),
        ('A', 's') => Some(33nat),
        ('S', 'e') => Some(34nat),
        ('B', 'r') => Some(35nat),
        ('K', 'r') => Some(36nat),
        ('R', 'b') => Some(37nat),
        ('S', 'r') => Some(38nat),
        ('Z', 'r') => Some(40nat),
        ('N', 'b') => Some(41nat),
        ('M', 'o') => Some(42nat),
        ('T', 'c') => Some(43nat),
        ('R', 'u') => Some(44nat),
        ('R', 'h') => Some(45nat),
        ('P', 'd') => Some(46nat),
        ('A', 'g') => Some(47nat),
        ('C', 'd') => Some(48nat),
        ('I', 'n') => Some(49nat),
        ('S', 'n') => Some(50nat),
        ('S', 'b') => Some(51nat),
        ('T', 'e') => Some(52nat),
        ('X', 'e') => Some(54nat),
        ('C', 's') => Some(55nat),
        ('B', 'a') => Some(56nat),
        ('L', 'a') => Some(57nat),
        ('C', 'e') => Some(58nat),
        ('P', 'r') => Some(59nat),
        ('N', 'd') => Some(60nat),
        ('P', 'm') => Some(61nat),
        ('S', 'm') => Some(62nat),
        ('E', 'u') => Some(63nat),
        ('G', 'd') => Some(64nat),
        ('T', 'b') => Some(65nat),
        ('D', 'y') => Some(66nat),
        ('H', 'o') => Some(67nat),
        ('E', 'r') => Some(68nat),
        ('T', 'm') => Some(69nat),
        ('Y', 'b') => Some(70nat),
        ('L', 'u') => Some(71nat),
        ('H', 'f') => Some(72nat),
        ('T', 'a') => Some(73nat),
        ('R', 'e') => Some(75nat),
        ('O', 's') => Some(76nat),
        ('I', 'r') => Some(77nat),
        ('P', 't') => Some(78nat),
        ('A', 'u') => Some(79nat),
        ('H', 'g') => Some(80nat),
        ('T', 'l') => Some(81nat),
        ('P', 'b') => Some(82nat),
        ('B', 'i') => Some(83nat),
        ('P', 'o') => Some(84nat),
        ('A', 't') => Some(85nat),
        ('R', 'n') => Some(86nat),
        ('F', 'r') => Some(87nat),
        ('R', 'a') => Some(88nat),
        ('A', 'c') => Some(89nat),
        ('T', 'h') => Some(90nat),
        ('P', 'a') => Some(91nat),
        ('N', 'p') => Some(93nat),
        ('P', 'u') => Some(94nat),
        ('A', 'm') => Some(95nat),
        ('C', 'm') => Some(96nat),
        ('B', 'k') => Some(97nat),
        ('C', 'f') => Some(98nat),
        ('E', 's') => Some(99nat),
        ('F', 'm') => Some(100nat),
        ('M', 'd') => Some(101nat),
        ('N', 'o') => Some(102nat),
        ('L', 'r') => Some(103nat),
        ('R', 'f') => Some(104nat),
        ('D', 'b') => Some(105nat),
        ('S', 'g') => Some(106nat),
        ('B', 'h') => Some(107nat),
        ('H', 's') => Some(108nat),
        ('M', 't') => Some(109nat),
        ('D', 's') => Some(110nat),
        ('R', 'g') => Some(111nat),
        ('C', 'n') => Some(112nat),
        ('N', 'h') => Some(113nat),
        ('F', 'l') => Some(114nat),
        ('M', 'c') => Some(115nat),
        ('L', 'v') => Some(116nat),
        ('T', 's') => Some(117nat),
        ('O', 'g') => Some(118nat),
        _ => None,
    }
}

/// The weight table as a whole: a symbol of one or two characters to its
/// weight. Symbols are case-sensitive.
pub open spec fn symbol_weight(symbol: Seq<char>) -> Option<nat> {
    if symbol.len() == 1 {
        single_weight(symbol[0])
    } else if symbol.len() == 2 {
        pair_weight(symbol[0], symbol[1])
    } else {
        None
    }
}

/// Looks a character up in the numeral table.
pub fn lookup_numeral(c: char) -> (value: Option<u16>)
    ensures
        value is Some <==> numeral_value(c) is Some,
        value is Some ==> value->0 as nat == numeral_value(c)->0,
{
    match c {
        'I' => Some(1u16),
        'V' => Some(5u16),
        'X' => Some(10u16),
        'L' => Some(50u16),
        'C' => Some(100u16),
        'D' => Some(500u16),
        'M' => Some(1000u16),
        _ => None,
    }
}

/// Looks a one-character symbol up in the weight table.
pub fn lookup_single(c: char) -> (weight: Option<u8>)
    ensures
        weight is Some <==> single_weight(c) is Some,
        weight is Some ==> weight->0 as nat == single_weight(c)->0,
        weight is Some ==> 1 <= weight->0 <= MAX_WEIGHT,
{
    match c {
        'H' => Some(1u8),
        'B' => Some(5u8),
        'C' => Some(6u8),
        'N' => Some(7u8),
        'O' => Some(8u8),
        'F' => Some(9u8),
        'P' => Some(15u8),
        'S' => Some(16u8),
        'K' => Some(19u8),
        'V' => Some(23u8),
        'Y' => Some(39u8),
        'I' => Some(53u8),
        'W' => Some(74u8),
        'U' => Some(92u8),
        _ => None,
    }
}

/// Looks a two-character symbol up in the weight table.
pub fn lookup_pair(a: char, b: char) -> (weight: Option<u8>)
    ensures
        weight is Some <==> pair_weight(a, b) is Some,
        weight is Some ==> weight->0 as nat == pair_weight(a, b)->0,
        weight is Some ==> 1 <= weight->0 <= MAX_WEIGHT,
{
    match (a, b) {
        ('H', 'e') => Some(2u8),
        ('L', 'i') => Some(3u8),
        ('B', 'e') => Some(4u8),
        ('N', 'e') => Some(10u8),
        ('N', 'a') => Some(11u8),
        ('M', 'g') => Some(12u8),
        ('A', 'l') => Some(13u8),
        ('S', 'i') => Some(14u8),
        ('C', 'l') => Some(17u8),
        ('A', 'r') => Some(18u8),
        ('C', 'a') => Some(20u8),
        ('S', 'c') => Some(21u8),
        ('T', 'i') => Some(22u8),
        ('C', 'r') => Some(24u8),
        ('M', 'n') => Some(25u8),
        ('F', 'e') => Some(26u8),
        ('C', 'o') => Some(27u8),
        ('N', 'i') => Some(28u8),
        ('C', 'u') => Some(29u8),
        ('Z', 'n') => Some(30u8),
        ('G', 'a') => Some(31u8),
        ('G', 'e') => Some(32u8),
        ('A', 's') => Some(33u8),
        ('S', 'e') => Some(34u8),
        ('B', 'r') => Some(35u8),
        ('K', 'r') => Some(36u8),
        ('R', 'b') => Some(37u8),
        ('S', 'r') => Some(38u8),
        ('Z', 'r') => Some(40u8),
        ('N', 'b') => Some(41u8),
        ('M', 'o') => Some(42u8),
        ('T', 'c') => Some(43u8),
        ('R', 'u') => Some(44u8),
        ('R', 'h') => Some(45u8),
        ('P', 'd') => Some(46u8),
        ('A', 'g') => Some(47u8),
        ('C', 'd') => Some(48u8),
        ('I', 'n') => Some(49u8),
        ('S', 'n') => Some(50u8),
        ('S', 'b') => Some(51u8),
        ('T', 'e') => Some(52u8),
        ('X', 'e') => Some(54u8),
        ('C', 's') => Some(55u8),
        ('B', 'a') => Some(56u8),
        ('L', 'a') => Some(57u8),
        ('C', 'e') => Some(58u8),
        ('P', 'r') => Some(59u8),
        ('N', 'd') => Some(60u8),
        ('P', 'm') => Some(61u8),
        ('S', 'm') => Some(62u8),
        ('E', 'u') => Some(63u8),
        ('G', 'd') => Some(64u8),
        ('T', 'b') => Some(65u8),
        ('D', 'y') => Some(66u8),
        ('H', 'o') => Some(67u8),
        ('E', 'r') => Some(68u8),
        ('T', 'm') => Some(69u8),
        ('Y', 'b') => Some(70u8),
        ('L', 'u') => Some(71u8),
        ('H', 'f') => Some(72u8),
        ('T', 'a') => Some(73u8),
        ('R', 'e') => Some(75u8),
        ('O', 's') => Some(76u8),
        ('I', 'r') => Some(77u8),
        ('P', 't') => Some(78u8),
        ('A', 'u') => Some(79u8),
        ('H', 'g') => Some(80u8),
        ('T', 'l') => Some(81u8),
        ('P', 'b') => Some(82u8),
        ('B', 'i') => Some(83u8),
        ('P', 'o') => Some(84u8),
        ('A', 't') => Some(85u8),
        ('R', 'n') => Some(86u8),
        ('F', 'r') => Some(87u8),
        ('R', 'a') => Some(88u8),
        ('A', 'c') => Some(89u8),
        ('T', 'h') => Some(90u8),
        ('P', 'a') => Some(91u8),
        ('N', 'p') => Some(93u8),
        ('P', 'u') => Some(94u8),
        ('A', 'm') => Some(95u8),
        ('C', 'm') => Some(96u8),
        ('B', 'k') => Some(97u8),
        ('C', 'f') => Some(98u8),
        ('E', 's') => Some(99u8),
        ('F', 'm') => Some(100u8),
        ('M', 'd') => Some(101u8),
        ('N', 'o') => Some(102u8),
        ('L', 'r') => Some(103u8),
        ('R', 'f') => Some(104u8),
        ('D', 'b') => Some(105u8),
        ('S', 'g') => Some(106u8),
        ('B', 'h') => Some(107u8),
        ('H', 's') => Some(108u8),
        ('M', 't') => Some(109u8),
        ('D', 's') => Some(110u8),
        ('R', 'g') => Some(111u8),
        ('C', 'n') => Some(112u8),
        ('N', 'h') => Some(113u8),
        ('F', 'l') => Some(114u8),
        ('M', 'c') => Some(115u8),
        ('L', 'v') => Some(116u8),
        ('T', 's') => Some(117u8),
        ('O', 'g') => Some(118u8),
        _ => None,
    }
}

/// Looks a symbol of any length up in the weight table.
pub fn lookup_symbol(symbol: &[char]) -> (weight: Option<u8>)
    ensures
        weight is Some <==> symbol_weight(symbol@) is Some,
        weight is Some ==> weight->0 as nat == symbol_weight(symbol@)->0,
        weight is Some ==> 1 <= weight->0 <= MAX_WEIGHT,
{
    if symbol.len() == 1 {
        lookup_single(symbol[0])
    } else if symbol.len() == 2 {
        lookup_pair(symbol[0], symbol[1])
    } else {
        None
    }
}

} // verus!

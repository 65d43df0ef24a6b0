use vstd::prelude::*;

verus! {

/// The character of the brightness ramp for a luma value, darkest first.
/// Value 0 alone is blank; the rest fall into buckets 22 values wide,
/// except the first (1..=21) and the last (242..=255).
pub open spec fn ramp_char(luma: int) -> char {
    if luma == 0 {
        ' '
    } else if luma <= 21 {
        '.'
    } else if luma <= 43 {
        ','
    } else if luma <= 65 {
        '-'
    } else if luma <= 87 {
        '~'
    } else if luma <= 109 {
        ':'
    } else if luma <= 131 {
        ';'
    } else if luma <= 153 {
        '='
    } else if luma <= 175 {
        '!'
    } else if luma <= 197 {
        '*'
    } else if luma <= 219 {
        '#'
    } else if luma <= 241 {
        '$'
    } else {
        '@'
    }
}

/// Maps one luma sample to its character on the brightness ramp.
pub fn quantize(luma: u8) -> (c: char)
    ensures
        c == ramp_char(luma as int),
{
    match luma {
        0 => ' ',
        1..=21 => '.',
        22..=43 => ',',
        44..=65 => '-',
        66..=87 => '~',
        88..=109 => ':',
        110..=131 => ';',
        132..=153 => '=',
        154..=175 => '!',
        176..=197 => '*',
        198..=219 => '#',
        220..=241 => '$',
        _ => '@',
    }
}

/// The ramp is exact at the edges of its buckets: 0 is blank, 21 and 22 fall
/// on either side of the first edge, 241 and 242 on either side of the last,
/// and the brightest value takes the densest character.
pub proof fn lemma_ramp_edges()
    ensures
        ramp_char(0) == ' ',
        ramp_char(21) == '.',
        ramp_char(22) == ',',
        ramp_char(241) == '$',
        ramp_char(242) == '@',
        ramp_char(255) == '@',
{
}

/// Every luma sample maps to one character of the ramp's thirteen.
pub proof fn lemma_ramp_total(luma: int)
    requires
        0 <= luma <= 255,
    ensures
        seq![' ', '.', ',', '-', '~', ':', ';', '=', '!', '*', '#', '$', '@'].contains(
            ramp_char(luma),
        ),
{
    let ramp = seq![' ', '.', ',', '-', '~', ':', ';', '=', '!', '*', '#', '$', '@'];
    let c = ramp_char(luma);
    let i: int = if c == ' ' { 0 } else if c == '.' { 1 } else if c == ',' { 2 } else if c
        == '-' { 3 } else if c == '~' { 4 } else if c == ':' { 5 } else if c == ';' { 6 } else if c
        == '=' { 7 } else if c == '!' { 8 } else if c == '*' { 9 } else if c == '#' { 10 } else if c
        == '$' { 11 } else { 12 };
    assert(ramp[i] == c);
}

} // verus!

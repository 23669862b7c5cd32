//! The `.pec` effect table: one `<index>><type><strength>` entry per line,
//! mapping a palette color index to the modifier bits of its voxels.

use vstd::prelude::*;
use std::collections::HashMap;
use crate::voxel::{EffectKind, effect_kind_of, effect_modifier, kind_of_char, modifier_bits};

verus! {

/// A line of the effect table that does not follow the format.
#[derive(Clone, Copy, Debug, PartialEq, Eq, Structural)]
pub enum PecError {
    MalformedLine,
}

/// The first index at or after `from` that holds `c`, or the length.
pub open spec fn find_char(s: Seq<char>, c: char, from: int) -> int
    decreases s.len() - from,
{
    if from < 0 || from >= s.len() {
        s.len() as int
    } else if s[from] == c {
        from
    } else {
        find_char(s, c, from + 1)
    }
}

pub open spec fn is_digit(c: char) -> bool {
    '0' <= c && c <= '9'
}

pub open spec fn digit_value(c: char) -> nat {
    (c as u32 - '0' as u32) as nat
}

/// The decimal value of a run of digits.
pub open spec fn digits_value(s: Seq<char>) -> nat
    decreases s.len(),
{
    if s.len() == 0 {
        0
    } else {
        digits_value(s.drop_last()) * 10 + digit_value(s.last())
    }
}

/// A number without its optional leading `+`.
pub open spec fn unsigned_digits(s: Seq<char>) -> Seq<char> {
    if s.len() > 0 && s[0] == '+' {
        s.drop_first()
    } else {
        s
    }
}

/// An unsigned decimal number no larger than `max`: an optional `+`, then at
/// least one digit.
pub open spec fn parse_unsigned(s: Seq<char>, max: nat) -> Option<nat> {
    let d = unsigned_digits(s);
    if d.len() > 0 && (forall|i: int| 0 <= i < d.len() ==> is_digit(d[i])) && digits_value(d) <= max {
        Some(digits_value(d))
    } else {
        None
    }
}

/// The modifier bits that a type character and a strength give; a type
/// character other than `e`, `g` and `t` gives none.
pub open spec fn modifier_for(t: char, strength: u32) -> u32 {
    match kind_of_char(t) {
        Some(kind) => modifier_bits(kind, strength),
        None => 0,
    }
}

/// One non-empty line: a color index, one `>`, a type character and a
/// strength.
pub open spec fn parse_line(line: Seq<char>) -> Option<(u8, u32)> {
    let g = find_char(line, '>', 0);
    if g >= line.len() || find_char(line, '>', g + 1) < line.len() || g + 1 >= line.len() {
        None
    } else {
        match (parse_unsigned(line.subrange(0, g), 255), parse_unsigned(line.subrange(g + 2, line.len() as int), u32::MAX as nat)) {
            (Some(index), Some(strength)) => Some((index as u8, modifier_for(line[g + 1], strength as u32))),
            _ => None,
        }
    }
}

/// The table after one more line: empty lines are skipped, a later entry for a
/// color index replaces an earlier one, a malformed line fails the table.
pub open spec fn add_line(acc: Option<Map<u8, u32>>, line: Seq<char>) -> Option<Map<u8, u32>> {
    match acc {
        None => None,
        Some(m) => if line.len() == 0 {
            Some(m)
        } else {
            match parse_line(line) {
                Some((k, v)) => Some(m.insert(k, v)),
                None => None,
            }
        },
    }
}

/// The table read from `text[i..]`, where the current line began at `start`.
pub open spec fn scan(text: Seq<char>, i: int, start: int, acc: Option<Map<u8, u32>>) -> Option<Map<u8, u32>>
    decreases text.len() - i,
{
    if i >= text.len() {
        add_line(acc, text.subrange(start, text.len() as int))
    } else if text[i] == '\n' {
        scan(text, i + 1, i + 1, add_line(acc, text.subrange(start, i)))
    } else {
        scan(text, i + 1, start, acc)
    }
}

/// The effect table of a `.pec` text, or `None` when a line is malformed.
pub open spec fn pec_table(text: Seq<char>) -> Option<Map<u8, u32>> {
    scan(text, 0, 0, Some(Map::empty()))
}

proof fn lemma_scan_failed(text: Seq<char>, i: int, start: int)
    ensures
        scan(text, i, start, None) is None,
    decreases text.len() - i,
{
    if i < text.len() {
        if text[i] == '\n' {
            lemma_scan_failed(text, i + 1, i + 1);
        } else {
            lemma_scan_failed(text, i + 1, start);
        }
    }
}

proof fn lemma_digits_prefix(s: Seq<char>, k: int)
    requires
        0 <= k <= s.len(),
    ensures
        digits_value(s.take(k)) <= digits_value(s),
    decreases s.len(),
{
    if k < s.len() {
        assert(s.drop_last().take(k) =~= s.take(k));
        lemma_digits_prefix(s.drop_last(), k);
    } else {
        assert(s.take(k) =~= s);
    }
}

pub(crate) fn text_chars(s: &str) -> (r: Vec<char>)
    ensures
        r@ == s@,
{
    let mut r: Vec<char> = Vec::new();
    for c in it: s.chars()
        invariant
            r@ == it.seq().take(it.index() as int),
    {
        r.push(c);
    }
    r
}

fn find_in(s: &Vec<char>, c: char, from: usize) -> (r: usize)
    requires
        from <= s.len(),
    ensures
        r == find_char(s@, c, from as int),
{
    let mut i = from;
    while i < s.len()
        invariant
            from <= i <= s.len(),
            find_char(s@, c, from as int) == find_char(s@, c, i as int),
        decreases s.len() - i,
    {
        if s[i] == c {
            return i;
        }
        i = i + 1;
    }
    i
}

fn slice_of(s: &Vec<char>, lo: usize, hi: usize) -> (r: Vec<char>)
    requires
        lo <= hi <= s.len(),
    ensures
        r@ == s@.subrange(lo as int, hi as int),
{
    let mut r: Vec<char> = Vec::new();
    let mut i = lo;
    while i < hi
        invariant
            lo <= i <= hi <= s.len(),
            r@ == s@.subrange(lo as int, i as int),
        decreases hi - i,
    {
        r.push(s[i]);
        i = i + 1;
    }
    r
}

/// Reads the decimal number in `s[lo..hi]` if it is no larger than `max`.
pub(crate) fn parse_number(s: &Vec<char>, lo: usize, hi: usize, max: u32) -> (r: Option<u32>)
    requires
        lo <= hi <= s.len(),
    ensures
        match parse_unsigned(s@.subrange(lo as int, hi as int), max as nat) {
            Some(v) => r == Some(v as u32),
            None => r is None,
        },
{
    let ghost whole = s@.subrange(lo as int, hi as int);
    let mut i = lo;
    if i < hi && s[i] == '+' {
        i = i + 1;
    }
    let start = i;
    assert(unsigned_digits(whole) =~= s@.subrange(start as int, hi as int));
    if start >= hi {
        return None;
    }
    let mut v: u64 = 0;
    while i < hi
        invariant
            lo <= start <= i <= hi <= s.len(),
            start < hi,
            whole == s@.subrange(lo as int, hi as int),
            unsigned_digits(whole) == s@.subrange(start as int, hi as int),
            v == digits_value(s@.subrange(start as int, i as int)),
            v <= max,
            forall|j: int| start <= j < i ==> is_digit(s@[j]),
        decreases hi - i,
    {
        let c = s[i];
        let ghost d = s@.subrange(start as int, hi as int);
        assert(d[i - start] == s@[i as int]);
        if !('0' <= c && c <= '9') {
            assert(!is_digit(d[i - start]));
            assert(!(forall|j: int| 0 <= j < d.len() ==> is_digit(d[j])));
            return None;
        }
        let nv: u64 = v * 10 + (c as u32 - '0' as u32) as u64;
        let ghost next = s@.subrange(start as int, i + 1);
        assert(next.drop_last() =~= s@.subrange(start as int, i as int));
        assert(next.last() == c);
        assert(digits_value(next) == nv);
        if nv > max as u64 {
            proof {
                assert(d.take(i + 1 - start) =~= s@.subrange(start as int, i + 1));
                lemma_digits_prefix(d, i + 1 - start);
            }
            return None;
        }
        v = nv;
        i = i + 1;
    }
    assert(s@.subrange(start as int, i as int) =~= unsigned_digits(whole));
    Some(v as u32)
}

/// Reads one non-empty line of the table.
fn parse_line_exec(line: &Vec<char>) -> (r: Option<(u8, u32)>)
    ensures
        r == parse_line(line@),
{
    let g = find_in(line, '>', 0);
    if g >= line.len() {
        return None;
    }
    if find_in(line, '>', g + 1) < line.len() {
        return None;
    }
    if g + 1 >= line.len() {
        return None;
    }
    let index = match parse_number(line, 0, g, 255) {
        Some(v) => v,
        None => return None,
    };
    let strength = match parse_number(line, g + 2, line.len(), u32::MAX) {
        Some(v) => v,
        None => return None,
    };
    let modifier = match effect_kind_of(line[g + 1]) {
        Some(kind) => effect_modifier(kind, strength),
        None => 0,
    };
    Some((index as u8, modifier))
}

/// Reads a `.pec` effect table. Each non-empty line maps a color index to
/// `strength << shift`, the shift chosen by the type character (`e` 20, `g`
/// 18, `t` 16; any other character gives 0). A malformed line fails the
/// whole table.
pub fn parse_pec(pec_file: &String) -> (r: Result<HashMap<u8, u32>, PecError>)
    ensures
        match r {
            Ok(m) => pec_table(pec_file@) == Some(m@),
            Err(_) => pec_table(pec_file@) is None,
        },
{
    let text = text_chars(pec_file.as_str());
    let mut output_map: HashMap<u8, u32> = HashMap::new();
    let mut start: usize = 0;
    let mut i: usize = 0;
    while i < text.len()
        invariant
            start <= i <= text.len(),
            text@ == pec_file@,
            pec_table(pec_file@) == scan(text@, i as int, start as int, Some(output_map@)),
        decreases text.len() - i,
    {
        if text[i] == '\n' {
            let line = slice_of(&text, start, i);
            if line.len() > 0 {
                match parse_line_exec(&line) {
                    Some((k, v)) => {
                        output_map.insert(k, v);
                    },
                    None => {
                        proof {
                            lemma_scan_failed(text@, i + 1, i + 1);
                        }
                        return Err(PecError::MalformedLine);
                    },
                }
            }
            start = i + 1;
        }
        i = i + 1;
    }
    let line = slice_of(&text, start, text.len());
    if line.len() > 0 {
        match parse_line_exec(&line) {
            Some((k, v)) => {
                output_map.insert(k, v);
            },
            None => {
                return Err(PecError::MalformedLine);
            },
        }
    }
    Ok(output_map)
}

} // verus!

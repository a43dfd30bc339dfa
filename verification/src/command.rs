//! The line grammar of the terminal front-end.
//!
//! A line is cut into fields at white space. A line with the field `exit`
//! asks to leave; any other line must hold exactly three fields: two
//! decimal coordinates and one tile character.

use vstd::prelude::*;
use crate::error::MapError;
use crate::grid::{GridView, MapData};
use crate::tile::ETypeFloor;

verus! {

/// What a line asks for.
#[derive(Copy, Clone, Debug, PartialEq, Eq, Structural)]
pub enum Command {
    /// Leave the interaction loop.
    Exit,
    /// Write `kind` at the external position `(x, y)`.
    Update { x: usize, y: usize, kind: ETypeFloor },
}

/// White space: the characters that separate the fields of a line.
pub open spec fn is_space(c: char) -> bool {
    ||| c == ' '
    ||| '\t' <= c <= '\r'
    ||| c == '\u{85}'
    ||| c == '\u{a0}'
    ||| c == '\u{1680}'
    ||| '\u{2000}' <= c <= '\u{200a}'
    ||| c == '\u{2028}'
    ||| c == '\u{2029}'
    ||| c == '\u{202f}'
    ||| c == '\u{205f}'
    ||| c == '\u{3000}'
}

/// The fields of a line: its maximal runs of characters that are not white
/// space, in order. Read from the left, a character that is not white space
/// extends the field before it, or opens a new one after white space.
pub open spec fn tokens(line: Seq<char>) -> Seq<Seq<char>>
    decreases line.len(),
{
    if line.len() == 0 {
        Seq::empty()
    } else {
        let front = line.drop_last();
        let c = line.last();
        if is_space(c) {
            tokens(front)
        } else if front.len() > 0 && !is_space(front.last()) {
            tokens(front).drop_last().push(tokens(front).last().push(c))
        } else {
            tokens(front).push(seq![c])
        }
    }
}

/// A decimal digit.
pub open spec fn is_digit(c: char) -> bool {
    '0' <= c <= '9'
}

/// The value of a decimal digit.
pub open spec fn digit_value(c: char) -> nat {
    (c as int - '0' as int) as nat
}

/// The value of a run of decimal digits.
pub open spec fn digits_value(digits: Seq<char>) -> nat
    decreases digits.len(),
{
    if digits.len() == 0 {
        0
    } else {
        10 * digits_value(digits.drop_last()) + digit_value(digits.last())
    }
}

/// The digits of a field that may start with a plus sign.
pub open spec fn unsigned_part(token: Seq<char>) -> Seq<char> {
    if token.len() > 0 && token[0] == '+' {
        token.drop_first()
    } else {
        token
    }
}

/// The number a field spells: one or more decimal digits, after an optional
/// plus sign.
pub open spec fn number(token: Seq<char>) -> Option<nat> {
    let digits = unsigned_part(token);
    if digits.len() > 0 && (forall|i: int| 0 <= i < digits.len() ==> is_digit(#[trigger] digits[i])) {
        Some(digits_value(digits))
    } else {
        None
    }
}

/// The coordinate a field spells: its number, where a machine index holds it.
pub open spec fn coordinate(token: Seq<char>) -> Option<usize> {
    match number(token) {
        Some(n) => if n <= usize::MAX {
            Some(n as usize)
        } else {
            None
        },
        None => None,
    }
}

/// The field that asks to leave.
pub open spec fn exit_word() -> Seq<char> {
    seq!['e', 'x', 'i', 't']
}

/// What a line asks for, or that it is no command.
pub open spec fn command_of(line: Seq<char>) -> Result<Command, MapError> {
    let fields = tokens(line);
    if exists|k: int| 0 <= k < fields.len() && #[trigger] fields[k] == exit_word() {
        Ok(Command::Exit)
    } else if fields.len() == 3 && fields[2].len() == 1 {
        match (coordinate(fields[0]), coordinate(fields[1])) {
            (Some(x), Some(y)) => Ok(
                Command::Update { x, y, kind: ETypeFloor::spec_from_char(fields[2][0]) },
            ),
            _ => Err(MapError::InputParseFailure),
        }
    } else {
        Err(MapError::InputParseFailure)
    }
}

impl GridView {
    /// The grid after a line was applied: a write changes what any write
    /// changes, every other line changes nothing.
    pub open spec fn after_line(self, line: Seq<char>) -> GridView {
        match command_of(line) {
            Ok(Command::Update { x, y, kind }) => self.put(x as int, y as int, kind),
            _ => self,
        }
    }

    /// What applying a line answers: the command that was carried out, or
    /// why there was none to carry out.
    pub open spec fn answer_to_line(self, line: Seq<char>) -> Result<Command, MapError> {
        match command_of(line) {
            Ok(Command::Update { x, y, kind }) => if self.accepts(x as int, y as int) {
                Ok(Command::Update { x, y, kind })
            } else {
                Err(MapError::OutOfBounds)
            },
            other => other,
        }
    }
}

/// The texts of a list of fields.
spec fn texts(fields: Seq<Vec<char>>) -> Seq<Seq<char>> {
    fields.map_values(|field: Vec<char>| field@)
}

/// The characters of a line, in order.
fn chars_of(line: &str) -> (chars: Vec<char>)
    ensures
        chars@ == line@,
{
    let mut chars: Vec<char> = Vec::new();
    for c in it: line.chars()
        invariant
            chars@ == it.seq().take(it.index()),
            it.seq() == line@,
    {
        chars.push(c);
    }
    chars
}

/// Whether a character is white space.
fn space(c: char) -> (yes: bool)
    ensures
        yes == is_space(c),
{
    c == ' ' || ('\t' <= c && c <= '\r') || c == '\u{85}' || c == '\u{a0}' || c == '\u{1680}' || (
    '\u{2000}' <= c && c <= '\u{200a}') || c == '\u{2028}' || c == '\u{2029}' || c == '\u{202f}'
        || c == '\u{205f}' || c == '\u{3000}'
}

/// Cuts a line into its fields.
fn split_tokens(chars: &Vec<char>) -> (fields: Vec<Vec<char>>)
    ensures
        texts(fields@) == tokens(chars@),
{
    let mut fields: Vec<Vec<char>> = Vec::new();
    let mut current: Vec<char> = Vec::new();
    let mut i: usize = 0;
    while i < chars.len()
        invariant
            i <= chars.len(),
            current@.len() > 0 <==> (i > 0 && !is_space(chars@[i - 1])),
            tokens(chars@.take(i as int)) == if current@.len() > 0 {
                texts(fields@).push(current@)
            } else {
                texts(fields@)
            },
        decreases chars.len() - i,
    {
        let c = chars[i];
        let ghost open = current@;
        assert(chars@.take(i + 1).drop_last() =~= chars@.take(i as int));
        if space(c) {
            if current.len() > 0 {
                fields.push(current);
                current = Vec::new();
            }
        } else {
            current.push(c);
            assert(open.len() == 0 ==> current@ =~= seq![c]);
        }
        i = i + 1;
    }
    assert(chars@.take(chars.len() as int) =~= chars@);
    if current.len() > 0 {
        fields.push(current);
    }
    fields
}

/// A run of digits is worth no less than any of its beginnings.
proof fn lemma_digits_value_grows(digits: Seq<char>, n: int)
    requires
        0 <= n <= digits.len(),
    ensures
        digits_value(digits.take(n)) <= digits_value(digits),
    decreases digits.len() - n,
{
    if n < digits.len() {
        lemma_digits_value_grows(digits, n + 1);
        assert(digits.take(n + 1).drop_last() =~= digits.take(n));
    } else {
        assert(digits.take(n) =~= digits);
    }
}

/// Reads a coordinate.
fn parse_coordinate(token: &Vec<char>) -> (value: Option<usize>)
    ensures
        value == coordinate(token@),
{
    let start: usize = if token.len() > 0 && token[0] == '+' {
        1
    } else {
        0
    };
    let ghost digits = unsigned_part(token@);
    if start == token.len() {
        return None;
    }
    let mut value: usize = 0;
    let mut i: usize = start;
    while i < token.len()
        invariant
            start <= i <= token.len(),
            start < token.len(),
            digits == token@.subrange(start as int, token.len() as int),
            digits == unsigned_part(token@),
            forall|j: int| 0 <= j < i - start ==> is_digit(#[trigger] digits[j]),
            value == digits_value(digits.take(i - start)),
        decreases token.len() - i,
    {
        let c = token[i];
        proof {
            assert(digits.take(i - start + 1).drop_last() =~= digits.take(i - start));
            lemma_digits_value_grows(digits, i - start + 1);
        }
        if !('0' <= c && c <= '9') {
            return None;
        }
        let d: usize = (c as u32 - '0' as u32) as usize;
        let tens = match value.checked_mul(10) {
            Some(tens) => tens,
            None => {
                return None;
            },
        };
        value = match tens.checked_add(d) {
            Some(sum) => sum,
            None => {
                return None;
            },
        };
        i = i + 1;
    }
    proof {
        assert(digits.take(token.len() - start) =~= digits);
    }
    Some(value)
}

/// Whether a field is the word that asks to leave.
fn is_exit(token: &Vec<char>) -> (yes: bool)
    ensures
        yes == (token@ == exit_word()),
{
    let yes = token.len() == 4 && token[0] == 'e' && token[1] == 'x' && token[2] == 'i' && token[3]
        == 't';
    proof {
        if yes {
            assert(token@ =~= exit_word());
        }
    }
    yes
}

/// Reads one line of the terminal.
///
/// A line that holds the field `exit` is `Exit`, whatever else it holds.
/// Any other line is a write if it holds exactly three fields, of which the
/// first two spell coordinates and the third is a single character, read
/// leniently as a tile. Every other line is refused.
pub fn parse_command(line: &str) -> (parsed: Result<Command, MapError>)
    ensures
        parsed == command_of(line@),
{
    let chars = chars_of(line);
    let fields = split_tokens(&chars);
    let mut k: usize = 0;
    while k < fields.len()
        invariant
            k <= fields.len(),
            texts(fields@) == tokens(line@),
            forall|j: int| 0 <= j < k ==> #[trigger] tokens(line@)[j] != exit_word(),
        decreases fields.len() - k,
    {
        assert(texts(fields@)[k as int] == fields@[k as int]@);
        if is_exit(&fields[k]) {
            return Ok(Command::Exit);
        }
        k = k + 1;
    }
    if fields.len() != 3 {
        return Err(MapError::InputParseFailure);
    }
    if fields[2].len() != 1 {
        return Err(MapError::InputParseFailure);
    }
    match (parse_coordinate(&fields[0]), parse_coordinate(&fields[1])) {
        (Some(x), Some(y)) => Ok(Command::Update { x, y, kind: ETypeFloor::from_char(fields[2][0]) }),
        _ => Err(MapError::InputParseFailure),
    }
}

impl<const X: usize, const Y: usize> MapData<X, Y> {
    /// Reads one line of the terminal and carries it out.
    ///
    /// A write is applied as `update_cell` applies it, and answered with the
    /// command, or with `OutOfBounds` where its coordinates address no cell.
    /// `Exit` is handed back for the caller to act on. A line that is no
    /// command is answered with `InputParseFailure`. Only an accepted write
    /// changes the map.
    pub fn apply_line(&mut self, line: &str) -> (answer: Result<Command, MapError>)
        ensures
            final(self)@ == old(self)@.after_line(line@),
            answer == old(self)@.answer_to_line(line@),
            old(self).wf() ==> final(self).wf(),
    {
        match parse_command(line) {
            Ok(Command::Update { x, y, kind }) => match self.update_cell(x, y, kind) {
                Ok(_) => Ok(Command::Update { x, y, kind }),
                Err(e) => Err(e),
            },
            other => other,
        }
    }
}

/// A word: a text that is not empty and holds no white space.
pub open spec fn is_word(text: Seq<char>) -> bool {
    text.len() > 0 && forall|i: int| 0 <= i < text.len() ==> !is_space(#[trigger] text[i])
}

/// Every field is a word: it is not empty and holds no white space. A line
/// that ends in a character that is not white space has a field, and its
/// last field ends in that character.
pub proof fn lemma_tokens_are_words(line: Seq<char>)
    ensures
        forall|k: int| 0 <= k < tokens(line).len() ==> is_word(#[trigger] tokens(line)[k]),
        line.len() > 0 && !is_space(line.last()) ==> tokens(line).len() > 0 && tokens(
            line,
        ).last().last() == line.last(),
    decreases line.len(),
{
    if line.len() > 0 {
        let front = line.drop_last();
        let c = line.last();
        lemma_tokens_are_words(front);
        if !is_space(c) {
            assert forall|k: int| 0 <= k < tokens(line).len() implies is_word(
                #[trigger] tokens(line)[k],
            ) by {
                if k < tokens(line).len() - 1 {
                    assert(tokens(line)[k] == tokens(front)[k]);
                }
            }
        }
    }
}

/// A word is a line of one field, itself.
pub proof fn lemma_tokens_of_word(word: Seq<char>)
    requires
        is_word(word),
    ensures
        tokens(word) == seq![word],
    decreases word.len(),
{
    let front = word.drop_last();
    if front.len() > 0 {
        lemma_tokens_of_word(front);
        assert(front.push(word.last()) =~= word);
    } else {
        assert(tokens(front) =~= Seq::<Seq<char>>::empty());
        assert(seq![word.last()] =~= word);
    }
}

/// White space cuts a line in two: the fields of the whole are the fields
/// before it, then the fields after it. So white space at either end of a
/// line, or more of it between two fields, changes nothing.
pub proof fn lemma_tokens_split_at_space(before: Seq<char>, gap: char, after: Seq<char>)
    requires
        is_space(gap),
    ensures
        tokens(before + seq![gap] + after) == tokens(before) + tokens(after),
    decreases after.len(),
{
    let line = before + seq![gap] + after;
    if after.len() == 0 {
        assert(line.drop_last() =~= before);
    } else {
        let front = before + seq![gap] + after.drop_last();
        assert(line.drop_last() =~= front);
        lemma_tokens_split_at_space(before, gap, after.drop_last());
        lemma_tokens_are_words(after.drop_last());
    }
}

/// The digits of a decimal numeral are worth the number it was written for.
proof fn lemma_digits_value_of_decimal(n: nat)
    ensures
        digits_value(crate::dump::decimal(n)) == n,
    decreases n,
{
    let numeral = crate::dump::decimal(n);
    if n >= 10 {
        lemma_digits_value_of_decimal(n / 10);
        assert(numeral.drop_last() =~= crate::dump::decimal(n / 10));
    } else {
        assert(digits_value(numeral.drop_last()) == 0);
    }
}

/// A decimal numeral spells the number it was written for: what the dump
/// prints as a label of a row reads back as the same number.
pub proof fn lemma_number_of_decimal(n: nat)
    ensures
        number(crate::dump::decimal(n)) == Some(n),
{
    crate::dump::lemma_decimal_is_digits(n);
    lemma_digits_value_of_decimal(n);
}

} // verus!

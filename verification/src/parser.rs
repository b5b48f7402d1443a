//! The text format of programs: one instruction a line, `#` comments and a
//! `.memory` directive.

use crate::bytecode::{Instruction, OpCode, Program};
use vstd::prelude::*;

verus! {

/// Whether `c` is white space: a code point with the Unicode property
/// `White_Space`.
pub open spec fn is_space(c: char) -> bool {
    ||| '\u{0009}' <= c <= '\u{000D}'
    ||| c == ' '
    ||| c == '\u{0085}'
    ||| c == '\u{00A0}'
    ||| c == '\u{1680}'
    ||| '\u{2000}' <= c <= '\u{200A}'
    ||| c == '\u{2028}'
    ||| c == '\u{2029}'
    ||| c == '\u{202F}'
    ||| c == '\u{205F}'
    ||| c == '\u{3000}'
}

/// The lines of `text`: what stands between its line feeds.
pub open spec fn lines(text: Seq<char>) -> Seq<Seq<char>>
    decreases text.len(),
{
    if text.len() == 0 {
        seq![Seq::empty()]
    } else {
        let before = lines(text.drop_last());
        if text.last() == '\n' {
            before.push(Seq::empty())
        } else {
            before.update(before.len() - 1, before.last().push(text.last()))
        }
    }
}

/// The words of `line`: its longest runs of characters that are not white space.
pub open spec fn words(line: Seq<char>) -> Seq<Seq<char>>
    decreases line.len(),
{
    if line.len() == 0 {
        Seq::empty()
    } else {
        let before = words(line.drop_last());
        if is_space(line.last()) {
            before
        } else if line.len() > 1 && !is_space(line[line.len() - 2]) {
            before.update(before.len() - 1, before.last().push(line.last()))
        } else {
            before.push(seq![line.last()])
        }
    }
}

/// The lines `parts` with a line feed between each two of them.
pub open spec fn joined(parts: Seq<Seq<char>>) -> Seq<char>
    decreases parts.len(),
{
    if parts.len() == 0 {
        Seq::empty()
    } else if parts.len() == 1 {
        parts[0]
    } else {
        joined(parts.drop_last()) + seq!['\n'] + parts.last()
    }
}

/// A text has at least one line, no line holds a line feed, and the lines
/// with line feeds between them are the text again.
pub proof fn lemma_lines_of_text(text: Seq<char>)
    ensures
        lines(text).len() >= 1,
        forall|k: int, i: int|
            0 <= k < lines(text).len() && 0 <= i < lines(text)[k].len() ==> #[trigger] lines(
                text,
            )[k][i] != '\n',
        joined(lines(text)) == text,
    decreases text.len(),
{
    if text.len() == 0 {
        assert(joined(lines(text)) =~= text);
    } else {
        let rest = text.drop_last();
        let before = lines(rest);
        lemma_lines_of_text(rest);
        if text.last() == '\n' {
            let after = before.push(Seq::empty());
            assert(after.drop_last() =~= before);
            assert(joined(after) =~= rest.push('\n'));
            assert(rest.push('\n') =~= text);
        } else {
            let grown = before.last().push(text.last());
            let after = before.update(before.len() - 1, grown);
            if before.len() == 1 {
                assert(joined(after) =~= rest.push(text.last()));
            } else {
                assert(after.drop_last() =~= before.drop_last());
                assert(joined(after) =~= joined(before).push(text.last()));
            }
            assert(rest.push(text.last()) =~= text);
        }
    }
}

/// No word is empty, and none holds white space.
pub proof fn lemma_words_are_not_empty(line: Seq<char>, k: int)
    requires
        0 <= k < words(line).len(),
    ensures
        words(line)[k].len() > 0,
        forall|i: int| 0 <= i < words(line)[k].len() ==> !is_space(#[trigger] words(line)[k][i]),
    decreases line.len(),
{
    if line.len() > 0 {
        let before = words(line.drop_last());
        if k < before.len() {
            lemma_words_are_not_empty(line.drop_last(), k);
        }
        if !is_space(line.last()) && line.len() > 1 && !is_space(line[line.len() - 2]) {
            lemma_words_continue(line.drop_last());
        }
    }
}

/// A line that ends in a character that is no white space has a word.
pub proof fn lemma_words_continue(line: Seq<char>)
    requires
        line.len() > 0,
        !is_space(line.last()),
    ensures
        words(line).len() > 0,
    decreases line.len(),
{
    if line.len() > 1 && !is_space(line[line.len() - 2]) {
        lemma_words_continue(line.drop_last());
    }
}

/// What a vector of character vectors holds, as a sequence of sequences.
pub open spec fn texts(items: Seq<Vec<char>>) -> Seq<Seq<char>> {
    Seq::new(items.len(), |i: int| items[i]@)
}

/// Whether `c` is white space.
fn is_whitespace(c: char) -> (r: bool)
    ensures
        r == is_space(c),
{
    ('\u{0009}' <= c && c <= '\u{000D}') || c == ' ' || c == '\u{0085}' || c == '\u{00A0}' || c
        == '\u{1680}' || ('\u{2000}' <= c && c <= '\u{200A}') || c == '\u{2028}' || c
        == '\u{2029}' || c == '\u{202F}' || c == '\u{205F}' || c == '\u{3000}'
}

/// The characters of `text`.
fn chars_of(text: &str) -> (r: Vec<char>)
    ensures
        r@ == text@,
{
    let mut chars: Vec<char> = Vec::new();
    for c in it: text.chars()
        invariant
            it.seq() == text@,
            chars@ == text@.subrange(0, it.index() as int),
    {
        chars.push(c);
    }
    assert(text@.subrange(0, text@.len() as int) == text@);
    chars
}

/// Splits `text` at its line feeds.
fn split_lines(text: &Vec<char>) -> (r: Vec<Vec<char>>)
    ensures
        texts(r@) == lines(text@),
{
    let mut done: Vec<Vec<char>> = Vec::new();
    let mut current: Vec<char> = Vec::new();
    let mut i: usize = 0;
    assert(text@.subrange(0, 0) =~= Seq::<char>::empty());
    assert(texts(done@).push(current@) =~= lines(Seq::<char>::empty()));
    while i < text.len()
        invariant
            i <= text.len(),
            texts(done@).push(current@) == lines(text@.subrange(0, i as int)),
        decreases text.len() - i,
    {
        let c = text[i];
        let ghost prefix = text@.subrange(0, i + 1);
        assert(prefix.drop_last() =~= text@.subrange(0, i as int));
        let ghost before = texts(done@).push(current@);
        if c == '\n' {
            done.push(current);
            current = Vec::new();
            assert(texts(done@).push(current@) =~= before.push(Seq::empty()));
        } else {
            current.push(c);
            assert(texts(done@).push(current@) =~= before.update(
                before.len() - 1,
                before.last().push(c),
            ));
        }
        i = i + 1;
    }
    assert(text@.subrange(0, i as int) =~= text@);
    let ghost before = texts(done@).push(current@);
    done.push(current);
    assert(texts(done@) =~= before);
    done
}

/// Splits `line` into its words.
fn split_words(line: &Vec<char>) -> (r: Vec<Vec<char>>)
    ensures
        texts(r@) == words(line@),
{
    let mut done: Vec<Vec<char>> = Vec::new();
    let mut current: Vec<char> = Vec::new();
    let mut i: usize = 0;
    assert(line@.subrange(0, 0) =~= Seq::<char>::empty());
    assert(texts(done@) =~= words(Seq::<char>::empty()));
    while i < line.len()
        invariant
            i <= line.len(),
            current@.len() > 0 <==> (i > 0 && !is_space(line@[i - 1])),
            words(line@.subrange(0, i as int)) == (if current@.len() > 0 {
                texts(done@).push(current@)
            } else {
                texts(done@)
            }),
        decreases line.len() - i,
    {
        let c = line[i];
        let ghost prefix = line@.subrange(0, i + 1);
        assert(prefix.drop_last() =~= line@.subrange(0, i as int));
        let ghost before = words(line@.subrange(0, i as int));
        if is_whitespace(c) {
            if current.len() > 0 {
                done.push(current);
                current = Vec::new();
                assert(texts(done@) =~= before);
            }
        } else {
            let ghost grown = current@.len() > 0;
            current.push(c);
            proof {
                if grown {
                    assert(texts(done@).push(current@) =~= before.update(
                        before.len() - 1,
                        before.last().push(c),
                    ));
                } else {
                    assert(current@ =~= seq![c]);
                }
            }
        }
        i = i + 1;
    }
    assert(line@.subrange(0, i as int) =~= line@);
    if current.len() > 0 {
        let ghost before = texts(done@).push(current@);
        done.push(current);
        assert(texts(done@) =~= before);
    }
    done
}

/// Whether `c` is a decimal digit.
pub open spec fn is_digit(c: char) -> bool {
    '0' <= c <= '9'
}

/// The number that the decimal digits `digits` write.
pub open spec fn decimal(digits: Seq<char>) -> nat
    decreases digits.len(),
{
    if digits.len() == 0 {
        0
    } else {
        decimal(digits.drop_last()) * 10 + (digits.last() as int - '0' as int) as nat
    }
}

/// Whether `text` holds decimal digits only.
pub open spec fn all_digits(text: Seq<char>) -> bool {
    forall|i: int| 0 <= i < text.len() ==> is_digit(#[trigger] text[i])
}

/// The integer that `word` writes: decimal digits, at least one, after an
/// optional `+` or, where `signed`, `-`. Anything else writes no integer.
pub open spec fn integer(word: Seq<char>, signed: bool) -> Option<int> {
    if word.len() == 0 {
        None
    } else {
        let negative = signed && word[0] == '-';
        let digits = if word[0] == '+' || negative {
            word.drop_first()
        } else {
            word
        };
        if digits.len() == 0 || !all_digits(digits) {
            None
        } else if negative {
            Some(-(decimal(digits) as int))
        } else {
            Some(decimal(digits) as int)
        }
    }
}

/// The integer that `word` writes, where it lies between `min` and `max`.
/// A sign is taken only where `min` is negative.
pub open spec fn integer_within(word: Seq<char>, min: int, max: int) -> Option<int> {
    match integer(word, min < 0) {
        Some(value) if min <= value <= max => Some(value),
        _ => None,
    }
}

/// A number above every operand: a magnitude that reaches it is out of range.
pub const MAGNITUDE_LIMIT: i128 = 0x1_0000_0000_0000_0000;

/// Parses `word` as an integer between `min` and `max`.
fn parse_integer(word: &Vec<char>, min: i128, max: i128) -> (r: Option<i128>)
    requires
        -MAGNITUDE_LIMIT < min <= 0,
        0 <= max < MAGNITUDE_LIMIT,
    ensures
        r == (match integer_within(word@, min as int, max as int) {
            Some(value) => Some(value as i128),
            None => None,
        }),
{
    if word.len() == 0 {
        return None;
    }
    let first = word[0];
    let negative = first == '-' && min < 0;
    let start: usize = if first == '+' || negative {
        1
    } else {
        0
    };
    let ghost digits = if start == 1 {
        word@.drop_first()
    } else {
        word@
    };
    if start == word.len() {
        return None;
    }
    let mut magnitude: i128 = 0;
    let mut i: usize = start;
    assert(digits.subrange(0, 0) =~= Seq::<char>::empty());
    while i < word.len()
        invariant
            start <= i <= word.len(),
            start <= 1,
            word@.len() > 0,
            (start == 1) == (word@[0] == '+' || (min < 0 && word@[0] == '-')),
            digits == (if start == 1 {
                word@.drop_first()
            } else {
                word@
            }),
            all_digits(digits.subrange(0, i - start)),
            0 <= magnitude <= MAGNITUDE_LIMIT,
            magnitude == (if decimal(digits.subrange(0, i - start)) < MAGNITUDE_LIMIT {
                decimal(digits.subrange(0, i - start)) as int
            } else {
                MAGNITUDE_LIMIT as int
            }),
        decreases word.len() - i,
    {
        let c = word[i];
        assert(digits[i - start] == c);
        if !('0' <= c && c <= '9') {
            assert(!is_digit(digits[i - start]));
            return None;
        }
        let ghost prefix = digits.subrange(0, i + 1 - start);
        assert(prefix.drop_last() =~= digits.subrange(0, i - start));
        let digit: i128 = (c as u32 - '0' as u32) as i128;
        magnitude = magnitude * 10 + digit;
        if magnitude > MAGNITUDE_LIMIT {
            magnitude = MAGNITUDE_LIMIT;
        }
        i = i + 1;
    }
    assert(digits.subrange(0, i - start) =~= digits);
    let value = if negative {
        -magnitude
    } else {
        magnitude
    };
    if min <= value && value <= max {
        Some(value)
    } else {
        None
    }
}

/// Why a text is no program, with the index of the offending line; the
/// first line has index 0.
#[derive(Debug, Clone, Copy, PartialEq, Eq, Structural)]
pub enum ParseError {
    /// A `.memory` directive whose size is no number that fits.
    InvalidMemorySize { line: usize },
    /// An instruction that takes an operand and has none.
    MissingOperand { line: usize, kind: OpCode },
    /// An operand that is no number, or none that fits the instruction.
    InvalidOperand { line: usize, kind: OpCode },
    /// A first word that is no mnemonic.
    UnknownInstruction { line: usize },
}

/// What one line says.
#[derive(Debug, Clone, Copy, PartialEq, Eq, Structural)]
pub enum Statement {
    /// Nothing: a blank line, a comment or a directive that is passed over.
    Nothing,
    /// The program declares this many memory cells.
    Memory(usize),
    /// The program goes on with this instruction.
    Code(Instruction),
}

/// The memory size of a program that declares none.
pub const DEFAULT_MEMORY_SIZE: usize = 1024;

/// The upper case of `word` by Unicode's rules, which `str::to_uppercase`
/// computes. Nothing is stated of it but that it depends on `word` alone.
pub uninterp spec fn uppercase_of(word: Seq<char>) -> Seq<char>;

/// The operation kind that the upper-case word `upper` is the mnemonic of.
pub open spec fn keyword(upper: Seq<char>) -> Option<OpCode> {
    if upper == "PUSH_INT"@ {
        Some(OpCode::PushInt)
    } else if upper == "PUSH_REG"@ {
        Some(OpCode::PushReg)
    } else if upper == "POP"@ {
        Some(OpCode::Pop)
    } else if upper == "ADD"@ {
        Some(OpCode::Add)
    } else if upper == "SUB"@ {
        Some(OpCode::Sub)
    } else if upper == "MUL"@ {
        Some(OpCode::Mul)
    } else if upper == "DIV"@ {
        Some(OpCode::Div)
    } else if upper == "EQ"@ {
        Some(OpCode::Eq)
    } else if upper == "LT"@ {
        Some(OpCode::Lt)
    } else if upper == "GT"@ {
        Some(OpCode::Gt)
    } else if upper == "JUMP"@ {
        Some(OpCode::Jump)
    } else if upper == "JUMP_IF_ZERO"@ {
        Some(OpCode::JumpIfZero)
    } else if upper == "JUMP_IF_NOT_ZERO"@ {
        Some(OpCode::JumpIfNotZero)
    } else if upper == "LOAD"@ {
        Some(OpCode::Load)
    } else if upper == "STORE"@ {
        Some(OpCode::Store)
    } else if upper == "CALL_NATIVE"@ {
        Some(OpCode::CallNative)
    } else if upper == "RETURN"@ {
        Some(OpCode::Return)
    } else if upper == "HALT"@ {
        Some(OpCode::Halt)
    } else {
        None
    }
}

/// The least and the greatest operand that an instruction of `kind` takes,
/// or `None` where it takes no operand.
pub open spec fn operand_range(kind: OpCode) -> Option<(int, int)> {
    match kind {
        OpCode::PushInt => Some((i64::MIN as int, i64::MAX as int)),
        OpCode::PushReg => Some((0, u8::MAX as int)),
        OpCode::Jump | OpCode::JumpIfZero | OpCode::JumpIfNotZero | OpCode::Load | OpCode::Store => Some(
            (0, usize::MAX as int),
        ),
        OpCode::CallNative => Some((0, u32::MAX as int)),
        _ => None,
    }
}

/// The instruction of `kind` with the operand `value`.
pub open spec fn assemble(kind: OpCode, value: int) -> Instruction {
    match kind {
        OpCode::PushInt => Instruction::PushInt(value as i64),
        OpCode::PushReg => Instruction::PushReg(value as u8),
        OpCode::Pop => Instruction::Pop,
        OpCode::Add => Instruction::Add,
        OpCode::Sub => Instruction::Sub,
        OpCode::Mul => Instruction::Mul,
        OpCode::Div => Instruction::Div,
        OpCode::Eq => Instruction::Eq,
        OpCode::Lt => Instruction::Lt,
        OpCode::Gt => Instruction::Gt,
        OpCode::Jump => Instruction::Jump(value as usize),
        OpCode::JumpIfZero => Instruction::JumpIfZero(value as usize),
        OpCode::JumpIfNotZero => Instruction::JumpIfNotZero(value as usize),
        OpCode::Load => Instruction::Load(value as usize),
        OpCode::Store => Instruction::Store(value as usize),
        OpCode::CallNative => Instruction::CallNative(value as u32),
        OpCode::Return => Instruction::Return,
        OpCode::Halt => Instruction::Halt,
    }
}

/// The instruction that the upper-case mnemonic `upper` and the word after
/// it write on line `line`.
pub open spec fn instruction(upper: Seq<char>, operand: Option<Seq<char>>, line: usize) -> Result<
    Instruction,
    ParseError,
> {
    match keyword(upper) {
        None => Err(ParseError::UnknownInstruction { line }),
        Some(kind) => match operand_range(kind) {
            None => Ok(assemble(kind, 0)),
            Some((min, max)) => match operand {
                None => Err(ParseError::MissingOperand { line, kind }),
                Some(text) => match integer_within(text, min, max) {
                    None => Err(ParseError::InvalidOperand { line, kind }),
                    Some(value) => Ok(assemble(kind, value)),
                },
            },
        },
    }
}

/// Whether `word` starts a memory directive.
pub open spec fn is_directive(word: Seq<char>) -> bool {
    word.len() >= 7 && word.subrange(0, 7) == ".memory"@
}

/// What the line `line`, at index `index`, says. A line without words or
/// whose first word starts with `#` says nothing. A line whose first word
/// starts with `.memory` declares the memory size if it has two words and
/// says nothing otherwise. Any other line writes an instruction, by its
/// first word in upper case and its second word; further words are ignored.
pub open spec fn statement(line: Seq<char>, index: usize) -> Result<Statement, ParseError> {
    let parts = words(line);
    if parts.len() == 0 || parts[0][0] == '#' {
        Ok(Statement::Nothing)
    } else if is_directive(parts[0]) {
        if parts.len() != 2 {
            Ok(Statement::Nothing)
        } else {
            match integer_within(parts[1], 0, usize::MAX as int) {
                Some(size) => Ok(Statement::Memory(size as usize)),
                None => Err(ParseError::InvalidMemorySize { line: index }),
            }
        }
    } else {
        match instruction(
            uppercase_of(parts[0]),
            if parts.len() > 1 {
                Some(parts[1])
            } else {
                None
            },
            index,
        ) {
            Ok(found) => Ok(Statement::Code(found)),
            Err(error) => Err(error),
        }
    }
}

/// The instructions and the memory size that the first `count` of `all`
/// lines give, or the error of the first line that is wrong.
pub open spec fn parsed_lines(all: Seq<Seq<char>>, count: int) -> Result<
    (Seq<Instruction>, usize),
    ParseError,
>
    decreases count,
{
    if count <= 0 {
        Ok((Seq::empty(), DEFAULT_MEMORY_SIZE))
    } else {
        match parsed_lines(all, count - 1) {
            Err(error) => Err(error),
            Ok((instructions, memory_size)) => match statement(
                all[count - 1],
                (count - 1) as usize,
            ) {
                Err(error) => Err(error),
                Ok(Statement::Nothing) => Ok((instructions, memory_size)),
                Ok(Statement::Memory(size)) => Ok((instructions, size)),
                Ok(Statement::Code(found)) => Ok((instructions.push(found), memory_size)),
            },
        }
    }
}

/// The program that `text` writes: its instructions and its memory size.
pub open spec fn parsed(text: Seq<char>) -> Result<(Seq<Instruction>, usize), ParseError> {
    parsed_lines(lines(text), lines(text).len() as int)
}

/// Once a line is wrong, the lines after it change nothing.
pub proof fn lemma_first_error_stands(all: Seq<Seq<char>>, count: int, more: int)
    requires
        parsed_lines(all, count) is Err,
        count <= more,
    ensures
        parsed_lines(all, more) == parsed_lines(all, count),
    decreases more - count,
{
    if count < more {
        lemma_first_error_stands(all, count, more - 1);
    }
}

/// The upper case of `word`. This calls `str::to_uppercase` of the standard
/// library on the characters of `word` and is not verified: the contract
/// takes the word of the library's documentation that the result is the
/// upper case of the argument, and names it `uppercase_of`.
#[verifier::external_body]
fn uppercase(word: &Vec<char>) -> (r: Vec<char>)
    ensures
        r@ == uppercase_of(word@),
{
    let text: String = word.iter().collect();
    text.to_uppercase().chars().collect()
}

/// Whether `word` holds exactly the characters of `text`.
fn is_word(word: &Vec<char>, text: &str) -> (r: bool)
    ensures
        r == (word@ == text@),
{
    let other = chars_of(text);
    if word.len() != other.len() {
        return false;
    }
    let mut i: usize = 0;
    while i < word.len()
        invariant
            i <= word.len(),
            word.len() == other.len(),
            other@ == text@,
            forall|k: int| 0 <= k < i ==> word@[k] == other@[k],
        decreases word.len() - i,
    {
        if word[i] != other[i] {
            return false;
        }
        i = i + 1;
    }
    assert(word@ =~= other@);
    true
}

/// The operation kind that `upper` is the mnemonic of.
fn keyword_of(upper: &Vec<char>) -> (r: Option<OpCode>)
    ensures
        r == keyword(upper@),
{
    if is_word(upper, "PUSH_INT") {
        Some(OpCode::PushInt)
    } else if is_word(upper, "PUSH_REG") {
        Some(OpCode::PushReg)
    } else if is_word(upper, "POP") {
        Some(OpCode::Pop)
    } else if is_word(upper, "ADD") {
        Some(OpCode::Add)
    } else if is_word(upper, "SUB") {
        Some(OpCode::Sub)
    } else if is_word(upper, "MUL") {
        Some(OpCode::Mul)
    } else if is_word(upper, "DIV") {
        Some(OpCode::Div)
    } else if is_word(upper, "EQ") {
        Some(OpCode::Eq)
    } else if is_word(upper, "LT") {
        Some(OpCode::Lt)
    } else if is_word(upper, "GT") {
        Some(OpCode::Gt)
    } else if is_word(upper, "JUMP") {
        Some(OpCode::Jump)
    } else if is_word(upper, "JUMP_IF_ZERO") {
        Some(OpCode::JumpIfZero)
    } else if is_word(upper, "JUMP_IF_NOT_ZERO") {
        Some(OpCode::JumpIfNotZero)
    } else if is_word(upper, "LOAD") {
        Some(OpCode::Load)
    } else if is_word(upper, "STORE") {
        Some(OpCode::Store)
    } else if is_word(upper, "CALL_NATIVE") {
        Some(OpCode::CallNative)
    } else if is_word(upper, "RETURN") {
        Some(OpCode::Return)
    } else if is_word(upper, "HALT") {
        Some(OpCode::Halt)
    } else {
        None
    }
}

/// Whether `word` starts with `.memory`.
fn starts_directive(word: &Vec<char>) -> (r: bool)
    ensures
        r == is_directive(word@),
{
    let prefix = chars_of(".memory");
    proof {
        reveal_strlit(".memory");
    }
    if word.len() < 7 {
        return false;
    }
    let mut i: usize = 0;
    while i < 7
        invariant
            i <= 7,
            word.len() >= 7,
            prefix@ == ".memory"@,
            prefix@.len() == 7,
            forall|k: int| 0 <= k < i ==> word@[k] == prefix@[k],
        decreases 7 - i,
    {
        if word[i] != prefix[i] {
            assert(word@.subrange(0, 7)[i as int] != prefix@[i as int]);
            return false;
        }
        i = i + 1;
    }
    assert(word@.subrange(0, 7) =~= prefix@);
    true
}

/// A parser for the text format of programs.
pub struct Parser;

impl Parser {
    /// The instruction that a mnemonic, already in upper case, and the word
    /// after it write on line `line`.
    pub fn instruction(upper: &Vec<char>, operand: Option<&Vec<char>>, line: usize) -> (r: Result<
        Instruction,
        ParseError,
    >)
        ensures
            r == instruction(
                upper@,
                match operand {
                    Some(word) => Some(word@),
                    None => None,
                },
                line,
            ),
    {
        let kind = match keyword_of(upper) {
            Some(kind) => kind,
            None => {
                return Err(ParseError::UnknownInstruction { line });
            },
        };
        let (min, max): (i128, i128) = match kind {
            OpCode::PushInt => (i64::MIN as i128, i64::MAX as i128),
            OpCode::PushReg => (0, u8::MAX as i128),
            OpCode::Jump
            | OpCode::JumpIfZero
            | OpCode::JumpIfNotZero
            | OpCode::Load
            | OpCode::Store => (0, usize::MAX as i128),
            OpCode::CallNative => (0, u32::MAX as i128),
            OpCode::Pop => {
                return Ok(Instruction::Pop);
            },
            OpCode::Add => {
                return Ok(Instruction::Add);
            },
            OpCode::Sub => {
                return Ok(Instruction::Sub);
            },
            OpCode::Mul => {
                return Ok(Instruction::Mul);
            },
            OpCode::Div => {
                return Ok(Instruction::Div);
            },
            OpCode::Eq => {
                return Ok(Instruction::Eq);
            },
            OpCode::Lt => {
                return Ok(Instruction::Lt);
            },
            OpCode::Gt => {
                return Ok(Instruction::Gt);
            },
            OpCode::Return => {
                return Ok(Instruction::Return);
            },
            OpCode::Halt => {
                return Ok(Instruction::Halt);
            },
        };
        let word = match operand {
            Some(word) => word,
            None => {
                return Err(ParseError::MissingOperand { line, kind });
            },
        };
        let value = match parse_integer(word, min, max) {
            Some(value) => value,
            None => {
                return Err(ParseError::InvalidOperand { line, kind });
            },
        };
        Ok(
            match kind {
                OpCode::PushInt => Instruction::PushInt(value as i64),
                OpCode::PushReg => Instruction::PushReg(value as u8),
                OpCode::Jump => Instruction::Jump(value as usize),
                OpCode::JumpIfZero => Instruction::JumpIfZero(value as usize),
                OpCode::JumpIfNotZero => Instruction::JumpIfNotZero(value as usize),
                OpCode::Load => Instruction::Load(value as usize),
                OpCode::Store => Instruction::Store(value as usize),
                _ => Instruction::CallNative(value as u32),
            },
        )
    }

    /// What the line `line`, at index `index`, says.
    pub fn parse_line(line: &Vec<char>, index: usize) -> (r: Result<Statement, ParseError>)
        ensures
            r == statement(line@, index),
    {
        let parts = split_words(line);
        if parts.len() == 0 {
            return Ok(Statement::Nothing);
        }
        assert(texts(parts@)[0] == parts@[0]@);
        proof {
            lemma_words_are_not_empty(line@, 0);
        }
        if parts[0][0] == '#' {
            return Ok(Statement::Nothing);
        }
        if starts_directive(&parts[0]) {
            if parts.len() != 2 {
                return Ok(Statement::Nothing);
            }
            assert(texts(parts@)[1] == parts@[1]@);
            return match parse_integer(&parts[1], 0, usize::MAX as i128) {
                Some(size) => Ok(Statement::Memory(size as usize)),
                None => Err(ParseError::InvalidMemorySize { line: index }),
            };
        }
        let upper = uppercase(&parts[0]);
        let operand = if parts.len() > 1 {
            assert(texts(parts@)[1] == parts@[1]@);
            Some(&parts[1])
        } else {
            None
        };
        match Self::instruction(&upper, operand, index) {
            Ok(found) => Ok(Statement::Code(found)),
            Err(error) => Err(error),
        }
    }

    /// Parses the text of a program.
    pub fn parse(content: &str) -> (r: Result<Program, ParseError>)
        ensures
            match r {
                Ok(program) => parsed(content@) == Ok::<(Seq<Instruction>, usize), ParseError>(
                    (program.instructions@, program.memory_size),
                ),
                Err(error) => parsed(content@) == Err::<(Seq<Instruction>, usize), ParseError>(
                    error,
                ),
            },
    {
        let text = chars_of(content);
        let all = split_lines(&text);
        let mut instructions: Vec<Instruction> = Vec::new();
        let mut memory_size: usize = DEFAULT_MEMORY_SIZE;
        let mut index: usize = 0;
        while index < all.len()
            invariant
                index <= all.len(),
                texts(all@) == lines(content@),
                parsed_lines(texts(all@), index as int) == Ok::<
                    (Seq<Instruction>, usize),
                    ParseError,
                >((instructions@, memory_size)),
            decreases all.len() - index,
        {
            assert(texts(all@)[index as int] == all@[index as int]@);
            match Self::parse_line(&all[index], index) {
                Ok(Statement::Nothing) => {},
                Ok(Statement::Memory(size)) => {
                    memory_size = size;
                },
                Ok(Statement::Code(found)) => {
                    instructions.push(found);
                },
                Err(error) => {
                    proof {
                        lemma_first_error_stands(texts(all@), index + 1, all@.len() as int);
                    }
                    return Err(error);
                },
            }
            index = index + 1;
        }
        Ok(Program::new(instructions, memory_size))
    }
}

} // verus!

//! Word boundaries inside one row.
//!
//! Every character belongs to one of four classes. A jump looks at the
//! character next to the starting column in the direction of travel and
//! consumes a token of that class: a maximal run of word characters, a single
//! quote, a maximal run of symbols, or, depending on the mode, whitespace.
//! A jump never leaves the row.

use vstd::prelude::*;
use crate::std_specs::{char_is_alphanumeric, is_ascii_space};

verus! {

/// The class a character has for word jumps.
#[derive(PartialEq, Eq, Structural, Debug, Clone, Copy)]
pub enum CharClass {
    /// Alphanumeric or underscore.
    Word,
    /// The double quote, a token of exactly one column.
    Quote,
    /// Anything that is neither word, quote nor whitespace.
    Symbol,
    /// ASCII whitespace.
    Space,
}

/// What a jump does when it meets whitespace.
#[derive(PartialEq, Eq, Structural, Debug, Clone, Copy)]
pub enum JumpMode {
    /// Step over each whitespace character and go on to the token behind it.
    IgnoreWhitespaces,
    /// Take the whole run of whitespace as one token.
    ConsiderWhitespaces,
    /// Stop in front of whitespace.
    BlockOnWhitespace,
}

/// The class of `c`, given whether `c` is alphanumeric.
pub open spec fn class_from(c: char, alphanumeric: bool) -> CharClass {
    if alphanumeric || c == '_' {
        CharClass::Word
    } else if c == '"' {
        CharClass::Quote
    } else if !is_ascii_space(c) {
        CharClass::Symbol
    } else {
        CharClass::Space
    }
}

/// The class of `c`.
pub open spec fn class_of(c: char) -> CharClass {
    class_from(c, char_is_alphanumeric(c))
}

/// The end of the maximal run of class `k` that starts at `from`: the first
/// column at or after `from` that holds no character of class `k`.
pub open spec fn run_end(line: Seq<char>, from: int, k: CharClass) -> int
    decreases line.len() - from,
{
    if 0 <= from < line.len() && class_of(line[from]) == k {
        run_end(line, from + 1, k)
    } else {
        from
    }
}

/// The start of the maximal run of class `k` that ends at `from`: the last
/// column at or before `from` that has no character of class `k` in front.
pub open spec fn run_start(line: Seq<char>, from: int, k: CharClass) -> int
    decreases from,
{
    if 0 < from <= line.len() && class_of(line[from - 1]) == k {
        run_start(line, from - 1, k)
    } else {
        from
    }
}

/// The column a forward jump from `col` reaches.
pub open spec fn jump_forward_col(line: Seq<char>, col: int, mode: JumpMode) -> int
    decreases line.len() - col,
{
    if col < 0 || col >= line.len() {
        col
    } else {
        match class_of(line[col]) {
            CharClass::Word => run_end(line, col, CharClass::Word),
            CharClass::Quote => col + 1,
            CharClass::Symbol => run_end(line, col, CharClass::Symbol),
            CharClass::Space => match mode {
                JumpMode::IgnoreWhitespaces => jump_forward_col(line, col + 1, mode),
                JumpMode::ConsiderWhitespaces => run_end(line, col, CharClass::Space),
                JumpMode::BlockOnWhitespace => col,
            },
        }
    }
}

/// The column a backward jump from `col` reaches.
pub open spec fn jump_backward_col(line: Seq<char>, col: int, mode: JumpMode) -> int
    decreases col,
{
    if col <= 0 || col > line.len() {
        col
    } else {
        match class_of(line[col - 1]) {
            CharClass::Word => run_start(line, col, CharClass::Word),
            CharClass::Quote => col - 1,
            CharClass::Symbol => run_start(line, col, CharClass::Symbol),
            CharClass::Space => match mode {
                JumpMode::IgnoreWhitespaces => jump_backward_col(line, col - 1, mode),
                JumpMode::ConsiderWhitespaces => run_start(line, col, CharClass::Space),
                JumpMode::BlockOnWhitespace => col,
            },
        }
    }
}

/// A run ends inside the row, holds only characters of its class, and is
/// followed by a character of another class or by the end of the row.
pub proof fn lemma_run_end(line: Seq<char>, from: int, k: CharClass)
    requires
        0 <= from <= line.len(),
    ensures
        from <= run_end(line, from, k) <= line.len(),
        forall|i: int| from <= i < run_end(line, from, k) ==> class_of(#[trigger] line[i]) == k,
        run_end(line, from, k) < line.len() ==> class_of(line[run_end(line, from, k)]) != k,
    decreases line.len() - from,
{
    if from < line.len() && class_of(line[from]) == k {
        lemma_run_end(line, from + 1, k);
    }
}

/// A run starts inside the row, holds only characters of its class, and is
/// preceded by a character of another class or by the start of the row.
pub proof fn lemma_run_start(line: Seq<char>, from: int, k: CharClass)
    requires
        0 <= from <= line.len(),
    ensures
        0 <= run_start(line, from, k) <= from,
        forall|i: int| run_start(line, from, k) <= i < from ==> class_of(#[trigger] line[i]) == k,
        run_start(line, from, k) > 0 ==> class_of(line[run_start(line, from, k) - 1]) != k,
    decreases from,
{
    if 0 < from && class_of(line[from - 1]) == k {
        lemma_run_start(line, from - 1, k);
    }
}

/// A forward jump never moves backward and never leaves the row.
pub proof fn lemma_jump_forward_bounds(line: Seq<char>, col: int, mode: JumpMode)
    requires
        0 <= col <= line.len(),
    ensures
        col <= jump_forward_col(line, col, mode) <= line.len(),
    decreases line.len() - col,
{
    if col < line.len() {
        lemma_run_end(line, col, class_of(line[col]));
        if class_of(line[col]) == CharClass::Space && mode == JumpMode::IgnoreWhitespaces {
            lemma_jump_forward_bounds(line, col + 1, mode);
        }
    }
}

/// A backward jump never moves forward and never leaves the row.
pub proof fn lemma_jump_backward_bounds(line: Seq<char>, col: int, mode: JumpMode)
    requires
        0 <= col <= line.len(),
    ensures
        0 <= jump_backward_col(line, col, mode) <= col,
    decreases col,
{
    if col > 0 {
        lemma_run_start(line, col, class_of(line[col - 1]));
        if class_of(line[col - 1]) == CharClass::Space && mode == JumpMode::IgnoreWhitespaces {
            lemma_jump_backward_bounds(line, col - 1, mode);
        }
    }
}

/// Classifies `c` from the answer to "is `c` alphanumeric?".
pub fn classify_with(c: char, alphanumeric: bool) -> (k: CharClass)
    ensures
        k == class_from(c, alphanumeric),
{
    if alphanumeric || c == '_' {
        CharClass::Word
    } else if c == '"' {
        CharClass::Quote
    } else if !c.is_ascii_whitespace() {
        CharClass::Symbol
    } else {
        CharClass::Space
    }
}

/// Classifies `c`.
pub fn classify(c: char) -> (k: CharClass)
    ensures
        k == class_of(c),
{
    classify_with(c, c.is_alphanumeric())
}

/// Walks forward from `from` over the run of class `k`.
pub fn scan_run_forward(line: &[char], from: usize, k: CharClass) -> (col: usize)
    requires
        from <= line@.len(),
    ensures
        col == run_end(line@, from as int, k),
        from <= col <= line@.len(),
{
    let len: usize = line.len();
    let mut col: usize = from;
    while col < len && classify(line[col]) == k
        invariant
            from <= col <= len,
            len == line@.len(),
            run_end(line@, col as int, k) == run_end(line@, from as int, k),
        decreases len - col,
    {
        col = col + 1;
    }
    col
}

/// Walks backward from `from` over the run of class `k`.
pub fn scan_run_backward(line: &[char], from: usize, k: CharClass) -> (col: usize)
    requires
        from <= line@.len(),
    ensures
        col == run_start(line@, from as int, k),
        col <= from,
{
    let mut col: usize = from;
    while col > 0 && classify(line[col - 1]) == k
        invariant
            col <= from <= line@.len(),
            run_start(line@, col as int, k) == run_start(line@, from as int, k),
        decreases col,
    {
        col = col - 1;
    }
    col
}

/// Jumps forward from `column` to the next word boundary of `line`.
pub fn jump_forward(line: &[char], column: usize, mode: JumpMode) -> (col: usize)
    requires
        column <= line@.len(),
    ensures
        col == jump_forward_col(line@, column as int, mode),
        column <= col <= line@.len(),
{
    proof {
        lemma_jump_forward_bounds(line@, column as int, mode);
    }
    let len: usize = line.len();
    let mut col: usize = column;
    while col < len
        invariant
            column <= col <= len,
            len == line@.len(),
            jump_forward_col(line@, col as int, mode) == jump_forward_col(
                line@,
                column as int,
                mode,
            ),
        decreases len - col,
    {
        match classify(line[col]) {
            CharClass::Word => {
                return scan_run_forward(line, col, CharClass::Word);
            },
            CharClass::Quote => {
                return col + 1;
            },
            CharClass::Symbol => {
                return scan_run_forward(line, col, CharClass::Symbol);
            },
            CharClass::Space => match mode {
                JumpMode::IgnoreWhitespaces => {
                    col = col + 1;
                },
                JumpMode::ConsiderWhitespaces => {
                    return scan_run_forward(line, col, CharClass::Space);
                },
                JumpMode::BlockOnWhitespace => {
                    return col;
                },
            },
        }
    }
    col
}

/// Jumps backward from `column` to the previous word boundary of `line`.
pub fn jump_backward(line: &[char], column: usize, mode: JumpMode) -> (col: usize)
    requires
        column <= line@.len(),
    ensures
        col == jump_backward_col(line@, column as int, mode),
        col <= column,
{
    let mut col: usize = column;
    while col > 0
        invariant
            col <= column <= line@.len(),
            jump_backward_col(line@, col as int, mode) == jump_backward_col(
                line@,
                column as int,
                mode,
            ),
        decreases col,
    {
        match classify(line[col - 1]) {
            CharClass::Word => {
                return scan_run_backward(line, col, CharClass::Word);
            },
            CharClass::Quote => {
                return col - 1;
            },
            CharClass::Symbol => {
                return scan_run_backward(line, col, CharClass::Symbol);
            },
            CharClass::Space => match mode {
                JumpMode::IgnoreWhitespaces => {
                    col = col - 1;
                },
                JumpMode::ConsiderWhitespaces => {
                    return scan_run_backward(line, col, CharClass::Space);
                },
                JumpMode::BlockOnWhitespace => {
                    return col;
                },
            },
        }
    }
    col
}

} // verus!

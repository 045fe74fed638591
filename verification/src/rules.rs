use vstd::prelude::*;

use crate::token::ErrorModel;
use crate::token::TokenModel;

verus! {

/// Whitespace the scanner skips silently (a newline is handled separately,
/// because it advances the line counter).
pub open spec fn is_blank(c: char) -> bool {
    c == ' ' || c == '\r' || c == '\t'
}

/// An ASCII decimal digit.
pub open spec fn is_digit_char(c: char) -> bool {
    '0' <= c && c <= '9'
}

/// How many newline characters `s` holds.
pub open spec fn newline_count(s: Seq<char>) -> nat
    decreases s.len(),
{
    if s.len() == 0 {
        0
    } else {
        newline_count(s.drop_last()) + if s.last() == '\n' {
            1nat
        } else {
            0nat
        }
    }
}

/// The position of the first occurrence of `target` in `s` at or after
/// `from`, or `s.len()` if there is none.
pub open spec fn find_from(s: Seq<char>, from: int, target: char) -> int
    decreases s.len() - from when 0 <= from
{
    if from >= s.len() {
        s.len() as int
    } else if s[from] == target {
        from
    } else {
        find_from(s, from + 1, target)
    }
}

/// The position just past the maximal run of ASCII digits starting at
/// `from`: the first position at or after `from` holding a non-digit, or
/// `s.len()` if digits run to the end.
pub open spec fn digit_run_end(s: Seq<char>, from: int) -> int
    decreases s.len() - from when 0 <= from
{
    if from >= s.len() {
        s.len() as int
    } else if is_digit_char(s[from]) {
        digit_run_end(s, from + 1)
    } else {
        from
    }
}

/// The outcome of classifying one token: the token produced (or the error
/// that aborted the scan), the position just past the characters the rule
/// consumed, and the line counter after that consumption.
pub struct ScanStep {
    pub result: Result<TokenModel, ErrorModel>,
    pub end: int,
    pub line: nat,
}

/// The single-token classification rule, applied at position `start` (which
/// must hold a character that is neither blank nor a newline) with the line
/// counter at `line`:
/// - `(` and `)` are single-character tokens on the current line;
/// - `!` joins a following `=` into `BangEqual`, else stands alone as `Bang`;
/// - `"` opens a string literal running to the next quote: the lexeme is the
///   text strictly between the quotes, the token's line is the line of the
///   closing quote, and a missing closing quote aborts the scan;
/// - `//` opens a line comment running through the terminating newline
///   (or to end of input), reported on the line the comment started;
///   a lone `/` is a `Slash`;
/// - a digit opens a number literal: a maximal digit run, optionally
///   followed by a dot and a further maximal (possibly empty) digit run;
/// - anything else aborts the scan as an unrecognized token.
pub open spec fn token_step(s: Seq<char>, start: int, line: nat) -> ScanStep
    recommends
        0 <= start < s.len(),
        !is_blank(s[start]),
        s[start] != '\n',
{
    let c = s[start];
    if c == '(' {
        ScanStep { result: Ok(TokenModel::LeftParen { line }), end: start + 1, line }
    } else if c == ')' {
        ScanStep { result: Ok(TokenModel::RightParen { line }), end: start + 1, line }
    } else if c == '!' {
        if start + 1 < s.len() && s[start + 1] == '=' {
            ScanStep { result: Ok(TokenModel::BangEqual { line }), end: start + 2, line }
        } else {
            ScanStep { result: Ok(TokenModel::Bang { line }), end: start + 1, line }
        }
    } else if c == '"' {
        let q = find_from(s, start + 1, '"');
        if q < s.len() {
            let close_line = line + newline_count(s.subrange(start + 1, q));
            ScanStep {
                result: Ok(
                    TokenModel::String { line: close_line, lexeme: s.subrange(start + 1, q) },
                ),
                end: q + 1,
                line: close_line,
            }
        } else {
            ScanStep {
                result: Err(ErrorModel::NoStringDelimiterFound),
                end: s.len() as int,
                line: line + newline_count(s.subrange(start + 1, s.len() as int)),
            }
        }
    } else if c == '/' {
        if start + 1 < s.len() && s[start + 1] == '/' {
            let k = find_from(s, start + 2, '\n');
            if k < s.len() {
                ScanStep {
                    result: Ok(TokenModel::Comment { line, lexeme: s.subrange(start, k + 1) }),
                    end: k + 1,
                    line: line + 1,
                }
            } else {
                ScanStep {
                    result: Ok(
                        TokenModel::Comment { line, lexeme: s.subrange(start, s.len() as int) },
                    ),
                    end: s.len() as int,
                    line,
                }
            }
        } else {
            ScanStep { result: Ok(TokenModel::Slash), end: start + 1, line }
        }
    } else if is_digit_char(c) {
        let e1 = digit_run_end(s, start + 1);
        if e1 < s.len() && s[e1] == '.' {
            let e2 = digit_run_end(s, e1 + 1);
            ScanStep {
                result: Ok(TokenModel::Number { line, lexeme: s.subrange(start, e2) }),
                end: e2,
                line,
            }
        } else {
            ScanStep {
                result: Ok(TokenModel::Number { line, lexeme: s.subrange(start, e1) }),
                end: e1,
                line,
            }
        }
    } else {
        ScanStep { result: Err(ErrorModel::UnrecognizedToken { line }), end: start + 1, line }
    }
}

/// The token sequence of `s` from position `pos` on, with the line counter
/// at `line`: blanks are skipped, newlines advance the line counter, and any
/// other character is classified by [`token_step`].  The first error aborts
/// the whole scan.
///
/// The bounds test on `step.end` only justifies termination;
/// [`lemma_token_step_bounds`] shows it never fails.
pub open spec fn scan_from(s: Seq<char>, pos: int, line: nat) -> Result<Seq<TokenModel>, ErrorModel>
    decreases s.len() - pos when 0 <= pos
{
    if pos >= s.len() {
        Ok(Seq::empty())
    } else if is_blank(s[pos]) {
        scan_from(s, pos + 1, line)
    } else if s[pos] == '\n' {
        scan_from(s, pos + 1, line + 1)
    } else {
        let step = token_step(s, pos, line);
        match step.result {
            Err(e) => Err(e),
            Ok(t) => if pos < step.end <= s.len() {
                match scan_from(s, step.end, step.line) {
                    Ok(rest) => Ok(seq![t] + rest),
                    Err(e) => Err(e),
                }
            } else {
                Err(ErrorModel::NoStringDelimiterFound)
            },
        }
    }
}

/// The token sequence of a whole source text: what
/// [`crate::scanner::Scanner::scan`] returns on a fresh scanner.
pub open spec fn scan_chars(s: Seq<char>) -> Result<Seq<TokenModel>, ErrorModel> {
    scan_from(s, 0, 0)
}

/// A sequence never holds more newlines than characters.
pub proof fn lemma_newline_count_le_len(s: Seq<char>)
    ensures
        newline_count(s) <= s.len(),
    decreases s.len(),
{
    if s.len() > 0 {
        lemma_newline_count_le_len(s.drop_last());
    }
}

/// Extending a slice of `s` one character to the right adds one to its
/// newline count exactly when that character is a newline.
pub proof fn lemma_newline_count_extend(s: Seq<char>, from: int, to: int)
    requires
        0 <= from <= to < s.len(),
    ensures
        newline_count(s.subrange(from, to + 1)) == newline_count(s.subrange(from, to)) + if s[to]
            == '\n' {
            1nat
        } else {
            0nat
        },
{
    assert(s.subrange(from, to + 1).drop_last() =~= s.subrange(from, to));
    assert(s.subrange(from, to + 1).last() == s[to]);
}

/// What [`find_from`] returns: a position between `from` and the end, holding
/// `target` unless it is the end, with no earlier occurrence.
pub proof fn lemma_find_from(s: Seq<char>, from: int, target: char)
    requires
        0 <= from <= s.len(),
    ensures
        from <= find_from(s, from, target) <= s.len(),
        find_from(s, from, target) < s.len() ==> s[find_from(s, from, target)] == target,
        forall|j: int| from <= j < find_from(s, from, target) ==> s[j] != target,
    decreases s.len() - from,
{
    if from < s.len() && s[from] != target {
        lemma_find_from(s, from + 1, target);
    }
}

/// A position with no `target` before it, and `target` on it unless it is
/// the end, is exactly what [`find_from`] returns.
pub proof fn lemma_find_from_is(s: Seq<char>, from: int, target: char, k: int)
    requires
        0 <= from <= k <= s.len(),
        forall|j: int| from <= j < k ==> s[j] != target,
        k < s.len() ==> s[k] == target,
    ensures
        find_from(s, from, target) == k,
    decreases k - from,
{
    if from < k {
        lemma_find_from_is(s, from + 1, target, k);
    }
}

/// What [`digit_run_end`] returns: a position between `from` and the end,
/// with digits everywhere before it (from `from` on) and a non-digit on it
/// unless it is the end.
pub proof fn lemma_digit_run_end(s: Seq<char>, from: int)
    requires
        0 <= from <= s.len(),
    ensures
        from <= digit_run_end(s, from) <= s.len(),
        digit_run_end(s, from) < s.len() ==> !is_digit_char(s[digit_run_end(s, from)]),
        forall|j: int| from <= j < digit_run_end(s, from) ==> is_digit_char(s[j]),
    decreases s.len() - from,
{
    if from < s.len() && is_digit_char(s[from]) {
        lemma_digit_run_end(s, from + 1);
    }
}

/// A position with digits everywhere before it (from `from` on) and a
/// non-digit on it unless it is the end, is exactly what [`digit_run_end`]
/// returns.
pub proof fn lemma_digit_run_end_is(s: Seq<char>, from: int, e: int)
    requires
        0 <= from <= e <= s.len(),
        forall|j: int| from <= j < e ==> is_digit_char(s[j]),
        e < s.len() ==> !is_digit_char(s[e]),
    ensures
        digit_run_end(s, from) == e,
    decreases e - from,
{
    if from < e {
        lemma_digit_run_end_is(s, from + 1, e);
    }
}

/// Each token rule consumes at least one character, never reads past the
/// end, and advances the line counter by at most the number of characters it
/// consumed.
pub proof fn lemma_token_step_bounds(s: Seq<char>, start: int, line: nat)
    requires
        0 <= start < s.len(),
        !is_blank(s[start]),
        s[start] != '\n',
    ensures
        start < token_step(s, start, line).end <= s.len(),
        token_step(s, start, line).line + (s.len() - token_step(s, start, line).end) <= line + (
        s.len() - start),
{
    let c = s[start];
    if c == '"' {
        lemma_find_from(s, start + 1, '"');
        let q = find_from(s, start + 1, '"');
        if q < s.len() {
            lemma_newline_count_le_len(s.subrange(start + 1, q));
        } else {
            lemma_newline_count_le_len(s.subrange(start + 1, s.len() as int));
        }
    } else if c == '/' {
        if start + 1 < s.len() && s[start + 1] == '/' {
            lemma_find_from(s, start + 2, '\n');
        }
    } else if is_digit_char(c) {
        lemma_digit_run_end(s, start + 1);
        let e1 = digit_run_end(s, start + 1);
        if e1 < s.len() && s[e1] == '.' {
            lemma_digit_run_end(s, e1 + 1);
        }
    }
}

} // verus!

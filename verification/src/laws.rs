use vstd::prelude::*;

use crate::rules;
use crate::token::ErrorModel;
use crate::token::TokenModel;

verus! {

/// Helper for [`lemma_scan_whitespace_empty`]: from any position of a source
/// made only of blanks and newlines, the scan yields no token.
proof fn lemma_scan_blank_from(s: Seq<char>, pos: int, line: nat)
    requires
        0 <= pos <= s.len(),
        forall|i: int| 0 <= i < s.len() ==> rules::is_blank(s[i]) || s[i] == '\n',
    ensures
        rules::scan_from(s, pos, line) == Ok::<Seq<TokenModel>, ErrorModel>(
            Seq::<TokenModel>::empty(),
        ),
    decreases s.len() - pos,
{
    if pos < s.len() {
        if rules::is_blank(s[pos]) {
            lemma_scan_blank_from(s, pos + 1, line);
        } else {
            lemma_scan_blank_from(s, pos + 1, line + 1);
        }
    }
}

/// A source text holding only whitespace (blanks and newlines) scans to an
/// empty token sequence, with no error.
pub proof fn lemma_scan_whitespace_empty(s: Seq<char>)
    requires
        forall|i: int| 0 <= i < s.len() ==> rules::is_blank(s[i]) || s[i] == '\n',
    ensures
        rules::scan_chars(s) == Ok::<Seq<TokenModel>, ErrorModel>(Seq::<TokenModel>::empty()),
{
    lemma_scan_blank_from(s, 0, 0);
}

/// A balanced string literal with no quote in its body scans to exactly one
/// string token: the lexeme is the body itself, character for character
/// (embedded newlines included), and the reported line is the line of the
/// closing quote — the number of newlines in the body.
pub proof fn lemma_string_literal_token(body: Seq<char>)
    requires
        forall|i: int| 0 <= i < body.len() ==> body[i] != '"',
    ensures
        rules::scan_chars(seq!['"'] + body + seq!['"']) == Ok::<Seq<TokenModel>, ErrorModel>(
            seq![TokenModel::String { line: rules::newline_count(body), lexeme: body }],
        ),
{
    let s = seq!['"'] + body + seq!['"'];
    let q = body.len() + 1 as int;
    assert(s.len() == body.len() + 2);
    assert(s[0] == '"');
    assert(forall|j: int| 1 <= j < q ==> s[j] == body[j - 1]);
    assert(s[q] == '"');
    rules::lemma_find_from_is(s, 1, '"', q);
    assert(s.subrange(1, q) =~= body);
    let t = TokenModel::String { line: rules::newline_count(body), lexeme: body };
    let step = rules::token_step(s, 0, 0);
    assert(step.result == Ok::<TokenModel, ErrorModel>(t));
    assert(step.end == s.len());
    assert(rules::scan_from(s, step.end, step.line) == Ok::<Seq<TokenModel>, ErrorModel>(
        Seq::<TokenModel>::empty(),
    ));
    assert(seq![t] + Seq::<TokenModel>::empty() =~= seq![t]);
}

/// A source text that is one non-empty run of ASCII digits scans to a
/// single number token whose lexeme is the whole text.
pub proof fn lemma_number_literal(s: Seq<char>)
    requires
        s.len() > 0,
        forall|i: int| 0 <= i < s.len() ==> rules::is_digit_char(s[i]),
    ensures
        rules::scan_chars(s) == Ok::<Seq<TokenModel>, ErrorModel>(
            seq![TokenModel::Number { line: 0, lexeme: s }],
        ),
{
    rules::lemma_digit_run_end_is(s, 1, s.len() as int);
    assert(s.subrange(0, s.len() as int) =~= s);
    let t = TokenModel::Number { line: 0, lexeme: s };
    assert(rules::scan_from(s, s.len() as int, 0) == Ok::<Seq<TokenModel>, ErrorModel>(
        Seq::<TokenModel>::empty(),
    ));
    assert(seq![t] + Seq::<TokenModel>::empty() =~= seq![t]);
}

/// Once the scan reaches an opening quote that no closing quote ever
/// follows, it fails with `NoStringDelimiterFound` — whatever the
/// unterminated literal holds, and wherever in the source it begins.
pub proof fn lemma_unterminated_string(s: Seq<char>, pos: int, line: nat)
    requires
        0 <= pos < s.len(),
        s[pos] == '"',
        forall|j: int| pos < j < s.len() ==> s[j] != '"',
    ensures
        rules::scan_from(s, pos, line) == Err::<Seq<TokenModel>, ErrorModel>(
            ErrorModel::NoStringDelimiterFound,
        ),
{
    rules::lemma_find_from_is(s, pos + 1, '"', s.len() as int);
}

/// A line comment terminated by a newline yields a `Comment` token whose
/// lexeme runs from the first slash through the terminating newline
/// inclusive, and whose reported line is the line the comment started on;
/// the line counter then stands one higher for what follows.
pub proof fn lemma_line_comment(s: Seq<char>, pos: int, line: nat)
    requires
        0 <= pos,
        pos + 1 < s.len(),
        s[pos] == '/',
        s[pos + 1] == '/',
        exists|k: int| pos + 2 <= k < s.len() && s[k] == '\n',
    ensures
        ({
            let k = rules::find_from(s, pos + 2, '\n');
            let lexeme = s.subrange(pos, k + 1);
            &&& k < s.len()
            &&& lexeme.len() >= 3
            &&& lexeme[0] == '/'
            &&& lexeme[1] == '/'
            &&& lexeme.last() == '\n'
            &&& rules::scan_from(s, pos, line) == (match rules::scan_from(s, k + 1, line + 1) {
                Ok(rest) => Ok::<Seq<TokenModel>, ErrorModel>(
                    seq![TokenModel::Comment { line, lexeme }] + rest,
                ),
                Err(e) => Err::<Seq<TokenModel>, ErrorModel>(e),
            })
        }),
{
    rules::lemma_find_from(s, pos + 2, '\n');
    let k = rules::find_from(s, pos + 2, '\n');
    if k >= s.len() {
        let kk = choose|kk: int| pos + 2 <= kk < s.len() && s[kk] == '\n';
        assert(s[kk] != '\n');
        assert(false);
    }
    rules::lemma_token_step_bounds(s, pos, line);
}

/// A character that always forms a complete single-character token when the
/// next character is a newline (or the input ends there).
pub open spec fn is_simple_char(c: char) -> bool {
    c == '(' || c == ')' || c == '!' || c == '/' || rules::is_digit_char(c)
}

/// The token such a character forms on the given line.
pub open spec fn simple_token(c: char, line: nat) -> TokenModel {
    if c == '(' {
        TokenModel::LeftParen { line }
    } else if c == ')' {
        TokenModel::RightParen { line }
    } else if c == '!' {
        TokenModel::Bang { line }
    } else if c == '/' {
        TokenModel::Slash
    } else {
        TokenModel::Number { line, lexeme: seq![c] }
    }
}

/// Helper: at a simple character followed by a newline (or the end of
/// input), the token rule consumes exactly that character and yields its
/// single-character token on the current line.
proof fn lemma_simple_step(s: Seq<char>, p: int, line: nat)
    requires
        0 <= p < s.len(),
        is_simple_char(s[p]),
        p + 1 < s.len() ==> s[p + 1] == '\n',
    ensures
        rules::token_step(s, p, line).result == Ok::<TokenModel, ErrorModel>(
            simple_token(s[p], line),
        ),
        rules::token_step(s, p, line).end == p + 1,
        rules::token_step(s, p, line).line == line,
{
    if rules::is_digit_char(s[p]) {
        rules::lemma_digit_run_end_is(s, p + 1, p + 1);
        assert(s.subrange(p, p + 1) =~= seq![s[p]]);
    }
}

/// Line counting: with one single-character token on each of the first two
/// lines, whatever is reported for the character on the third line — its
/// token, or the unrecognized-token error — carries line number 2.
pub proof fn lemma_line_counting(a: char, b: char, c: char)
    requires
        is_simple_char(a),
        is_simple_char(b),
        !rules::is_blank(c),
        c != '\n',
        c != '"',
    ensures
        is_simple_char(c) ==> rules::scan_chars(seq![a, '\n', b, '\n', c]) == Ok::<
            Seq<TokenModel>,
            ErrorModel,
        >(seq![simple_token(a, 0), simple_token(b, 1), simple_token(c, 2)]),
        !is_simple_char(c) ==> rules::scan_chars(seq![a, '\n', b, '\n', c]) == Err::<
            Seq<TokenModel>,
            ErrorModel,
        >(ErrorModel::UnrecognizedToken { line: 2 }),
{
    let s = seq![a, '\n', b, '\n', c];
    lemma_simple_step(s, 0, 0);
    lemma_simple_step(s, 2, 1);
    assert(rules::scan_from(s, 1, 0) == rules::scan_from(s, 2, 1));
    assert(rules::scan_from(s, 3, 1) == rules::scan_from(s, 4, 2));
    if is_simple_char(c) {
        lemma_simple_step(s, 4, 2);
        assert(rules::scan_from(s, 5, 2) == Ok::<Seq<TokenModel>, ErrorModel>(
            Seq::<TokenModel>::empty(),
        ));
        let t0 = simple_token(a, 0);
        let t1 = simple_token(b, 1);
        let t2 = simple_token(c, 2);
        assert(rules::scan_from(s, 4, 2) == Ok::<Seq<TokenModel>, ErrorModel>(
            seq![t2] + Seq::<TokenModel>::empty(),
        ));
        assert(seq![t1] + (seq![t2] + Seq::<TokenModel>::empty()) =~= seq![t1, t2]);
        assert(seq![t0] + seq![t1, t2] =~= seq![t0, t1, t2]);
    }
}

} // verus!

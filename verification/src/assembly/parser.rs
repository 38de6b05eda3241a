use super::ast::{arg_tokens, args_new, args_push, Line, Token};
use super::error::AsmError;
use crate::isa::MAX_ARGS;
use crate::text::{
    find_line_end, lemma_ascii_boundary, lemma_line_end, line_end, line_stop, slice,
};
use vstd::prelude::*;
use vstd::string::StringSliceAdditionalSpecFns;
use vstd::utf8::encode_utf8_valid_utf8;

verus! {

/// ASCII whitespace: space, tab, line feed, form feed, carriage return.
pub open spec fn is_space(byte: u8) -> bool {
    byte == 0x20 || byte == 0x09 || byte == 0x0A || byte == 0x0C || byte == 0x0D
}

/// `;`, `/` and `#` begin a comment.
pub open spec fn starts_comment(byte: u8) -> bool {
    byte == 0x3B || byte == 0x2F || byte == 0x23
}

/// `'` and `"`.
pub open spec fn is_quote(byte: u8) -> bool {
    byte == 0x27 || byte == 0x22
}

/// The first position from `from` on at which a comment begins, or the
/// line's length where none does.
pub open spec fn code_end(line: Seq<u8>, from: int) -> int
    decreases line.len() - from,
{
    if from >= line.len() {
        line.len() as int
    } else if starts_comment(line[from]) {
        from
    } else {
        code_end(line, from + 1)
    }
}

/// The first position from `from` on, below `end`, that holds no
/// whitespace, or `end`.
pub open spec fn skip_spaces(line: Seq<u8>, from: int, end: int) -> int
    decreases end - from,
{
    if from >= end {
        end
    } else if !is_space(line[from]) {
        from
    } else {
        skip_spaces(line, from + 1, end)
    }
}

/// The first position from `from` on, below `end`, that holds whitespace,
/// or `end`.
pub open spec fn skip_word(line: Seq<u8>, from: int, end: int) -> int
    decreases end - from,
{
    if from >= end {
        end
    } else if is_space(line[from]) {
        from
    } else {
        skip_word(line, from + 1, end)
    }
}

/// Where the token that begins at `start` ends. A quote, some whitespace
/// and the same quote again are one token; any other token runs up to the
/// next whitespace.
pub open spec fn token_end(line: Seq<u8>, start: int, end: int) -> int {
    let close = skip_spaces(line, start + 1, end);
    if is_quote(line[start]) && start + 1 < close < end && line[close] == line[start] {
        close + 1
    } else {
        skip_word(line, start, end)
    }
}

/// Skipping whitespace ends within the code, at a byte that is no
/// whitespace or at the code's end, and passes whitespace only.
pub proof fn lemma_skip_spaces(line: Seq<u8>, from: int, end: int)
    requires
        0 <= from <= end <= line.len(),
    ensures
        from <= skip_spaces(line, from, end) <= end,
        skip_spaces(line, from, end) < end ==> !is_space(line[skip_spaces(line, from, end)]),
        forall|i: int| from <= i < skip_spaces(line, from, end) ==> is_space(#[trigger] line[i]),
    decreases end - from,
{
    if from < end && is_space(line[from]) {
        lemma_skip_spaces(line, from + 1, end);
    }
}

/// Skipping a word ends within the code, at whitespace or at the code's
/// end, and passes no whitespace.
pub proof fn lemma_skip_word(line: Seq<u8>, from: int, end: int)
    requires
        0 <= from <= end <= line.len(),
    ensures
        from <= skip_word(line, from, end) <= end,
        skip_word(line, from, end) < end ==> is_space(line[skip_word(line, from, end)]),
        forall|i: int| from <= i < skip_word(line, from, end) ==> !is_space(#[trigger] line[i]),
        from < end && !is_space(line[from]) ==> from < skip_word(line, from, end),
    decreases end - from,
{
    if from < end && !is_space(line[from]) {
        lemma_skip_word(line, from + 1, end);
    }
}

/// The code ends within the line, at the first byte that begins a comment
/// or at the line's end.
pub proof fn lemma_code_end(line: Seq<u8>, from: int)
    requires
        0 <= from <= line.len(),
    ensures
        from <= code_end(line, from) <= line.len(),
        code_end(line, from) < line.len() ==> starts_comment(line[code_end(line, from)]),
        forall|i: int| from <= i < code_end(line, from) ==> !starts_comment(#[trigger] line[i]),
    decreases line.len() - from,
{
    if from < line.len() && !starts_comment(line[from]) {
        lemma_code_end(line, from + 1);
    }
}

/// A token that begins at a byte that is no whitespace is not empty and
/// ends within the code.
pub proof fn lemma_token_end(line: Seq<u8>, start: int, end: int)
    requires
        0 <= start < end <= line.len(),
        !is_space(line[start]),
    ensures
        start < token_end(line, start, end) <= end,
{
    lemma_skip_spaces(line, start + 1, end);
    lemma_skip_word(line, start, end);
}

/// The tokens of the code from `from` up to `end`, each as the position of
/// its first byte and the position after its last.
pub open spec fn spans(line: Seq<u8>, from: int, end: int) -> Seq<(int, int)>
    decreases end - from,
{
    let start = skip_spaces(line, from, end);
    if 0 <= from <= start < end <= line.len() && start < token_end(line, start, end) <= end {
        seq![(start, token_end(line, start, end))] + spans(
            line,
            token_end(line, start, end),
            end,
        )
    } else {
        Seq::empty()
    }
}

/// What the lexer finds in a line: where its label, its mnemonic, its
/// operands and its comment stand, and the token after the third operand
/// where there is one too many.
pub struct LineShape {
    pub label: Option<(int, int)>,
    pub mnemonic: Option<(int, int)>,
    pub args: Seq<(int, int)>,
    pub extra: Option<(int, int)>,
    pub comment: Option<(int, int)>,
}

/// The tokens of a line's code: all that stands before the comment.
pub open spec fn code_spans(line: Seq<u8>) -> Seq<(int, int)> {
    spans(line, 0, code_end(line, 0))
}

/// Whether the line's first token is a label: whether it begins with `.`.
pub open spec fn has_label(line: Seq<u8>) -> bool {
    code_spans(line).len() > 0 && line[code_spans(line)[0].0] == 0x2E
}

/// The tokens of the line's code after its label.
pub open spec fn statement_spans(line: Seq<u8>) -> Seq<(int, int)> {
    if has_label(line) {
        code_spans(line).skip(1)
    } else {
        code_spans(line)
    }
}

/// What the lexer finds in a line. The first token is the label where it
/// begins with `.`; the next is the mnemonic, the next three are operands,
/// and a fourth is one too many.
pub open spec fn shape(line: Seq<u8>) -> LineShape {
    let statement = statement_spans(line);
    LineShape {
        label: if has_label(line) {
            Some(code_spans(line)[0])
        } else {
            None
        },
        mnemonic: if statement.len() > 0 {
            Some(statement[0])
        } else {
            None
        },
        args: if statement.len() > 4 {
            statement.subrange(1, 4)
        } else if statement.len() > 1 {
            statement.skip(1)
        } else {
            Seq::empty()
        },
        extra: if statement.len() > 4 {
            Some(statement[4])
        } else {
            None
        },
        comment: if code_end(line, 0) < line.len() {
            Some((code_end(line, 0), line.len() as int))
        } else {
            None
        },
    }
}

/// A line is blank where it holds neither a label nor a mnemonic.
pub open spec fn is_blank(line: Seq<u8>) -> bool {
    code_spans(line).len() == 0
}

/// Whether `token` is the piece `span` of the line, with the column of its
/// first byte counted from 1.
pub open spec fn token_at(token: Token, line: Seq<u8>, span: (int, int)) -> bool {
    &&& token.char_number == span.0 + 1
    &&& token.span.spec_bytes() == line.subrange(span.0, span.1)
}

/// Whether `token` is the piece `span` of the line, or both are missing.
pub open spec fn optional_token_at(
    token: Option<Token>,
    line: Seq<u8>,
    span: Option<(int, int)>,
) -> bool {
    match (token, span) {
        (Some(token), Some(span)) => token_at(token, line, span),
        (None, None) => true,
        _ => false,
    }
}

/// Whether `parsed` is the line number `line_number` with the text `line`.
pub open spec fn line_at(parsed: Line, line_number: usize, line: Seq<u8>) -> bool {
    &&& parsed.line_number == line_number
    &&& optional_token_at(parsed.label, line, shape(line).label)
    &&& optional_token_at(parsed.mnemonic, line, shape(line).mnemonic)
    &&& parsed.operands().len() == shape(line).args.len()
    &&& forall|i: int|
        0 <= i < parsed.operands().len() ==> token_at(
            #[trigger] parsed.operands()[i],
            line,
            shape(line).args[i],
        )
    &&& optional_token_at(parsed.comment, line, shape(line).comment)
}

/// Whether `result` is what lexing the line number `line_number` with the
/// text `line` gives: the line, or the token that is one too many.
pub open spec fn lexed_at(result: Result<Line, AsmError>, line_number: usize, line: Seq<u8>) -> bool {
    match result {
        Ok(parsed) => shape(line).extra is None && line_at(parsed, line_number, line),
        Err(AsmError::TooManyTokens { line_number: at, token }) => {
            &&& shape(line).extra is Some
            &&& at == line_number
            &&& token_at(token, line, shape(line).extra->0)
        },
        Err(_) => false,
    }
}

fn byte_is_space(byte: u8) -> (space: bool)
    ensures
        space == is_space(byte),
{
    byte == 0x20 || byte == 0x09 || byte == 0x0A || byte == 0x0C || byte == 0x0D
}

fn find_code_end(bytes: &[u8]) -> (end: usize)
    ensures
        end == code_end(bytes@, 0),
        end <= bytes@.len(),
{
    let mut at: usize = 0;
    while at < bytes.len() && !(bytes[at] == 0x3B || bytes[at] == 0x2F || bytes[at] == 0x23)
        invariant
            at <= bytes@.len(),
            code_end(bytes@, at as int) == code_end(bytes@, 0),
        decreases bytes@.len() - at,
    {
        at = at + 1;
    }
    proof {
        lemma_code_end(bytes@, 0);
    }
    at
}

fn find_skip_spaces(bytes: &[u8], from: usize, end: usize) -> (at: usize)
    requires
        from <= end <= bytes@.len(),
    ensures
        at == skip_spaces(bytes@, from as int, end as int),
        from <= at <= end,
{
    let mut at: usize = from;
    while at < end && byte_is_space(bytes[at])
        invariant
            from <= at <= end <= bytes@.len(),
            skip_spaces(bytes@, at as int, end as int) == skip_spaces(
                bytes@,
                from as int,
                end as int,
            ),
        decreases end - at,
    {
        at = at + 1;
    }
    at
}

fn find_skip_word(bytes: &[u8], from: usize, end: usize) -> (at: usize)
    requires
        from <= end <= bytes@.len(),
    ensures
        at == skip_word(bytes@, from as int, end as int),
        from <= at <= end,
{
    let mut at: usize = from;
    while at < end && !byte_is_space(bytes[at])
        invariant
            from <= at <= end <= bytes@.len(),
            skip_word(bytes@, at as int, end as int) == skip_word(bytes@, from as int, end as int),
        decreases end - at,
    {
        at = at + 1;
    }
    at
}

fn find_token_end(bytes: &[u8], start: usize, end: usize) -> (stop: usize)
    requires
        start < end <= bytes@.len(),
        !is_space(bytes@[start as int]),
    ensures
        stop == token_end(bytes@, start as int, end as int),
        start < stop <= end,
{
    proof {
        lemma_token_end(bytes@, start as int, end as int);
    }
    let first = bytes[start];
    if first == 0x27 || first == 0x22 {
        let close = find_skip_spaces(bytes, start + 1, end);
        if close > start + 1 && close < end && bytes[close] == first {
            return close + 1;
        }
    }
    find_skip_word(bytes, start, end)
}

/// Cuts the piece from `start` up to `stop` out of the line, where both
/// positions stand at the line's ends or beside an ASCII byte.
fn cut<'a>(line: &'a str, start: usize, stop: usize) -> (token: Token<'a>)
    requires
        start <= stop <= line.spec_bytes().len(),
        beside_ascii(line.spec_bytes(), start as int),
        beside_ascii(line.spec_bytes(), stop as int),
        start < usize::MAX,
    ensures
        token_at(token, line.spec_bytes(), (start as int, stop as int)),
{
    proof {
        encode_utf8_valid_utf8(line@);
        lemma_ascii_boundary(line.spec_bytes(), start as int);
        lemma_ascii_boundary(line.spec_bytes(), stop as int);
    }
    Token::new(start + 1, slice(line, start, stop))
}

/// Whether a position of the line is one of its ends or has an ASCII byte
/// before it or at it.
pub open spec fn beside_ascii(line: Seq<u8>, index: int) -> bool {
    index == 0 || index == line.len() || (0 < index < line.len() && (line[index] < 0x80
        || line[index - 1] < 0x80))
}

/// The next token of the code from `from` on, and where it ends.
fn next_token<'a>(line: &'a str, from: usize, end: usize) -> (found: Option<(Token<'a>, usize)>)
    requires
        from <= end <= line.spec_bytes().len(),
        end == code_end(line.spec_bytes(), 0),
        beside_ascii(line.spec_bytes(), from as int),
    ensures
        match found {
            None => spans(line.spec_bytes(), from as int, end as int).len() == 0,
            Some((token, stop)) => {
                &&& from < stop <= end
                &&& beside_ascii(line.spec_bytes(), stop as int)
                &&& spans(line.spec_bytes(), from as int, end as int).len() > 0
                &&& token_at(
                    token,
                    line.spec_bytes(),
                    spans(line.spec_bytes(), from as int, end as int)[0],
                )
                &&& spans(line.spec_bytes(), from as int, end as int)[0].1 == stop
                &&& spans(line.spec_bytes(), from as int, end as int).skip(1) == spans(
                    line.spec_bytes(),
                    stop as int,
                    end as int,
                )
            },
        },
{
    let bytes = line.as_bytes();
    let start = find_skip_spaces(bytes, from, end);
    if start >= end {
        return None;
    }
    proof {
        lemma_skip_spaces(bytes@, from as int, end as int);
        lemma_code_end(bytes@, 0);
    }
    let stop = find_token_end(bytes, start, end);
    proof {
        let all = spans(bytes@, from as int, end as int);
        let rest = spans(bytes@, stop as int, end as int);
        assert(all == seq![(start as int, stop as int)] + rest);
        assert(all.skip(1) == rest);
        lemma_skip_word(bytes@, start as int, end as int);
        lemma_skip_spaces(bytes@, start as int + 1, end as int);
        // The token begins after whitespace or at `from`, and ends before
        // whitespace, before a comment, after a quote or at the line's end.
        if start > from {
            assert(is_space(bytes@[start as int - 1]));
        }
        if stop < end {
            if stop == skip_word(bytes@, start as int, end as int) {
                assert(is_space(bytes@[stop as int]));
            } else {
                assert(is_quote(bytes@[stop as int - 1]));
            }
        } else if end < bytes@.len() {
            assert(starts_comment(bytes@[end as int]));
        }
    }
    Some((cut(line, start, stop), stop))
}

/// Lexes one line. The line's label is its first token where that begins
/// with `.`; the next token is the mnemonic; up to three more are operands,
/// and a fourth is an error. What follows the first `;`, `/` or `#`,
/// that character included, is the comment.
pub fn parse_line<'a>(line_number: usize, line: &'a str) -> (result: Result<Line<'a>, AsmError<'a>>)
    ensures
        lexed_at(result, line_number, line.spec_bytes()),
{
    let bytes = line.as_bytes();
    let end = find_code_end(bytes);
    proof {
        lemma_code_end(bytes@, 0);
    }
    let comment = if end < bytes.len() {
        Some(cut(line, end, bytes.len()))
    } else {
        None
    };
    let mut label: Option<Token<'a>> = None;
    let mut mnemonic: Option<Token<'a>> = None;
    let mut args = args_new();
    let mut at: usize = 0;
    match next_token(line, 0, end) {
        None => {
            return Ok(Line { line_number, label, mnemonic, args, comment });
        },
        Some((token, stop)) => {
            let first = token.char_number - 1;
            if bytes[first] == 0x2E {
                label = Some(token);
                at = stop;
            }
        },
    }
    let ghost statement = statement_spans(bytes@);
    let mut taken: usize = 0;
    loop
        invariant
            bytes@ == line.spec_bytes(),
            end == code_end(bytes@, 0),
            at <= end <= bytes@.len(),
            beside_ascii(bytes@, at as int),
            statement == statement_spans(bytes@),
            taken <= 4,
            taken <= statement.len(),
            spans(bytes@, at as int, end as int) == statement.skip(taken as int),
            optional_token_at(label, bytes@, shape(bytes@).label),
            optional_token_at(comment, bytes@, shape(bytes@).comment),
            taken == 0 ==> mnemonic is None,
            taken > 0 ==> mnemonic is Some && token_at(mnemonic->0, bytes@, statement[0]),
            taken <= 1 ==> arg_tokens(args).len() == 0,
            taken > 1 ==> arg_tokens(args).len() == taken - 1,
            forall|i: int|
                0 <= i < arg_tokens(args).len() ==> token_at(
                    #[trigger] arg_tokens(args)[i],
                    bytes@,
                    statement[i + 1],
                ),
        decreases end - at,
    {
        match next_token(line, at, end) {
            None => {
                proof {
                    assert(statement.len() == taken);
                    assert(shape(bytes@).args.len() == arg_tokens(args).len());
                    assert forall|i: int|
                        0 <= i < arg_tokens(args).len() implies token_at(
                        #[trigger] arg_tokens(args)[i],
                        bytes@,
                        shape(bytes@).args[i],
                    ) by {
                        assert(shape(bytes@).args[i] == statement[i + 1]);
                    }
                }
                return Ok(Line { line_number, label, mnemonic, args, comment });
            },
            Some((token, stop)) => {
                proof {
                    assert(statement.skip(taken as int)[0] == statement[taken as int]);
                    assert(statement.skip(taken as int).skip(1) == statement.skip(taken + 1));
                }
                if taken == 0 {
                    mnemonic = Some(token);
                } else if taken <= MAX_ARGS {
                    args_push(&mut args, token);
                } else {
                    return Err(AsmError::TooManyTokens { line_number, token });
                }
                taken = taken + 1;
                at = stop;
            },
        }
    }
}

/// The lines of the text from `from` on that are not blank, each with its
/// number, where the line at `from` has the number `number`, and with the
/// positions at which its text begins and ends.
pub open spec fn source_lines(code: Seq<u8>, from: int, number: int) -> Seq<(int, int, int)>
    decreases code.len() - from,
{
    if 0 <= from < code.len() && from <= line_end(code, from) {
        let rest = if line_end(code, from) < code.len() {
            source_lines(code, line_end(code, from) + 1, number + 1)
        } else {
            Seq::empty()
        };
        if is_blank(code.subrange(from, line_stop(code, from))) {
            rest
        } else {
            seq![(number, from, line_stop(code, from))] + rest
        }
    } else {
        Seq::empty()
    }
}

/// Whether `results` are the lexed lines of the text `code`, one for each
/// line that is not blank, in the order of the text and with the numbers
/// that the lines have in it, counted from 1.
pub open spec fn lexed(results: Seq<Result<Line, AsmError>>, code: Seq<u8>) -> bool {
    lexed_from(results, code, 0, 1)
}

/// Whether `results` are the lexed lines of the text from `from` on, where
/// the line at `from` has the number `number`.
pub open spec fn lexed_from(
    results: Seq<Result<Line, AsmError>>,
    code: Seq<u8>,
    from: int,
    number: int,
) -> bool {
    let lines = source_lines(code, from, number);
    &&& results.len() == lines.len()
    &&& forall|i: int|
        0 <= i < results.len() ==> lexed_at(
            #[trigger] results[i],
            lines[i].0 as usize,
            code.subrange(lines[i].1, lines[i].2),
        )
}

/// Lexes a source text line by line. Blank lines are counted and left out.
pub fn parse_lines<'a>(code: &'a str) -> (results: Vec<Result<Line<'a>, AsmError<'a>>>)
    ensures
        lexed(results@, code.spec_bytes()),
{
    let bytes = code.as_bytes();
    let mut results: Vec<Result<Line<'a>, AsmError<'a>>> = Vec::new();
    let mut from: usize = 0;
    let mut number: usize = 1;
    let ghost all = source_lines(bytes@, 0, 1);
    while from < bytes.len()
        invariant
            bytes@ == code.spec_bytes(),
            from <= bytes@.len(),
            from < bytes@.len() ==> number <= from + 1,
            beside_ascii(bytes@, from as int),
            all == source_lines(bytes@, 0, 1),
            results@.len() <= all.len(),
            all.skip(results@.len() as int) == source_lines(bytes@, from as int, number as int),
            forall|i: int|
                0 <= i < results@.len() ==> lexed_at(
                    #[trigger] results@[i],
                    all[i].0 as usize,
                    bytes@.subrange(all[i].1, all[i].2),
                ),
        decreases bytes@.len() - from,
    {
        let end = find_line_end(bytes, from);
        let stop = if end > from && bytes[end - 1] == 0x0D {
            end - 1
        } else {
            end
        };
        proof {
            lemma_line_end(bytes@, from as int);
            encode_utf8_valid_utf8(code@);
            lemma_ascii_boundary(bytes@, from as int);
            lemma_ascii_boundary(bytes@, stop as int);
        }
        let line = slice(code, from, stop);
        let result = parse_line(number, line);
        let ghost rest = if end < bytes@.len() {
            source_lines(bytes@, end as int + 1, number as int + 1)
        } else {
            Seq::empty()
        };
        let ghost here = source_lines(bytes@, from as int, number as int);
        let blank = match &result {
            Ok(parsed) => parsed.label.is_none() && parsed.mnemonic.is_none(),
            Err(_) => false,
        };
        proof {
            let text = bytes@.subrange(from as int, stop as int);
            assert(blank == is_blank(text));
            if !blank {
                assert(here == seq![(number as int, from as int, stop as int)] + rest);
                assert(here.skip(1) == rest);
                assert(all.skip(results@.len() as int)[0] == all[results@.len() as int]);
                assert(all.skip(results@.len() as int).skip(1) == all.skip(results@.len() as int + 1));
            }
        }
        if !blank {
            results.push(result);
        }
        if end < bytes.len() {
            from = end + 1;
            if from < bytes.len() {
                number = number + 1;
            }
        } else {
            from = end;
        }
    }
    proof {
        assert(source_lines(bytes@, from as int, number as int).len() == 0);
        assert(all.skip(results@.len() as int).len() == 0);
    }
    results
}

} // verus!

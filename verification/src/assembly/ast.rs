use crate::isa::MAX_ARGS;
use crate::text::str_eq;
use arrayvec::ArrayVec;
use vstd::prelude::*;
use vstd::std_specs::cmp::PartialEqSpecImpl;

verus! {

/// A piece of one source line and the column at which it begins, counted
/// in bytes from 1.
#[derive(Debug, Clone, Copy, Eq)]
pub struct Token<'a> {
    pub char_number: usize,
    pub span: &'a str,
}

impl<'a> Token<'a> {
    /// The token with the text `span` at the column `char_number`.
    pub fn new(char_number: usize, span: &'a str) -> (token: Token<'a>)
        ensures
            token.char_number == char_number,
            token.span == span,
    {
        Token { char_number, span }
    }

    /// Whether the token's text is `text`, wherever the token stands.
    pub fn eq_str(&self, text: &str) -> (same: bool)
        ensures
            same == (self.span@ == text@),
    {
        str_eq(self.span, text)
    }

    /// The token's text.
    pub fn as_str(&self) -> (text: &'a str)
        ensures
            text == self.span,
    {
        self.span
    }

    /// The number of bytes of the token's text.
    pub fn len(&self) -> (len: usize)
        ensures
            len == self.span.len(),
    {
        self.span.len()
    }
}

impl<'a> std::ops::Deref for Token<'a> {
    type Target = str;

    fn deref(&self) -> (text: &str)
        ensures
            text == self.span,
    {
        self.span
    }
}

impl<'a> PartialEq for Token<'a> {
    fn eq(&self, other: &Token<'a>) -> (same: bool) {
        self.char_number == other.char_number && str_eq(self.span, other.span)
    }
}

/// Two tokens are the same where they have the same text at the same
/// column.
impl<'a> PartialEqSpecImpl for Token<'a> {
    open spec fn obeys_eq_spec() -> bool {
        true
    }

    open spec fn eq_spec(&self, other: &Token<'a>) -> bool {
        self.char_number == other.char_number && self.span@ == other.span@
    }
}

impl<'a> PartialEq<str> for Token<'a> {
    fn eq(&self, other: &str) -> (same: bool) {
        str_eq(self.span, other)
    }
}

/// A token is the same as a text where that is the token's text, wherever
/// the token stands.
impl<'a> PartialEqSpecImpl<str> for Token<'a> {
    open spec fn obeys_eq_spec() -> bool {
        true
    }

    open spec fn eq_spec(&self, other: &str) -> bool {
        self.span@ == other@
    }
}

/// `arrayvec::ArrayVec`: a list of at most `CAP` items. What it holds is
/// hidden from the proofs; `arg_tokens` stands for it.
#[verifier::external_type_specification]
#[verifier::external_body]
#[verifier::reject_recursive_types(T)]
pub struct ExArrayVec<T, const CAP: usize>(ArrayVec<T, CAP>);

/// The tokens that an operand list holds, in the order in which they were
/// pushed.
pub uninterp spec fn arg_tokens(args: ArrayVec<Token, MAX_ARGS>) -> Seq<Token>;

/// `ArrayVec::new`: a list that holds nothing.
#[verifier::external_body]
pub(crate) fn args_new<'a>() -> (args: ArrayVec<Token<'a>, MAX_ARGS>)
    ensures
        arg_tokens(args) == Seq::<Token<'a>>::empty(),
{
    ArrayVec::new()
}

/// `ArrayVec::push`: the token is added at the end. The call panics on a
/// full list, so a caller must know that fewer than `MAX_ARGS` are held.
#[verifier::external_body]
pub(crate) fn args_push<'a>(args: &mut ArrayVec<Token<'a>, MAX_ARGS>, token: Token<'a>)
    requires
        arg_tokens(*old(args)).len() < MAX_ARGS,
    ensures
        arg_tokens(*final(args)) == arg_tokens(*old(args)).push(token),
{
    args.push(token)
}

/// `ArrayVec::len`: the number of tokens held, which is never more than the
/// capacity `MAX_ARGS`.
#[verifier::external_body]
pub(crate) fn args_len<'a>(args: &ArrayVec<Token<'a>, MAX_ARGS>) -> (len: usize)
    ensures
        len == arg_tokens(*args).len(),
        len <= MAX_ARGS,
{
    args.len()
}

/// Indexing an `ArrayVec`: the token at `index`. The call panics where the
/// list is shorter, so a caller must know that it is not.
#[verifier::external_body]
pub(crate) fn args_at<'a>(args: &ArrayVec<Token<'a>, MAX_ARGS>, index: usize) -> (token: Token<'a>)
    requires
        index < arg_tokens(*args).len(),
    ensures
        token == arg_tokens(*args)[index as int],
{
    args[index]
}

/// `ArrayVec::clone`: a list of the same tokens in the same order.
#[verifier::external_body]
pub(crate) fn args_clone<'a>(args: &ArrayVec<Token<'a>, MAX_ARGS>) -> (copy: ArrayVec<
    Token<'a>,
    MAX_ARGS,
>)
    ensures
        arg_tokens(copy) == arg_tokens(*args),
{
    args.clone()
}

/// One source line as the lexer hands it to the assembler.
#[derive(Debug)]
pub struct Line<'a> {
    pub line_number: usize,
    pub label: Option<Token<'a>>,
    pub mnemonic: Option<Token<'a>>,
    pub args: ArrayVec<Token<'a>, MAX_ARGS>,
    pub comment: Option<Token<'a>>,
}

impl<'a> Line<'a> {
    /// The operand tokens of the line.
    pub open spec fn operands(self) -> Seq<Token<'a>> {
        arg_tokens(self.args)
    }
}

impl<'a> Clone for Line<'a> {
    fn clone(&self) -> (copy: Line<'a>)
        ensures
            copy.line_number == self.line_number,
            copy.label == self.label,
            copy.mnemonic == self.mnemonic,
            copy.operands() == self.operands(),
            copy.comment == self.comment,
    {
        Line {
            line_number: self.line_number,
            label: self.label,
            mnemonic: self.mnemonic,
            args: args_clone(&self.args),
            comment: self.comment,
        }
    }
}

} // verus!

//! Parser primitives over a token stream: single-token matchers, an
//! identifier rule, and the combinators that try, repeat and sequence a
//! rule. The grammar itself lives upstream; these are the pieces it is put
//! together from.
//!
//! A scanner is a cursor over a fixed token sequence whose last token marks
//! the end of input. A primitive either succeeds and may advance, or fails
//! with an error naming what was expected; one that fails without advancing
//! has consumed nothing, which is what `opt` and `many` rely on to stop.

use vstd::prelude::*;
use vstd::string::StringExecFns;
use crate::ast::{Ident, Path, Span, PLACEHOLDER_ID};

verus! {

/// What a token is, as far as these primitives care.
#[derive(Clone, Copy, Debug, PartialEq, Eq, Structural)]
pub enum TokenKind {
    Ident,
    Dot,
    DotDotDot,
    Comma,
    Colon,
    OpenParen,
    CloseParen,
    Eof,
}

/// One lexed token: its kind, its source span, and its text.
#[derive(Clone, Debug)]
pub struct Token {
    pub kind: TokenKind,
    pub span: Span,
    pub text: String,
}

/// The keywords, which an identifier must not be.
#[derive(Clone, Copy, Debug, PartialEq, Eq, Structural)]
pub enum Keyword {
    Function,
    In,
    Let,
    Namespace,
    Open,
    Operation,
    Underscore,
}

/// A keyword's spelling.
pub open spec fn kw_chars(kw: Keyword) -> Seq<char> {
    match kw {
        Keyword::Function => "function"@,
        Keyword::In => "in"@,
        Keyword::Let => "let"@,
        Keyword::Namespace => "namespace"@,
        Keyword::Open => "open"@,
        Keyword::Operation => "operation"@,
        Keyword::Underscore => "_"@,
    }
}

/// Whether `s` spells a keyword.
pub open spec fn is_kw(s: Seq<char>) -> bool {
    ||| s == kw_chars(Keyword::Function)
    ||| s == kw_chars(Keyword::In)
    ||| s == kw_chars(Keyword::Let)
    ||| s == kw_chars(Keyword::Namespace)
    ||| s == kw_chars(Keyword::Open)
    ||| s == kw_chars(Keyword::Operation)
    ||| s == kw_chars(Keyword::Underscore)
}

impl Keyword {
    /// The keyword's spelling.
    pub fn as_str(self) -> (r: String)
        ensures
            r@ == kw_chars(self),
    {
        match self {
            Keyword::Function => String::from_str("function"),
            Keyword::In => String::from_str("in"),
            Keyword::Let => String::from_str("let"),
            Keyword::Namespace => String::from_str("namespace"),
            Keyword::Open => String::from_str("open"),
            Keyword::Operation => String::from_str("operation"),
            Keyword::Underscore => String::from_str("_"),
        }
    }
}

/// Whether `s` spells a keyword.
pub fn is_keyword(s: &String) -> (r: bool)
    ensures
        r == is_kw(s@),
{
    let function = String::from_str("function");
    let kw_in = String::from_str("in");
    let kw_let = String::from_str("let");
    let namespace = String::from_str("namespace");
    let open = String::from_str("open");
    let operation = String::from_str("operation");
    let underscore = String::from_str("_");
    *s == function || *s == kw_in || *s == kw_let || *s == namespace || *s == open
        || *s == operation || *s == underscore
}

/// What a primitive expected and where, when it fails.
#[derive(Clone, Copy, Debug, PartialEq, Eq, Structural)]
pub enum ParseErrorKind {
    /// A particular token kind was expected.
    Token(TokenKind),
    /// A particular keyword was expected.
    Keyword(Keyword),
    /// A named rule (an identifier, a pattern) was expected.
    Rule,
}

#[derive(Clone, Copy, Debug, PartialEq, Eq, Structural)]
pub struct ParseError {
    pub kind: ParseErrorKind,
    pub span: Span,
}

/// A cursor over a fixed token sequence. The sequence is never empty: its
/// last token is the end-of-input marker, which the cursor never passes.
pub struct Scanner {
    pub tokens: Vec<Token>,
    pub pos: usize,
}

impl Scanner {
    /// The scanner's invariant: the cursor is on a token, and the sequence
    /// ends with the end-of-input marker.
    pub open spec fn wf(self) -> bool {
        &&& self.tokens@.len() > 0
        &&& self.pos < self.tokens@.len()
        &&& self.tokens@.last().kind == TokenKind::Eof
    }

    /// The token under the cursor.
    pub open spec fn peek_spec(self) -> Token {
        self.tokens@[self.pos as int]
    }

    /// The cursor's position after one advance: one further, except off the
    /// end-of-input marker.
    pub open spec fn adv_pos(self) -> int {
        if self.pos + 1 < self.tokens@.len() {
            self.pos + 1
        } else {
            self.pos as int
        }
    }

    pub fn new(tokens: Vec<Token>) -> (r: Scanner)
        requires
            tokens@.len() > 0,
            tokens@.last().kind == TokenKind::Eof,
        ensures
            r.wf(),
            r.tokens@ == tokens@,
            r.pos == 0,
    {
        Scanner { tokens, pos: 0 }
    }

    /// The token under the cursor.
    pub fn peek(&self) -> (t: &Token)
        requires
            self.wf(),
        ensures
            *t == self.peek_spec(),
    {
        &self.tokens[self.pos]
    }

    /// The text of the token under the cursor.
    pub fn read(&self) -> (t: &String)
        requires
            self.wf(),
        ensures
            t == self.peek_spec().text,
    {
        &self.tokens[self.pos].text
    }

    /// Moves the cursor one token further, staying on the end-of-input
    /// marker once there.
    pub fn advance(&mut self)
        requires
            old(self).wf(),
        ensures
            final(self).wf(),
            final(self).tokens@ == old(self).tokens@,
            final(self).pos as int == old(self).adv_pos(),
    {
        let n = self.tokens.len();
        if self.pos + 1 < n {
            self.pos = self.pos + 1;
        }
    }

    /// An error report at the token under the cursor.
    pub fn error(&self, kind: ParseErrorKind) -> (e: ParseError)
        requires
            self.wf(),
        ensures
            e == (ParseError { kind, span: self.peek_spec().span }),
    {
        ParseError { kind, span: self.tokens[self.pos].span }
    }
}

/// Consumes one token of the given kind, or fails without consuming.
pub fn token(s: &mut Scanner, kind: TokenKind) -> (r: Result<(), ParseError>)
    requires
        old(s).wf(),
    ensures
        final(s).wf(),
        final(s).tokens@ == old(s).tokens@,
        match r {
            Ok(()) => old(s).peek_spec().kind == kind && final(s).pos as int == old(s).adv_pos(),
            Err(e) => old(s).peek_spec().kind != kind && final(s).pos == old(s).pos && e == (ParseError {
                kind: ParseErrorKind::Token(kind),
                span: old(s).peek_spec().span,
            }),
        },
{
    if s.peek().kind == kind {
        s.advance();
        Ok(())
    } else {
        Err(s.error(ParseErrorKind::Token(kind)))
    }
}

/// Consumes one keyword, or fails without consuming. A keyword is an
/// identifier token whose text is the keyword's spelling.
pub fn keyword(s: &mut Scanner, kw: Keyword) -> (r: Result<(), ParseError>)
    requires
        old(s).wf(),
    ensures
        final(s).wf(),
        final(s).tokens@ == old(s).tokens@,
        match r {
            Ok(()) => old(s).peek_spec().kind == TokenKind::Ident && old(
                s,
            ).peek_spec().text@ == kw_chars(kw) && final(s).pos as int == old(s).adv_pos(),
            Err(e) => !(old(s).peek_spec().kind == TokenKind::Ident && old(
                s,
            ).peek_spec().text@ == kw_chars(kw)) && final(s).pos == old(s).pos && e == (ParseError {
                kind: ParseErrorKind::Keyword(kw),
                span: old(s).peek_spec().span,
            }),
        },
{
    if s.peek().kind == TokenKind::Ident && *s.read() == kw.as_str() {
        s.advance();
        Ok(())
    } else {
        Err(s.error(ParseErrorKind::Keyword(kw)))
    }
}

/// Whether the token under the cursor begins an identifier: an identifier
/// token that spells no keyword.
pub open spec fn at_ident(toks: Seq<Token>, pos: int) -> bool {
    &&& 0 <= pos < toks.len()
    &&& toks[pos].kind == TokenKind::Ident
    &&& !is_kw(toks[pos].text@)
}

/// The identifier taken from the token at `pos`, with a placeholder node id
/// for a later numbering pass.
pub open spec fn ident_at(toks: Seq<Token>, pos: int) -> Ident {
    Ident { id: PLACEHOLDER_ID, span: toks[pos].span, name: toks[pos].text }
}

/// Consumes one identifier, or fails without consuming. Keywords are not
/// identifiers.
pub fn ident(s: &mut Scanner) -> (r: Result<Ident, ParseError>)
    requires
        old(s).wf(),
    ensures
        final(s).wf(),
        final(s).tokens@ == old(s).tokens@,
        match r {
            Ok(id) => at_ident(old(s).tokens@, old(s).pos as int) && id == ident_at(
                old(s).tokens@,
                old(s).pos as int,
            ) && final(s).pos as int == old(s).adv_pos(),
            Err(e) => !at_ident(old(s).tokens@, old(s).pos as int) && final(s).pos == old(s).pos
                && e == (ParseError { kind: ParseErrorKind::Rule, span: old(s).peek_spec().span }),
        },
{
    if s.peek().kind != TokenKind::Ident || is_keyword(s.read()) {
        return Err(s.error(ParseErrorKind::Rule));
    }
    let span = s.peek().span;
    let name = s.read().clone();
    s.advance();
    Ok(Ident { id: PLACEHOLDER_ID, span, name })
}

/// One parsing rule: a function from the scanner to a result, whose exact
/// behaviour — when it succeeds, what it yields, where it leaves the
/// cursor — is given by its own model functions.
pub trait Parser<T>: Sized {
    /// Whether the rule succeeds from `pos`.
    spec fn accepts(&self, toks: Seq<Token>, pos: int) -> bool;

    /// What the rule yields on success.
    spec fn value(&self, toks: Seq<Token>, pos: int) -> T;

    /// The cursor's position after success.
    spec fn good_pos(&self, toks: Seq<Token>, pos: int) -> int;

    /// The cursor's position after failure; equal to `pos` exactly when the
    /// rule failed without consuming.
    spec fn bad_pos(&self, toks: Seq<Token>, pos: int) -> int;

    /// The error reported on failure.
    spec fn bad_err(&self, toks: Seq<Token>, pos: int) -> ParseError;

    fn parse(&self, s: &mut Scanner) -> (r: Result<T, ParseError>)
        requires
            old(s).wf(),
        ensures
            final(s).wf(),
            final(s).tokens@ == old(s).tokens@,
            match r {
                Ok(x) => self.accepts(old(s).tokens@, old(s).pos as int) && x == self.value(
                    old(s).tokens@,
                    old(s).pos as int,
                ) && final(s).pos as int == self.good_pos(old(s).tokens@, old(s).pos as int),
                Err(e) => !self.accepts(old(s).tokens@, old(s).pos as int)
                    && final(s).pos as int == self.bad_pos(old(s).tokens@, old(s).pos as int)
                    && old(s).pos <= final(s).pos
                    && e == self.bad_err(old(s).tokens@, old(s).pos as int),
            },
    ;
}

/// The identifier rule as a `Parser`.
pub struct IdentParser;

impl Parser<Ident> for IdentParser {
    open spec fn accepts(&self, toks: Seq<Token>, pos: int) -> bool {
        at_ident(toks, pos)
    }

    open spec fn value(&self, toks: Seq<Token>, pos: int) -> Ident {
        ident_at(toks, pos)
    }

    open spec fn good_pos(&self, toks: Seq<Token>, pos: int) -> int {
        if pos + 1 < toks.len() {
            pos + 1
        } else {
            pos
        }
    }

    open spec fn bad_pos(&self, toks: Seq<Token>, pos: int) -> int {
        pos
    }

    open spec fn bad_err(&self, toks: Seq<Token>, pos: int) -> ParseError {
        ParseError { kind: ParseErrorKind::Rule, span: toks[pos].span }
    }

    fn parse(&self, s: &mut Scanner) -> (r: Result<Ident, ParseError>) {
        ident(s)
    }
}

/// Tries a rule: success wraps in `Some`; failure without consuming yields
/// `None` and the cursor is untouched; failure that consumed is a real
/// error.
pub fn opt<T, P: Parser<T>>(s: &mut Scanner, p: &P) -> (r: Result<Option<T>, ParseError>)
    requires
        old(s).wf(),
    ensures
        final(s).wf(),
        final(s).tokens@ == old(s).tokens@,
        match r {
            Ok(out) => match out {
                Some(x) => p.accepts(old(s).tokens@, old(s).pos as int) && x == p.value(
                    old(s).tokens@,
                    old(s).pos as int,
                ) && final(s).pos as int == p.good_pos(old(s).tokens@, old(s).pos as int),
                None => !p.accepts(old(s).tokens@, old(s).pos as int) && final(s).pos == old(s).pos
                    && p.bad_pos(old(s).tokens@, old(s).pos as int) == old(s).pos,
            },
            Err(e) => !p.accepts(old(s).tokens@, old(s).pos as int) && final(s).pos as int == p.bad_pos(
                old(s).tokens@,
                old(s).pos as int,
            ) && final(s).pos != old(s).pos && e == p.bad_err(old(s).tokens@, old(s).pos as int),
        },
{
    let before = s.pos;
    match p.parse(s) {
        Ok(x) => Ok(Some(x)),
        Err(e) => if s.pos == before {
            Ok(None)
        } else {
            Err(e)
        },
    }
}

/// Every rule the combinators repeat must move the cursor when it succeeds,
/// and never move it backwards when it fails; otherwise repetition would
/// not end.
pub open spec fn progressive<T, P: Parser<T>>(p: P, toks: Seq<Token>) -> bool {
    forall|pos: int|
        0 <= pos < toks.len() ==> (p.accepts(toks, pos) ==> pos < p.good_pos(toks, pos)
            <= toks.len()) && pos <= p.bad_pos(toks, pos)
}

/// What repeating a rule from `pos` gives: the items parsed, where the
/// cursor ends, and whether the run ended cleanly (the rule failed without
/// consuming) or in an error (it failed after consuming).
pub ghost struct ManyOut<T> {
    pub items: Seq<T>,
    pub end: int,
    pub ok: bool,
    pub err: ParseError,
}

pub open spec fn many_rec<T, P: Parser<T>>(p: P, toks: Seq<Token>, pos: int) -> ManyOut<T>
    decreases toks.len() - pos,
{
    if 0 <= pos < toks.len() && p.accepts(toks, pos) && pos < p.good_pos(toks, pos) <= toks.len() {
        let rest = many_rec(p, toks, p.good_pos(toks, pos));
        ManyOut {
            items: seq![p.value(toks, pos)] + rest.items,
            end: rest.end,
            ok: rest.ok,
            err: rest.err,
        }
    } else if !p.accepts(toks, pos) && p.bad_pos(toks, pos) == pos {
        ManyOut { items: Seq::empty(), end: pos, ok: true, err: p.bad_err(toks, pos) }
    } else {
        ManyOut { items: Seq::empty(), end: p.bad_pos(toks, pos), ok: false, err: p.bad_err(
            toks,
            pos,
        ) }
    }
}

/// Repeats a rule while it succeeds. The run ends cleanly when the rule
/// fails without consuming; a failure that consumed is the run's error.
#[verifier::loop_isolation(false)]
pub fn many<T, P: Parser<T>>(s: &mut Scanner, p: &P) -> (r: Result<Vec<T>, ParseError>)
    requires
        old(s).wf(),
        progressive(*p, old(s).tokens@),
    ensures
        final(s).wf(),
        final(s).tokens@ == old(s).tokens@,
        match r {
            Ok(xs) => many_rec(*p, old(s).tokens@, old(s).pos as int).ok && xs@ == many_rec(
                *p,
                old(s).tokens@,
                old(s).pos as int,
            ).items && final(s).pos as int == many_rec(*p, old(s).tokens@, old(s).pos as int).end,
            Err(e) => !many_rec(*p, old(s).tokens@, old(s).pos as int).ok && e == many_rec(
                *p,
                old(s).tokens@,
                old(s).pos as int,
            ).err && final(s).pos as int == many_rec(*p, old(s).tokens@, old(s).pos as int).end,
        },
{
    let ghost toks = old(s).tokens@;
    let ghost m0 = many_rec(*p, toks, old(s).pos as int);
    let mut xs: Vec<T> = Vec::new();
    loop
        invariant
            s.wf(),
            s.tokens@ == toks,
            m0.items == xs@ + many_rec(*p, toks, s.pos as int).items,
            m0.end == many_rec(*p, toks, s.pos as int).end,
            m0.ok == many_rec(*p, toks, s.pos as int).ok,
            m0.err == many_rec(*p, toks, s.pos as int).err,
        decreases toks.len() - s.pos,
    {
        let ghost cur = s.pos as int;
        match opt(s, p) {
            Ok(Some(x)) => {
                xs.push(x);
                proof {
                    assert(m0.items =~= xs@ + many_rec(*p, toks, s.pos as int).items);
                }
            },
            Ok(None) => {
                proof {
                    assert(m0.items =~= xs@);
                }
                return Ok(xs);
            },
            Err(e) => {
                return Err(e);
            },
        }
    }
}

/// Whether a separated run's final separator was present or missing: a run
/// that ends right after a separator has it present.
#[derive(Clone, Copy, Debug, PartialEq, Eq, Structural)]
pub enum FinalSep {
    Present,
    Missing,
}

/// The cursor's position after consuming the token at `pos`.
pub open spec fn step_pos(toks: Seq<Token>, pos: int) -> int {
    if pos + 1 < toks.len() {
        pos + 1
    } else {
        pos
    }
}

/// What a comma-separated run of a rule gives: the items, where the cursor
/// ends, whether the run ended cleanly, its error otherwise, and whether a
/// separator trailed the last item.
pub ghost struct SeqOut<T> {
    pub items: Seq<T>,
    pub end: int,
    pub ok: bool,
    pub err: ParseError,
    pub sep: FinalSep,
}

pub open spec fn seq_rec<T, P: Parser<T>>(
    p: P,
    toks: Seq<Token>,
    pos: int,
    after_comma: bool,
) -> SeqOut<T>
    decreases toks.len() - pos,
{
    if 0 <= pos < toks.len() && p.accepts(toks, pos) && pos < p.good_pos(toks, pos) <= toks.len() {
        let nxt = p.good_pos(toks, pos);
        if nxt < toks.len() && toks[nxt].kind == TokenKind::Comma {
            let rest = seq_rec(p, toks, step_pos(toks, nxt), true);
            SeqOut {
                items: seq![p.value(toks, pos)] + rest.items,
                end: rest.end,
                ok: rest.ok,
                err: rest.err,
                sep: rest.sep,
            }
        } else {
            SeqOut {
                items: seq![p.value(toks, pos)],
                end: nxt,
                ok: true,
                err: p.bad_err(toks, pos),
                sep: FinalSep::Missing,
            }
        }
    } else if !p.accepts(toks, pos) && p.bad_pos(toks, pos) == pos {
        SeqOut {
            items: Seq::empty(),
            end: pos,
            ok: true,
            err: p.bad_err(toks, pos),
            sep: if after_comma {
                FinalSep::Present
            } else {
                FinalSep::Missing
            },
        }
    } else {
        SeqOut {
            items: Seq::empty(),
            end: p.bad_pos(toks, pos),
            ok: false,
            err: p.bad_err(toks, pos),
            sep: FinalSep::Missing,
        }
    }
}

/// Repeats a rule separated by commas, and says whether a comma trailed the
/// last item. The run ends cleanly when the rule fails without consuming;
/// a failure that consumed is the run's error.
#[verifier::loop_isolation(false)]
pub fn seq<T, P: Parser<T>>(s: &mut Scanner, p: &P) -> (r: Result<(Vec<T>, FinalSep), ParseError>)
    requires
        old(s).wf(),
        progressive(*p, old(s).tokens@),
    ensures
        final(s).wf(),
        final(s).tokens@ == old(s).tokens@,
        match r {
            Ok(out) => {
                let m = seq_rec(*p, old(s).tokens@, old(s).pos as int, false);
                m.ok && out.0@ == m.items && out.1 == m.sep && final(s).pos as int == m.end
            },
            Err(e) => {
                let m = seq_rec(*p, old(s).tokens@, old(s).pos as int, false);
                !m.ok && e == m.err && final(s).pos as int == m.end
            },
        },
{
    let ghost toks = old(s).tokens@;
    let ghost m0 = seq_rec(*p, toks, old(s).pos as int, false);
    let mut xs: Vec<T> = Vec::new();
    let mut final_sep = FinalSep::Missing;
    let ghost after_comma = false;
    loop
        invariant
            s.wf(),
            s.tokens@ == toks,
            final_sep == (if after_comma {
                FinalSep::Present
            } else {
                FinalSep::Missing
            }),
            m0.items == xs@ + seq_rec(*p, toks, s.pos as int, after_comma).items,
            m0.end == seq_rec(*p, toks, s.pos as int, after_comma).end,
            m0.ok == seq_rec(*p, toks, s.pos as int, after_comma).ok,
            m0.err == seq_rec(*p, toks, s.pos as int, after_comma).err,
            m0.sep == seq_rec(*p, toks, s.pos as int, after_comma).sep,
        decreases toks.len() - s.pos,
    {
        let ghost cur = s.pos as int;
        let ghost mc = seq_rec(*p, toks, cur, after_comma);
        match opt(s, p) {
            Ok(Some(x)) => {
                xs.push(x);
                let ghost nxt = s.pos as int;
                match token(s, TokenKind::Comma) {
                    Ok(()) => {
                        final_sep = FinalSep::Present;
                        proof {
                            after_comma = true;
                            assert(s.pos as int == step_pos(toks, nxt));
                            assert(m0.items =~= xs@ + seq_rec(
                                *p,
                                toks,
                                s.pos as int,
                                after_comma,
                            ).items);
                        }
                    },
                    Err(_) => {
                        proof {
                            assert(mc.items =~= seq![x]);
                            assert(m0.items =~= xs@);
                        }
                        return Ok((xs, FinalSep::Missing));
                    },
                }
            },
            Ok(None) => {
                proof {
                    assert(m0.items =~= xs@);
                }
                return Ok((xs, final_sep));
            },
            Err(e) => {
                return Err(e);
            },
        }
    }
}

impl FinalSep {
    /// Turns a separated run into one value: a single item with no trailing
    /// separator was just a parenthesized item, anything else is a proper
    /// sequence.
    pub fn reify<T, U, F: FnOnce(T) -> U, G: FnOnce(Vec<T>) -> U>(
        self,
        xs: Vec<T>,
        as_paren: F,
        as_seq: G,
    ) -> (r: U)
        requires
            self == FinalSep::Missing && xs@.len() == 1 ==> call_requires(as_paren, (xs@[0],)),
            !(self == FinalSep::Missing && xs@.len() == 1) ==> call_requires(as_seq, (xs,)),
        ensures
            self == FinalSep::Missing && xs@.len() == 1 ==> call_ensures(as_paren, (xs@[0],), r),
            !(self == FinalSep::Missing && xs@.len() == 1) ==> call_ensures(as_seq, (xs,), r),
    {
        if self == FinalSep::Missing && xs.len() == 1 {
            let mut xs = xs;
            let x = xs.pop().unwrap();
            as_paren(x)
        } else {
            as_seq(xs)
        }
    }
}

/// The error a failed rule reports at `pos`.
pub open spec fn rule_err(toks: Seq<Token>, pos: int) -> ParseError {
    ParseError { kind: ParseErrorKind::Rule, span: toks[pos].span }
}

/// What parsing a dotted path gives: the identifier parts in order, where
/// the cursor ends, and whether it ended cleanly or on a missing identifier.
pub ghost struct PathOut {
    pub parts: Seq<Ident>,
    pub end: int,
    pub ok: bool,
    pub err: ParseError,
}

/// The parts after one identifier was taken: nothing more unless a dot
/// follows; after a dot, an identifier must follow, or the path fails with
/// the dot consumed.
pub open spec fn path_tail(toks: Seq<Token>, pos: int) -> PathOut
    decreases toks.len() - pos,
{
    if 0 <= pos < toks.len() && toks[pos].kind == TokenKind::Dot && pos + 1 < toks.len() {
        let here = pos + 1;
        if at_ident(toks, here) {
            let rest = path_tail(toks, step_pos(toks, here));
            PathOut {
                parts: seq![ident_at(toks, here)] + rest.parts,
                end: rest.end,
                ok: rest.ok,
                err: rest.err,
            }
        } else {
            PathOut { parts: Seq::empty(), end: here, ok: false, err: rule_err(toks, here) }
        }
    } else if 0 <= pos < toks.len() && toks[pos].kind == TokenKind::Dot {
        PathOut { parts: Seq::empty(), end: pos, ok: false, err: rule_err(toks, pos) }
    } else {
        PathOut { parts: Seq::empty(), end: pos, ok: true, err: rule_err(toks, pos) }
    }
}

/// What parsing a dotted path from `pos` gives: one identifier, then as many
/// dot-identifier pairs as follow.
pub open spec fn path_rec(toks: Seq<Token>, pos: int) -> PathOut {
    if at_ident(toks, pos) {
        let tail = path_tail(toks, step_pos(toks, pos));
        PathOut {
            parts: seq![ident_at(toks, pos)] + tail.parts,
            end: tail.end,
            ok: tail.ok,
            err: tail.err,
        }
    } else {
        PathOut { parts: Seq::empty(), end: pos, ok: false, err: rule_err(toks, pos) }
    }
}

/// The parts' names joined with dots.
pub open spec fn dotted(parts: Seq<Ident>) -> Seq<char> {
    join_v(parts.map_values(|part: Ident| part.name@), "."@)
}

/// Consumes a dotted path: identifiers separated by dots. All parts but the
/// last form the namespace qualifier, joined with dots; a single part is an
/// unqualified path. Fails without consuming when no identifier starts it;
/// fails with the dot consumed when no identifier follows a dot.
#[verifier::loop_isolation(false)]
pub fn path(s: &mut Scanner) -> (r: Result<Path, ParseError>)
    requires
        old(s).wf(),
    ensures
        final(s).wf(),
        final(s).tokens@ == old(s).tokens@,
        match r {
            Ok(p) => {
                let m = path_rec(old(s).tokens@, old(s).pos as int);
                &&& m.ok
                &&& final(s).pos as int == m.end
                &&& p.id == PLACEHOLDER_ID
                &&& p.span == (Span { lo: m.parts[0].span.lo, hi: m.parts.last().span.hi })
                &&& p.name == m.parts.last()
                &&& m.parts.len() == 1 ==> p.namespace is None
                &&& m.parts.len() > 1 ==> p.namespace is Some
                    && p.namespace.unwrap().id == PLACEHOLDER_ID
                    && p.namespace.unwrap().name@ == dotted(m.parts.drop_last())
                    && p.namespace.unwrap().span == (Span {
                        lo: m.parts[0].span.lo,
                        hi: m.parts[m.parts.len() - 2].span.hi,
                    })
            },
            Err(e) => {
                let m = path_rec(old(s).tokens@, old(s).pos as int);
                !m.ok && e == m.err && final(s).pos as int == m.end
            },
        },
{
    let ghost toks = old(s).tokens@;
    let ghost m0 = path_rec(toks, old(s).pos as int);
    let first = match ident(s) {
        Ok(id) => id,
        Err(e) => {
            return Err(e);
        },
    };
    let mut parts: Vec<Ident> = vec![first];
    proof {
        assert(m0.parts =~= parts@ + path_tail(toks, s.pos as int).parts);
    }
    loop
        invariant
            s.wf(),
            s.tokens@ == toks,
            parts@.len() >= 1,
            m0.parts == parts@ + path_tail(toks, s.pos as int).parts,
            m0.end == path_tail(toks, s.pos as int).end,
            m0.ok == path_tail(toks, s.pos as int).ok,
            m0.err == path_tail(toks, s.pos as int).err,
        decreases toks.len() - s.pos,
    {
        match token(s, TokenKind::Dot) {
            Ok(()) => {
                match ident(s) {
                    Ok(part) => {
                        parts.push(part);
                        proof {
                            assert(m0.parts =~= parts@ + path_tail(toks, s.pos as int).parts);
                        }
                    },
                    Err(e) => {
                        return Err(e);
                    },
                }
            },
            Err(_) => {
                // No dot follows: the path is complete.
                proof {
                    assert(m0.parts =~= parts@);
                }
                let mut parts = parts;
                let name = parts.pop().unwrap();
                let lo = if parts.len() == 0 {
                    name.span.lo
                } else {
                    parts[0].span.lo
                };
                let namespace = if parts.len() == 0 {
                    None
                } else {
                    let names = part_names(&parts);
                    let hi = parts[parts.len() - 1].span.hi;
                    let joined = join(&names, ".");
                    proof {
                        assert(names@.map_values(|n: String| n@) =~= parts@.map_values(
                            |part: Ident| part.name@,
                        ));
                        assert(parts@ =~= m0.parts.drop_last());
                    }
                    Some(Ident { id: PLACEHOLDER_ID, span: Span { lo, hi }, name: joined })
                };
                return Ok(Path {
                    id: PLACEHOLDER_ID,
                    span: Span { lo, hi: name.span.hi },
                    namespace,
                    name,
                });
            },
        }
    }
}

/// The parts' names, in order.
#[verifier::loop_isolation(false)]
fn part_names(parts: &Vec<Ident>) -> (r: Vec<String>)
    ensures
        r@.map_values(|n: String| n@) == parts@.map_values(|part: Ident| part.name@),
{
    let mut names: Vec<String> = Vec::new();
    let mut i: usize = 0;
    while i < parts.len()
        invariant
            i <= parts@.len(),
            names@.len() == i,
            forall|j: int| 0 <= j < i ==> names@[j]@ == parts@[j].name@,
        decreases parts@.len() - i,
    {
        names.push(parts[i].name.clone());
        i += 1;
    }
    proof {
        assert(names@.map_values(|n: String| n@) =~= parts@.map_values(
            |part: Ident| part.name@,
        ));
    }
    names
}

/// Consumes a dotted path and flattens it back into one identifier whose
/// name is all the parts joined with dots.
pub fn dot_ident(s: &mut Scanner) -> (r: Result<Ident, ParseError>)
    requires
        old(s).wf(),
    ensures
        final(s).wf(),
        final(s).tokens@ == old(s).tokens@,
        match r {
            Ok(id) => {
                let m = path_rec(old(s).tokens@, old(s).pos as int);
                &&& m.ok
                &&& final(s).pos as int == m.end
                &&& id.id == PLACEHOLDER_ID
                &&& id.span == (Span { lo: m.parts[0].span.lo, hi: m.parts.last().span.hi })
                &&& id.name@ == dotted(m.parts)
            },
            Err(e) => {
                let m = path_rec(old(s).tokens@, old(s).pos as int);
                !m.ok && e == m.err && final(s).pos as int == m.end
            },
        },
{
    let ghost m = path_rec(old(s).tokens@, old(s).pos as int);
    let p = match path(s) {
        Ok(p) => p,
        Err(e) => {
            return Err(e);
        },
    };
    let name = match p.namespace {
        Some(ns) => {
            let mut joined = ns.name;
            joined.append(".");
            joined.append(p.name.name.as_str());
            proof {
                assert(m.parts =~= m.parts.drop_last().push(m.parts.last()));
                lemma_dotted_snoc(m.parts.drop_last(), m.parts.last());
            }
            joined
        },
        None => {
            proof {
                assert(m.parts.map_values(|part: Ident| part.name@) =~= seq![
                    m.parts.last().name@,
                ]);
            }
            p.name.name
        },
    };
    Ok(Ident { id: PLACEHOLDER_ID, span: p.span, name })
}

/// Joining one more part appends a dot and the part to the join so far.
proof fn lemma_dotted_snoc(parts: Seq<Ident>, last: Ident)
    requires
        parts.len() >= 1,
    ensures
        dotted(parts.push(last)) == dotted(parts) + "."@ + last.name@,
{
    let views = parts.push(last).map_values(|part: Ident| part.name@);
    assert(views.drop_last() =~= parts.map_values(|part: Ident| part.name@));
    assert(views.last() == last.name@);
}

/// The given strings joined with the separator between each two.
pub open spec fn join_v(parts: Seq<Seq<char>>, sep: Seq<char>) -> Seq<char>
    decreases parts.len(),
{
    if parts.len() == 0 {
        Seq::empty()
    } else if parts.len() == 1 {
        parts[0]
    } else {
        join_v(parts.drop_last(), sep) + sep + parts.last()
    }
}

/// Joins the strings with the separator between each two.
#[verifier::loop_isolation(false)]
pub fn join(parts: &Vec<String>, sep: &str) -> (r: String)
    ensures
        r@ == join_v(parts@.map_values(|part: String| part@), sep@),
{
    let ghost views = parts@.map_values(|part: String| part@);
    let mut out = String::new();
    let mut i: usize = 0;
    while i < parts.len()
        invariant
            i <= parts@.len(),
            out@ == join_v(views.take(i as int), sep@),
        decreases parts@.len() - i,
    {
        if i > 0 {
            out.append(sep);
        }
        out.append(parts[i].as_str());
        i += 1;
        proof {
            assert(views.take(i as int).last() == views[i - 1]);
            assert(views.take(i as int).drop_last() =~= views.take(i - 1));
            assert(out@ =~= join_v(views.take(i as int), sep@));
        }
    }
    proof {
        assert(views.take(views.len() as int) =~= views);
    }
    out
}

} // verus!

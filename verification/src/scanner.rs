//! The scanning engine: the cursor over the source text, the individual
//! matching rules, and the ordered-alternation combinator that composes
//! them into a tokenizer.

use crate::model::{
    arrow_step, catchall_step, comment_at, group_step, id_or_keyword_step, id_start_at,
    lemma_group_at_end, lemma_group_progress, lemma_group_step_bounds, lemma_line_run_end_bounds,
    lemma_no_match_only_at_end, lemma_ws_run_end_bounds, line_run_end, single_punct_step,
    skip_end, skip_step, spec_stream, standard_rules, symbol_step, ws_run_end, xid_run_end,
    SpecErr, SpecOutcome, SpecTok,
};
use crate::token::{
    Id, Inst, InstKind, Keyword, KeywordKind, Punct, PunctKind, Symbol, SymbolKind, Token,
};
use crate::unicode::{
    is_whitespace, lowercase_chars, whitespace_char, xid_continue_char, xid_start_char,
};
use crate::Span;
use vstd::prelude::*;

verus! {

/// A rule of the scanner. The combinator tries rules in order; this
/// closed set names each of them.
#[derive(Clone, Copy, Debug, PartialEq, Eq, Structural)]
pub enum Rule {
    /// Skip whitespace and comments; always a no-match.
    Skip,
    /// A `@`-prefixed symbol.
    Symbol,
    /// An identifier, classified as mnemonic, keyword or plain identifier.
    IdOrKeyword,
    /// The two-character arrow `->`.
    Arrow,
    /// Single-character punctuation.
    SinglePunct,
    /// Consume one character and fail fatally.
    Catchall,
}

/// The recoverable "this rule does not apply here" signal of the two
/// skip helpers.
#[derive(Clone, Copy, Debug, PartialEq, Eq, Structural)]
pub struct NoMatchError;

/// An error that occurred during scanning.
#[derive(Clone, Debug, Hash, PartialEq, Eq, Structural)]
pub enum ScanError {
    /// No match could be found; recoverable, never surfaced to a consumer.
    NoMatch,
    /// A character was invalid.
    UnrecognizedCharacter { pos: Span },
    /// A symbol name was expected after an `@` symbol; `pos` is the
    /// position of the `@`.
    SymbolNameExpected { pos: usize },
    /// The character after the `@` symbol cannot begin an identifier;
    /// `pos` is the position of the offending character.
    InvalidSymbolName { pos: usize },
}

impl ScanError {
    /// Whether this error is the recoverable no-match signal.
    pub fn is_no_match(&self) -> (r: bool)
        ensures
            r == (*self is NoMatch),
    {
        matches!(self, ScanError::NoMatch)
    }
}

/// A position-tracking view over the source text: the characters and a
/// current offset that never moves backwards and never passes the end.
pub struct Cursor {
    text: Vec<char>,
    pos: usize,
}

impl Cursor {
    /// The characters of the source text.
    pub closed spec fn chars(&self) -> Seq<char> {
        self.text@
    }

    /// The current offset, in characters, from the start of the text.
    pub closed spec fn position(&self) -> int {
        self.pos as int
    }

    /// The cursor's invariant: the offset lies within the text.
    pub open spec fn wf(&self) -> bool {
        0 <= self.position() <= self.chars().len()
    }

    /// Creates a cursor at the start of the given text.
    pub fn new(text: Vec<char>) -> (c: Cursor)
        ensures
            c.wf(),
            c.chars() == text@,
            c.position() == 0,
    {
        Cursor { text, pos: 0 }
    }

    /// The current offset.
    pub fn pos(&self) -> (p: usize)
        ensures
            p as int == self.position(),
    {
        self.pos
    }

    /// Whether the cursor has consumed the whole text.
    pub fn at_end(&self) -> (b: bool)
        requires
            self.wf(),
        ensures
            b == (self.position() == self.chars().len()),
    {
        self.pos == self.text.len()
    }

    /// The current character, without consuming it; `None` at the end of
    /// the text.
    pub fn peek(&self) -> (r: Option<char>)
        requires
            self.wf(),
        ensures
            self.position() < self.chars().len() ==> r == Some(
                self.chars()[self.position()],
            ),
            self.position() == self.chars().len() ==> r is None,
    {
        if self.pos < self.text.len() {
            Some(self.text[self.pos])
        } else {
            None
        }
    }

    /// The character `n` places ahead of the current one, without
    /// consuming anything; `None` if that runs off the end.
    pub fn peek_nth(&self, n: usize) -> (r: Option<char>)
        requires
            self.wf(),
        ensures
            self.position() + n < self.chars().len() ==> r == Some(
                self.chars()[self.position() + n],
            ),
            self.position() + n >= self.chars().len() ==> r is None,
    {
        let remaining = self.text.len() - self.pos;
        if n < remaining {
            Some(self.text[self.pos + n])
        } else {
            None
        }
    }

    /// Consumes and returns the current character, advancing the offset
    /// by one; `None`, without moving, at the end of the text.
    pub fn next(&mut self) -> (r: Option<char>)
        requires
            old(self).wf(),
        ensures
            final(self).wf(),
            final(self).chars() == old(self).chars(),
            old(self).position() < old(self).chars().len() ==> r == Some(
                old(self).chars()[old(self).position()],
            ) && final(self).position() == old(self).position() + 1,
            old(self).position() == old(self).chars().len() ==> r is None && final(self).position()
                == old(self).position(),
    {
        if self.pos < self.text.len() {
            let c = self.text[self.pos];
            self.pos = self.pos + 1;
            Some(c)
        } else {
            None
        }
    }

    /// Consumes `n + 1` characters in one step and returns the last one
    /// consumed; consumes what is left and returns `None` if fewer than
    /// `n + 1` remain.
    pub fn nth(&mut self, n: usize) -> (r: Option<char>)
        requires
            old(self).wf(),
        ensures
            final(self).wf(),
            final(self).chars() == old(self).chars(),
            old(self).position() + n < old(self).chars().len() ==> r == Some(
                old(self).chars()[old(self).position() + n],
            ) && final(self).position() == old(self).position() + n + 1,
            old(self).position() + n >= old(self).chars().len() ==> r is None
                && final(self).position() == old(self).chars().len(),
    {
        let remaining = self.text.len() - self.pos;
        if n < remaining {
            let c = self.text[self.pos + n];
            self.pos = self.pos + n + 1;
            Some(c)
        } else {
            self.pos = self.text.len();
            None
        }
    }

    /// A copy of the characters in `[from, to)`.
    pub fn slice(&self, from: usize, to: usize) -> (r: Vec<char>)
        requires
            self.wf(),
            from <= to <= self.chars().len(),
        ensures
            r@ == self.chars().subrange(from as int, to as int),
    {
        let mut out: Vec<char> = Vec::new();
        let mut i: usize = from;
        while i < to
            invariant
                from <= i <= to <= self.chars().len(),
                out@ == self.chars().subrange(from as int, i as int),
            decreases to - i,
        {
            out.push(self.text[i]);
            proof {
                assert(out@ =~= self.chars().subrange(from as int, i + 1 as int));
            }
            i = i + 1;
        }
        out
    }
}

/// Whether an executable token is the one the model describes: same
/// kind, same span, and (for identifiers and symbols) exactly the
/// characters of the text under that span.
pub open spec fn token_matches(text: Seq<char>, st: SpecTok, tok: Token) -> bool {
    match st {
        SpecTok::Id { start, end } => tok matches Token::Id(id) && id.span.start as int == start
            && id.span.end as int == end && id.value@ == text.subrange(start, end),
        SpecTok::Symbol { start, end } => tok matches Token::Symbol(sym) && sym.span.start as int
            == start && sym.span.end as int == end && sym.kind == SymbolKind::Id && sym.value@
            == text.subrange(start, end),
        SpecTok::Keyword { start, end } => tok matches Token::Keyword(kw) && kw.span.start as int
            == start && kw.span.end as int == end && kw.kind == KeywordKind::Fn,
        SpecTok::Inst { start, end } => tok matches Token::Inst(inst) && inst.span.start as int
            == start && inst.span.end as int == end && inst.kind == InstKind::Ret,
        SpecTok::Punct { start, end, kind } => tok matches Token::Punct(p) && p.span.start as int
            == start && p.span.end as int == end && p.kind == kind,
    }
}

/// Whether an executable scan error is the fatal error the model
/// describes.
pub open spec fn err_matches(se: SpecErr, e: ScanError) -> bool {
    match se {
        SpecErr::Unrecognized { start, end } => e matches ScanError::UnrecognizedCharacter {
            pos,
        } && pos.start as int == start && pos.end as int == end,
        SpecErr::NameExpected { pos } => e matches ScanError::SymbolNameExpected { pos: p } && p
            as int == pos,
        SpecErr::InvalidName { pos } => e matches ScanError::InvalidSymbolName { pos: p } && p
            as int == pos,
    }
}

/// Whether an executable rule result is the outcome the model describes.
pub open spec fn outcome_matches(
    text: Seq<char>,
    o: SpecOutcome,
    r: Result<Token, ScanError>,
) -> bool {
    match o {
        SpecOutcome::Matched(st) => r matches Ok(tok) && token_matches(text, st, tok),
        SpecOutcome::Fatal(se) => r matches Err(e) && err_matches(se, e),
        SpecOutcome::NoMatch => r matches Err(e) && e is NoMatch,
    }
}

/// Skips the leading run of whitespace; a no-match, with the cursor
/// untouched, if the current character is not whitespace.
pub fn skip_whitespace(input: &mut Cursor) -> (r: Result<(), NoMatchError>)
    requires
        old(input).wf(),
    ensures
        final(input).wf(),
        final(input).chars() == old(input).chars(),
        ({
            let t = old(input).chars();
            let p = old(input).position();
            if p < t.len() && is_whitespace(t[p]) {
                r is Ok && final(input).position() == ws_run_end(t, p)
            } else {
                r is Err && final(input).position() == p
            }
        }),
{
    let ghost t = input.chars();
    let ghost p0 = input.position();
    let ws = match input.peek() {
        Some(c) => whitespace_char(c),
        None => false,
    };
    if !ws {
        return Err(NoMatchError);
    }
    loop
        invariant
            input.wf(),
            input.chars() == t,
            p0 <= input.position() <= t.len(),
            ws_run_end(t, p0) == ws_run_end(t, input.position()),
        ensures
            input.wf(),
            input.chars() == t,
            input.position() == ws_run_end(t, p0),
        decreases t.len() - input.position(),
    {
        let more = match input.peek() {
            Some(c) => whitespace_char(c),
            None => false,
        };
        if !more {
            break;
        }
        input.next();
    }
    Ok(())
}

/// Skips a leading line comment: a `//` marker and everything up to,
/// but not including, the next line break; a no-match, with the cursor
/// untouched, if the marker is absent.
pub fn skip_comment(input: &mut Cursor) -> (r: Result<(), NoMatchError>)
    requires
        old(input).wf(),
    ensures
        final(input).wf(),
        final(input).chars() == old(input).chars(),
        ({
            let t = old(input).chars();
            let p = old(input).position();
            if comment_at(t, p) {
                r is Ok && final(input).position() == line_run_end(t, p + 2)
            } else {
                r is Err && final(input).position() == p
            }
        }),
{
    let ghost t = input.chars();
    let ghost p0 = input.position();
    let marker = match (input.peek(), input.peek_nth(1)) {
        (Some(a), Some(b)) => a == '/' && b == '/',
        _ => false,
    };
    if !marker {
        return Err(NoMatchError);
    }
    input.nth(1);
    loop
        invariant
            input.wf(),
            input.chars() == t,
            p0 + 2 <= input.position() <= t.len(),
            line_run_end(t, p0 + 2) == line_run_end(t, input.position()),
        ensures
            input.wf(),
            input.chars() == t,
            input.position() == line_run_end(t, p0 + 2),
        decreases t.len() - input.position(),
    {
        let more = match input.peek() {
            Some(c) => !(c == '\n' || c == '\r'),
            None => false,
        };
        if !more {
            break;
        }
        input.next();
    }
    Ok(())
}

/// The composite skip rule: repeatedly skips whitespace and comments
/// until neither applies, then always returns a no-match. It never
/// produces a token; it exists purely to advance the cursor past
/// ignorable text before the classification rules run.
pub fn skip(input: &mut Cursor) -> (r: Result<Token, ScanError>)
    requires
        old(input).wf(),
    ensures
        final(input).wf(),
        final(input).chars() == old(input).chars(),
        final(input).position() == skip_step(old(input).chars(), old(input).position()).next,
        outcome_matches(
            old(input).chars(),
            skip_step(old(input).chars(), old(input).position()).outcome,
            r,
        ),
{
    let ghost t = input.chars();
    let ghost p0 = input.position();
    loop
        invariant
            input.wf(),
            input.chars() == t,
            0 <= input.position() <= t.len(),
            skip_end(t, p0) == skip_end(t, input.position()),
        ensures
            input.wf(),
            input.chars() == t,
            input.position() == skip_end(t, p0),
        decreases t.len() - input.position(),
    {
        let ghost q = input.position();
        let a = skip_whitespace(input);
        if a.is_err() {
            let b = skip_comment(input);
            if b.is_err() {
                break;
            }
            proof {
                lemma_line_run_end_bounds(t, q + 2);
            }
        } else {
            proof {
                lemma_ws_run_end_bounds(t, q + 1);
            }
        }
    }
    Err(ScanError::NoMatch)
}

/// Scans a single symbol token: a `@` followed by an identifier. Once
/// the `@` is consumed, a missing or invalid name character is a fatal
/// error, not a no-match.
pub fn scan_symbol(input: &mut Cursor) -> (r: Result<Token, ScanError>)
    requires
        old(input).wf(),
    ensures
        final(input).wf(),
        final(input).chars() == old(input).chars(),
        final(input).position() == symbol_step(old(input).chars(), old(input).position()).next,
        outcome_matches(
            old(input).chars(),
            symbol_step(old(input).chars(), old(input).position()).outcome,
            r,
        ),
{
    let ghost t = input.chars();
    let ghost p0 = input.position();
    let start_pos = input.pos();
    let at_marker = match input.peek() {
        Some(c) => c == '@',
        None => false,
    };
    if !at_marker {
        return Err(ScanError::NoMatch);
    }
    input.next();
    match input.next() {
        None => {
            return Err(ScanError::SymbolNameExpected { pos: start_pos });
        },
        Some(c) => {
            if !(xid_start_char(c) || c == '_') {
                return Err(ScanError::InvalidSymbolName { pos: start_pos + 1 });
            }
        },
    }
    loop
        invariant
            input.wf(),
            input.chars() == t,
            p0 + 2 <= input.position() <= t.len(),
            xid_run_end(t, p0 + 2) == xid_run_end(t, input.position()),
        ensures
            input.wf(),
            input.chars() == t,
            input.position() == xid_run_end(t, p0 + 2),
        decreases t.len() - input.position(),
    {
        let more = match input.peek() {
            Some(c) => xid_continue_char(c),
            None => false,
        };
        if !more {
            break;
        }
        input.next();
    }
    let end_pos = input.pos();
    let value = input.slice(start_pos, end_pos);
    Ok(
        Token::Symbol(
            Symbol {
                span: Span { start: start_pos, end: end_pos },
                kind: SymbolKind::Id,
                value,
            },
        ),
    )
}

/// Scans a single identifier: an identifier-start character (or
/// underscore) followed by the run of identifier-continuation
/// characters; a no-match, with the cursor untouched, otherwise.
pub fn scan_id(input: &mut Cursor) -> (r: Result<Id, ScanError>)
    requires
        old(input).wf(),
    ensures
        final(input).wf(),
        final(input).chars() == old(input).chars(),
        ({
            let t = old(input).chars();
            let p = old(input).position();
            if id_start_at(t, p) {
                &&& r matches Ok(id)
                &&& id.span.start as int == p
                &&& id.span.end as int == xid_run_end(t, p + 1)
                &&& id.value@ == t.subrange(p, xid_run_end(t, p + 1))
                &&& final(input).position() == xid_run_end(t, p + 1)
            } else {
                &&& r matches Err(e)
                &&& e is NoMatch
                &&& final(input).position() == p
            }
        }),
{
    let ghost t = input.chars();
    let ghost p0 = input.position();
    let start_pos = input.pos();
    let starts = match input.peek() {
        Some(c) => xid_start_char(c) || c == '_',
        None => false,
    };
    if !starts {
        return Err(ScanError::NoMatch);
    }
    input.next();
    loop
        invariant
            input.wf(),
            input.chars() == t,
            p0 + 1 <= input.position() <= t.len(),
            xid_run_end(t, p0 + 1) == xid_run_end(t, input.position()),
        ensures
            input.wf(),
            input.chars() == t,
            input.position() == xid_run_end(t, p0 + 1),
        decreases t.len() - input.position(),
    {
        let more = match input.peek() {
            Some(c) => xid_continue_char(c),
            None => false,
        };
        if !more {
            break;
        }
        input.next();
    }
    let end_pos = input.pos();
    let value = input.slice(start_pos, end_pos);
    Ok(Id { span: Span { start: start_pos, end: end_pos }, value })
}

/// Whether the characters are exactly `ret`.
fn eq_ret(v: &Vec<char>) -> (r: bool)
    ensures
        r == (v@ == seq!['r', 'e', 't']),
{
    if v.len() != 3 {
        return false;
    }
    let r = v[0] == 'r' && v[1] == 'e' && v[2] == 't';
    proof {
        if r {
            assert(v@ =~= seq!['r', 'e', 't']);
        }
    }
    r
}

/// Whether the characters are exactly `fn`.
fn eq_fn(v: &Vec<char>) -> (r: bool)
    ensures
        r == (v@ == seq!['f', 'n']),
{
    if v.len() != 2 {
        return false;
    }
    let r = v[0] == 'f' && v[1] == 'n';
    proof {
        if r {
            assert(v@ =~= seq!['f', 'n']);
        }
    }
    r
}

/// Scans a single identifier and classifies it: a case-insensitive
/// match of the instruction mnemonic `ret` first, then an exact-case
/// match of the keyword `fn`, and a plain identifier otherwise. The
/// asymmetry is deliberate: mnemonics are case-insensitive, keywords are
/// not.
pub fn scan_id_or_keyword(input: &mut Cursor) -> (r: Result<Token, ScanError>)
    requires
        old(input).wf(),
    ensures
        final(input).wf(),
        final(input).chars() == old(input).chars(),
        final(input).position() == id_or_keyword_step(
            old(input).chars(),
            old(input).position(),
        ).next,
        outcome_matches(
            old(input).chars(),
            id_or_keyword_step(old(input).chars(), old(input).position()).outcome,
            r,
        ),
{
    let ghost t = input.chars();
    let ghost p0 = input.position();
    let id = match scan_id(input) {
        Err(e) => {
            return Err(e);
        },
        Ok(id) => id,
    };
    let low = lowercase_chars(&id.value);
    if eq_ret(&low) {
        return Ok(Token::Inst(Inst { span: id.span, kind: InstKind::Ret }));
    }
    if eq_fn(&id.value) {
        return Ok(Token::Keyword(Keyword { span: id.span, kind: KeywordKind::Fn }));
    }
    Ok(Token::Id(id))
}

/// Scans the two-character arrow `->`; a no-match, with the cursor
/// untouched, unless both characters are present.
pub fn scan_arrow(input: &mut Cursor) -> (r: Result<Token, ScanError>)
    requires
        old(input).wf(),
    ensures
        final(input).wf(),
        final(input).chars() == old(input).chars(),
        final(input).position() == arrow_step(old(input).chars(), old(input).position()).next,
        outcome_matches(
            old(input).chars(),
            arrow_step(old(input).chars(), old(input).position()).outcome,
            r,
        ),
{
    let start_pos = input.pos();
    let matches_arrow = match (input.peek(), input.peek_nth(1)) {
        (Some(a), Some(b)) => a == '-' && b == '>',
        _ => false,
    };
    if !matches_arrow {
        return Err(ScanError::NoMatch);
    }
    input.nth(1);
    let end_pos = input.pos();
    Ok(
        Token::Punct(
            Punct { span: Span { start: start_pos, end: end_pos }, kind: PunctKind::Arrow },
        ),
    )
}

/// Scans a single-character punctuation token: `(`, `)` or `:`.
pub fn scan_single_punct(input: &mut Cursor) -> (r: Result<Token, ScanError>)
    requires
        old(input).wf(),
    ensures
        final(input).wf(),
        final(input).chars() == old(input).chars(),
        final(input).position() == single_punct_step(
            old(input).chars(),
            old(input).position(),
        ).next,
        outcome_matches(
            old(input).chars(),
            single_punct_step(old(input).chars(), old(input).position()).outcome,
            r,
        ),
{
    let start_pos = input.pos();
    let kind = match input.peek() {
        Some(c) => {
            if c == '(' {
                PunctKind::OpenParen
            } else if c == ')' {
                PunctKind::CloseParen
            } else if c == ':' {
                PunctKind::Colon
            } else {
                return Err(ScanError::NoMatch);
            }
        },
        None => {
            return Err(ScanError::NoMatch);
        },
    };
    input.next();
    let end_pos = input.pos();
    Ok(Token::Punct(Punct { span: Span { start: start_pos, end: end_pos }, kind }))
}

/// The last-resort rule: consumes exactly one character and fails
/// fatally, so that a successful combinator invocation before the end of
/// the text always advances the cursor.
pub fn catchall(input: &mut Cursor) -> (r: Result<Token, ScanError>)
    requires
        old(input).wf(),
    ensures
        final(input).wf(),
        final(input).chars() == old(input).chars(),
        final(input).position() == catchall_step(old(input).chars(), old(input).position()).next,
        outcome_matches(
            old(input).chars(),
            catchall_step(old(input).chars(), old(input).position()).outcome,
            r,
        ),
{
    let start_pos = input.pos();
    match input.next() {
        None => Err(ScanError::NoMatch),
        Some(_) => {
            let end_pos = input.pos();
            Err(ScanError::UnrecognizedCharacter { pos: Span { start: start_pos, end: end_pos } })
        },
    }
}

/// Applies one rule at the cursor's current position.
pub fn apply(rule: Rule, input: &mut Cursor) -> (r: Result<Token, ScanError>)
    requires
        old(input).wf(),
    ensures
        final(input).wf(),
        final(input).chars() == old(input).chars(),
        final(input).position() == crate::model::rule_step(
            rule,
            old(input).chars(),
            old(input).position(),
        ).next,
        outcome_matches(
            old(input).chars(),
            crate::model::rule_step(rule, old(input).chars(), old(input).position()).outcome,
            r,
        ),
{
    match rule {
        Rule::Skip => skip(input),
        Rule::Symbol => scan_symbol(input),
        Rule::IdOrKeyword => scan_id_or_keyword(input),
        Rule::Arrow => scan_arrow(input),
        Rule::SinglePunct => scan_single_punct(input),
        Rule::Catchall => catchall(input),
    }
}

/// An ordered list of rules tried in sequence: the first token produced
/// is returned at once; a fatal error propagates at once; a no-match
/// moves on to the next rule at whatever position the failing rule left
/// behind.
pub struct Group {
    rules: Vec<Rule>,
}

impl Group {
    /// The rules of this group, in the order they are tried.
    pub closed spec fn rules(&self) -> Seq<Rule> {
        self.rules@
    }

    /// A group with no rules at all.
    pub fn empty() -> (g: Group)
        ensures
            g.rules() == Seq::<Rule>::empty(),
    {
        Group { rules: Vec::new() }
    }

    /// Appends a rule; rules run in the order they were added.
    pub fn add(self, rule: Rule) -> (g: Group)
        ensures
            g.rules() == self.rules().push(rule),
    {
        let mut rules = self.rules;
        rules.push(rule);
        Group { rules }
    }

    /// One invocation of the group: tries each rule in order at the
    /// cursor's current position. A token or a fatal error is returned
    /// immediately; if every rule returns no-match, the group returns
    /// no-match. The cursor keeps whatever advance the rules performed.
    pub fn invoke(&self, input: &mut Cursor) -> (r: Result<Token, ScanError>)
        requires
            old(input).wf(),
        ensures
            final(input).wf(),
            final(input).chars() == old(input).chars(),
            final(input).position() == group_step(
                self.rules(),
                old(input).chars(),
                old(input).position(),
            ).next,
            outcome_matches(
                old(input).chars(),
                group_step(self.rules(), old(input).chars(), old(input).position()).outcome,
                r,
            ),
    {
        let ghost t = input.chars();
        let ghost p0 = input.position();
        proof {
            assert(self.rules().skip(0) =~= self.rules());
        }
        let mut i: usize = 0;
        while i < self.rules.len()
            invariant
                input.wf(),
                input.chars() == t,
                t == old(input).chars(),
                p0 == old(input).position(),
                i <= self.rules().len(),
                group_step(self.rules(), t, p0) == group_step(
                    self.rules().skip(i as int),
                    t,
                    input.position(),
                ),
            decreases self.rules().len() - i,
        {
            proof {
                assert(self.rules().skip(i as int)[0] == self.rules()[i as int]);
                assert(self.rules().skip(i as int).skip(1) =~= self.rules().skip(i as int + 1));
            }
            let r = apply(self.rules[i], input);
            match r {
                Ok(tok) => {
                    return Ok(tok);
                },
                Err(e) => {
                    if !e.is_no_match() {
                        return Err(e);
                    }
                },
            }
            i = i + 1;
        }
        proof {
            assert(self.rules().skip(i as int) =~= Seq::<Rule>::empty());
        }
        Err(ScanError::NoMatch)
    }
}

impl Group {
    /// One pull on the token stream: `None` signals the end of the
    /// stream (the invocation found no match); everything else — tokens
    /// and fatal errors alike — is a stream item. For the standard
    /// scanner a no-match can only happen once the cursor has reached
    /// the end of the text, so a consumer never observes a bare
    /// no-match before exhaustion.
    pub fn next_token(&self, input: &mut Cursor) -> (r: Option<Result<Token, ScanError>>)
        requires
            old(input).wf(),
        ensures
            final(input).wf(),
            final(input).chars() == old(input).chars(),
            final(input).position() == group_step(
                self.rules(),
                old(input).chars(),
                old(input).position(),
            ).next,
            ({
                let o = group_step(self.rules(), old(input).chars(), old(input).position()).outcome;
                if o is NoMatch {
                    r is None
                } else {
                    r matches Some(x) && outcome_matches(old(input).chars(), o, x)
                }
            }),
    {
        match self.invoke(input) {
            Ok(tok) => Some(Ok(tok)),
            Err(e) => {
                if e.is_no_match() {
                    None
                } else {
                    Some(Err(e))
                }
            },
        }
    }
}

/// Whether a sequence of executable stream results is exactly the stream
/// the model describes.
pub open spec fn stream_matches(
    text: Seq<char>,
    items: Seq<SpecOutcome>,
    out: Seq<Result<Token, ScanError>>,
) -> bool {
    &&& out.len() == items.len()
    &&& forall|i: int|
        0 <= i < items.len() ==> outcome_matches(text, items[i], #[trigger] out[i])
}

/// Pulls the standard scanner's token stream to exhaustion: the results,
/// in order, are exactly the stream the model describes, and the cursor
/// ends at the end of the text.
pub fn scan_all(input: &mut Cursor) -> (out: Vec<Result<Token, ScanError>>)
    requires
        old(input).wf(),
    ensures
        final(input).wf(),
        final(input).chars() == old(input).chars(),
        final(input).position() == old(input).chars().len(),
        stream_matches(
            old(input).chars(),
            spec_stream(old(input).chars(), old(input).position()),
            out@,
        ),
{
    let g = new();
    let ghost t = input.chars();
    let ghost p0 = input.position();
    let mut out: Vec<Result<Token, ScanError>> = Vec::new();
    loop
        invariant
            input.wf(),
            input.chars() == t,
            t == old(input).chars(),
            p0 == old(input).position(),
            g.rules() == standard_rules(),
            out@.len() + spec_stream(t, input.position()).len() == spec_stream(t, p0).len(),
            spec_stream(t, p0).skip(out@.len() as int) == spec_stream(t, input.position()),
            forall|i: int|
                0 <= i < out@.len() ==> outcome_matches(t, spec_stream(t, p0)[i], #[trigger] out@[i]),
        ensures
            input.wf(),
            input.chars() == t,
            input.position() == t.len(),
            stream_matches(t, spec_stream(t, p0), out@),
        decreases t.len() - input.position(),
    {
        let ghost p = input.position();
        proof {
            lemma_group_step_bounds(standard_rules(), t, p);
            if p == t.len() {
                lemma_group_at_end(t, p);
            } else {
                lemma_group_progress(t, p);
            }
        }
        let ghost k = out@.len() as int;
        match g.next_token(input) {
            None => {
                proof {
                    lemma_no_match_only_at_end(t, p);
                    lemma_group_at_end(t, t.len() as int);
                    assert(spec_stream(t, p) =~= Seq::<SpecOutcome>::empty());
                    assert(spec_stream(t, t.len() as int) =~= Seq::<SpecOutcome>::empty());
                }
                break;
            },
            Some(x) => {
                proof {
                    assert(spec_stream(t, p)[0] == group_step(standard_rules(), t, p).outcome);
                    assert(spec_stream(t, p0)[k] == spec_stream(t, p)[0]);
                    assert(spec_stream(t, p0).skip(k).skip(1) =~= spec_stream(t, p0).skip(k + 1));
                }
                out.push(x);
            },
        }
    }
    out
}

/// Initializes the standard scanner: the skip rule first, then the
/// classification rules in order, then the catch-all.
pub fn new() -> (g: Group)
    ensures
        g.rules() == standard_rules(),
{
    let g = Group::empty()
        .add(Rule::Skip)
        .add(Rule::Symbol)
        .add(Rule::IdOrKeyword)
        .add(Rule::Arrow)
        .add(Rule::SinglePunct)
        .add(Rule::Catchall);
    proof {
        assert(g.rules() =~= standard_rules());
    }
    g
}

} // verus!

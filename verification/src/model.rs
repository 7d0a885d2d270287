//! The mathematical model of the scanner.
//!
//! Every executable rule, the alternation combinator, and the token
//! stream are specified against the functions here: given the source
//! text (a sequence of characters) and a position, the model says which
//! outcome a rule or a whole combinator invocation produces and where
//! it leaves the cursor.

use crate::token::PunctKind;
use crate::unicode::{is_whitespace, is_xid_continue, is_xid_start, lowered};
use vstd::prelude::*;

verus! {

/// The abstract form of a token: its kind and its span. The characters
/// of an `Id` or `Symbol` token are always exactly `text[start..end]`.
pub ghost enum SpecTok {
    Id { start: int, end: int },
    Symbol { start: int, end: int },
    Keyword { start: int, end: int },
    Inst { start: int, end: int },
    Punct { start: int, end: int, kind: PunctKind },
}

/// The abstract form of a fatal scan error.
pub ghost enum SpecErr {
    Unrecognized { start: int, end: int },
    NameExpected { pos: int },
    InvalidName { pos: int },
}

/// What one rule (or one combinator invocation) yields: a token, a
/// fatal error, or the recoverable no-match signal.
pub ghost enum SpecOutcome {
    Matched(SpecTok),
    Fatal(SpecErr),
    NoMatch,
}

/// One step of scanning: the outcome together with the cursor position
/// it leaves behind.
pub ghost struct SpecStep {
    pub outcome: SpecOutcome,
    pub next: int,
}

/// The end of the run of whitespace characters starting at `pos`.
pub open spec fn ws_run_end(text: Seq<char>, pos: int) -> int
    decreases text.len() - pos,
        when 0 <= pos <= text.len()
{
    if pos < text.len() && is_whitespace(text[pos]) {
        ws_run_end(text, pos + 1)
    } else {
        pos
    }
}

/// The first position at or after `pos` holding a line break (`'\n'` or
/// `'\r'`), or the end of the text if there is none.
pub open spec fn line_run_end(text: Seq<char>, pos: int) -> int
    decreases text.len() - pos,
        when 0 <= pos <= text.len()
{
    if pos < text.len() && !(text[pos] == '\n' || text[pos] == '\r') {
        line_run_end(text, pos + 1)
    } else {
        pos
    }
}

/// The end of the run of identifier-continuation characters starting at
/// `pos`.
pub open spec fn xid_run_end(text: Seq<char>, pos: int) -> int
    decreases text.len() - pos,
        when 0 <= pos <= text.len()
{
    if pos < text.len() && is_xid_continue(text[pos]) {
        xid_run_end(text, pos + 1)
    } else {
        pos
    }
}

pub proof fn lemma_ws_run_end_bounds(text: Seq<char>, pos: int)
    requires
        0 <= pos <= text.len(),
    ensures
        pos <= ws_run_end(text, pos) <= text.len(),
    decreases text.len() - pos,
{
    if pos < text.len() && is_whitespace(text[pos]) {
        lemma_ws_run_end_bounds(text, pos + 1);
    }
}

pub proof fn lemma_line_run_end_bounds(text: Seq<char>, pos: int)
    requires
        0 <= pos <= text.len(),
    ensures
        pos <= line_run_end(text, pos) <= text.len(),
    decreases text.len() - pos,
{
    if pos < text.len() && !(text[pos] == '\n' || text[pos] == '\r') {
        lemma_line_run_end_bounds(text, pos + 1);
    }
}

pub proof fn lemma_xid_run_end_bounds(text: Seq<char>, pos: int)
    requires
        0 <= pos <= text.len(),
    ensures
        pos <= xid_run_end(text, pos) <= text.len(),
    decreases text.len() - pos,
{
    if pos < text.len() && is_xid_continue(text[pos]) {
        lemma_xid_run_end_bounds(text, pos + 1);
    }
}

/// Whether a comment marker (`//`) stands at `pos`.
pub open spec fn comment_at(text: Seq<char>, pos: int) -> bool {
    pos + 1 < text.len() && text[pos] == '/' && text[pos + 1] == '/'
}

/// The position the composite skip rule leaves the cursor at: past every
/// leading run of whitespace and every leading line comment.
pub open spec fn skip_end(text: Seq<char>, pos: int) -> int
    decreases text.len() - pos,
        when 0 <= pos <= text.len()
        via skip_end_decreases
{
    if pos < text.len() && is_whitespace(text[pos]) {
        skip_end(text, ws_run_end(text, pos + 1))
    } else if comment_at(text, pos) {
        skip_end(text, line_run_end(text, pos + 2))
    } else {
        pos
    }
}

#[via_fn]
proof fn skip_end_decreases(text: Seq<char>, pos: int) {
    if pos < text.len() && is_whitespace(text[pos]) {
        lemma_ws_run_end_bounds(text, pos + 1);
    } else if comment_at(text, pos) {
        lemma_line_run_end_bounds(text, pos + 2);
    }
}

pub proof fn lemma_skip_end_bounds(text: Seq<char>, pos: int)
    requires
        0 <= pos <= text.len(),
    ensures
        pos <= skip_end(text, pos) <= text.len(),
    decreases text.len() - pos,
{
    if pos < text.len() && is_whitespace(text[pos]) {
        lemma_ws_run_end_bounds(text, pos + 1);
        lemma_skip_end_bounds(text, ws_run_end(text, pos + 1));
    } else if comment_at(text, pos) {
        lemma_line_run_end_bounds(text, pos + 2);
        lemma_skip_end_bounds(text, line_run_end(text, pos + 2));
    }
}

/// Whether the character may begin an identifier: an identifier-start
/// character or an underscore.
pub open spec fn id_start_at(text: Seq<char>, pos: int) -> bool {
    pos < text.len() && (is_xid_start(text[pos]) || text[pos] == '_')
}

/// How the characters of a matched identifier are classified: a
/// case-insensitive match of an instruction mnemonic first, then an
/// exact-case match of a keyword, and a plain identifier otherwise.
pub open spec fn classify(text: Seq<char>, start: int, end: int) -> SpecTok {
    if lowered(text.subrange(start, end)) == seq!['r', 'e', 't'] {
        SpecTok::Inst { start, end }
    } else if text.subrange(start, end) == seq!['f', 'n'] {
        SpecTok::Keyword { start, end }
    } else {
        SpecTok::Id { start, end }
    }
}

/// The composite skip rule: always a no-match, after advancing the
/// cursor past ignorable text.
pub open spec fn skip_step(text: Seq<char>, pos: int) -> SpecStep {
    SpecStep { outcome: SpecOutcome::NoMatch, next: skip_end(text, pos) }
}

/// The symbol rule: a leading `@` whose following character must be able
/// to begin an identifier; both failures past the `@` are fatal.
pub open spec fn symbol_step(text: Seq<char>, pos: int) -> SpecStep {
    if !(pos < text.len() && text[pos] == '@') {
        SpecStep { outcome: SpecOutcome::NoMatch, next: pos }
    } else if pos + 1 >= text.len() {
        SpecStep {
            outcome: SpecOutcome::Fatal(SpecErr::NameExpected { pos }),
            next: pos + 1,
        }
    } else if !id_start_at(text, pos + 1) {
        SpecStep {
            outcome: SpecOutcome::Fatal(SpecErr::InvalidName { pos: pos + 1 }),
            next: pos + 2,
        }
    } else {
        let end = xid_run_end(text, pos + 2);
        SpecStep {
            outcome: SpecOutcome::Matched(SpecTok::Symbol { start: pos, end }),
            next: end,
        }
    }
}

/// The identifier rule together with its keyword/mnemonic
/// classification.
pub open spec fn id_or_keyword_step(text: Seq<char>, pos: int) -> SpecStep {
    if !id_start_at(text, pos) {
        SpecStep { outcome: SpecOutcome::NoMatch, next: pos }
    } else {
        let end = xid_run_end(text, pos + 1);
        SpecStep {
            outcome: SpecOutcome::Matched(classify(text, pos, end)),
            next: end,
        }
    }
}

/// The arrow rule: the two-character sequence `->`.
pub open spec fn arrow_step(text: Seq<char>, pos: int) -> SpecStep {
    if pos + 1 < text.len() && text[pos] == '-' && text[pos + 1] == '>' {
        SpecStep {
            outcome: SpecOutcome::Matched(
                SpecTok::Punct { start: pos, end: pos + 2, kind: PunctKind::Arrow },
            ),
            next: pos + 2,
        }
    } else {
        SpecStep { outcome: SpecOutcome::NoMatch, next: pos }
    }
}

/// The single-character punctuation rule.
pub open spec fn single_punct_step(text: Seq<char>, pos: int) -> SpecStep {
    if pos < text.len() && text[pos] == '(' {
        SpecStep {
            outcome: SpecOutcome::Matched(
                SpecTok::Punct { start: pos, end: pos + 1, kind: PunctKind::OpenParen },
            ),
            next: pos + 1,
        }
    } else if pos < text.len() && text[pos] == ')' {
        SpecStep {
            outcome: SpecOutcome::Matched(
                SpecTok::Punct { start: pos, end: pos + 1, kind: PunctKind::CloseParen },
            ),
            next: pos + 1,
        }
    } else if pos < text.len() && text[pos] == ':' {
        SpecStep {
            outcome: SpecOutcome::Matched(
                SpecTok::Punct { start: pos, end: pos + 1, kind: PunctKind::Colon },
            ),
            next: pos + 1,
        }
    } else {
        SpecStep { outcome: SpecOutcome::NoMatch, next: pos }
    }
}

/// The catch-all rule: before the end of the text it consumes exactly
/// one character and fails fatally, guaranteeing forward progress.
pub open spec fn catchall_step(text: Seq<char>, pos: int) -> SpecStep {
    if pos < text.len() {
        SpecStep {
            outcome: SpecOutcome::Fatal(SpecErr::Unrecognized { start: pos, end: pos + 1 }),
            next: pos + 1,
        }
    } else {
        SpecStep { outcome: SpecOutcome::NoMatch, next: pos }
    }
}

/// The span of an abstract token.
pub open spec fn tok_start(t: SpecTok) -> int {
    match t {
        SpecTok::Id { start, .. } => start,
        SpecTok::Symbol { start, .. } => start,
        SpecTok::Keyword { start, .. } => start,
        SpecTok::Inst { start, .. } => start,
        SpecTok::Punct { start, .. } => start,
    }
}

/// The end of the span of an abstract token.
pub open spec fn tok_end(t: SpecTok) -> int {
    match t {
        SpecTok::Id { end, .. } => end,
        SpecTok::Symbol { end, .. } => end,
        SpecTok::Keyword { end, .. } => end,
        SpecTok::Inst { end, .. } => end,
        SpecTok::Punct { end, .. } => end,
    }
}

/// What one rule does at a position of the text.
pub open spec fn rule_step(r: crate::scanner::Rule, text: Seq<char>, pos: int) -> SpecStep {
    match r {
        crate::scanner::Rule::Skip => skip_step(text, pos),
        crate::scanner::Rule::Symbol => symbol_step(text, pos),
        crate::scanner::Rule::IdOrKeyword => id_or_keyword_step(text, pos),
        crate::scanner::Rule::Arrow => arrow_step(text, pos),
        crate::scanner::Rule::SinglePunct => single_punct_step(text, pos),
        crate::scanner::Rule::Catchall => catchall_step(text, pos),
    }
}

/// What one invocation of a group of rules does: each rule is tried in
/// order at the cursor position the previous rule left behind; the first
/// outcome other than no-match is the group's outcome.
pub open spec fn group_step(rules: Seq<crate::scanner::Rule>, text: Seq<char>, pos: int) -> SpecStep
    decreases rules.len(),
{
    if rules.len() == 0 {
        SpecStep { outcome: SpecOutcome::NoMatch, next: pos }
    } else {
        let s = rule_step(rules[0], text, pos);
        if s.outcome is NoMatch {
            group_step(rules.skip(1), text, s.next)
        } else {
            s
        }
    }
}

/// The rule list of the standard scanner: the skip rule first, then the
/// classification rules, then the catch-all.
pub open spec fn standard_rules() -> Seq<crate::scanner::Rule> {
    seq![
        crate::scanner::Rule::Skip,
        crate::scanner::Rule::Symbol,
        crate::scanner::Rule::IdOrKeyword,
        crate::scanner::Rule::Arrow,
        crate::scanner::Rule::SinglePunct,
        crate::scanner::Rule::Catchall,
    ]
}

pub proof fn lemma_rule_step_bounds(r: crate::scanner::Rule, text: Seq<char>, pos: int)
    requires
        0 <= pos <= text.len(),
    ensures
        pos <= rule_step(r, text, pos).next <= text.len(),
{
    match r {
        crate::scanner::Rule::Skip => lemma_skip_end_bounds(text, pos),
        crate::scanner::Rule::Symbol => {
            if pos < text.len() && text[pos] == '@' && pos + 1 < text.len() && id_start_at(
                text,
                pos + 1,
            ) {
                lemma_xid_run_end_bounds(text, pos + 2);
            }
        },
        crate::scanner::Rule::IdOrKeyword => {
            if id_start_at(text, pos) {
                lemma_xid_run_end_bounds(text, pos + 1);
            }
        },
        _ => {},
    }
}

pub proof fn lemma_group_step_bounds(
    rules: Seq<crate::scanner::Rule>,
    text: Seq<char>,
    pos: int,
)
    requires
        0 <= pos <= text.len(),
    ensures
        pos <= group_step(rules, text, pos).next <= text.len(),
    decreases rules.len(),
{
    if rules.len() > 0 {
        lemma_rule_step_bounds(rules[0], text, pos);
        let s = rule_step(rules[0], text, pos);
        if s.outcome is NoMatch {
            lemma_group_step_bounds(rules.skip(1), text, s.next);
        }
    }
}

/// A matched token's span lies at or after the position the rule ran at,
/// is non-empty, and ends exactly where the rule leaves the cursor.
pub proof fn lemma_rule_matched_span(r: crate::scanner::Rule, text: Seq<char>, pos: int)
    requires
        0 <= pos <= text.len(),
        rule_step(r, text, pos).outcome is Matched,
    ensures
        ({
            let s = rule_step(r, text, pos);
            let t = s.outcome->Matched_0;
            pos <= tok_start(t) < tok_end(t) == s.next <= text.len()
        }),
{
    match r {
        crate::scanner::Rule::Symbol => {
            lemma_xid_run_end_bounds(text, pos + 2);
        },
        crate::scanner::Rule::IdOrKeyword => {
            lemma_xid_run_end_bounds(text, pos + 1);
        },
        _ => {},
    }
}

/// The same span facts lifted to a whole group invocation.
pub proof fn lemma_group_matched_span(
    rules: Seq<crate::scanner::Rule>,
    text: Seq<char>,
    pos: int,
)
    requires
        0 <= pos <= text.len(),
        group_step(rules, text, pos).outcome is Matched,
    ensures
        ({
            let s = group_step(rules, text, pos);
            let t = s.outcome->Matched_0;
            pos <= tok_start(t) < tok_end(t) == s.next <= text.len()
        }),
    decreases rules.len(),
{
    if rules.len() > 0 {
        let s = rule_step(rules[0], text, pos);
        lemma_rule_step_bounds(rules[0], text, pos);
        if s.outcome is NoMatch {
            lemma_group_matched_span(rules.skip(1), text, s.next);
        } else {
            lemma_rule_matched_span(rules[0], text, pos);
        }
    }
}

/// The classification rules of the standard scanner, in order: all the
/// standard rules but the leading skip rule.
pub open spec fn classification_rules() -> Seq<crate::scanner::Rule> {
    seq![
        crate::scanner::Rule::Symbol,
        crate::scanner::Rule::IdOrKeyword,
        crate::scanner::Rule::Arrow,
        crate::scanner::Rule::SinglePunct,
        crate::scanner::Rule::Catchall,
    ]
}

/// Before the end of the text the classification rules always resolve
/// (the catch-all sees to it) and advance the cursor; at the end they
/// yield no-match without moving.
proof fn lemma_classification_rules_at(text: Seq<char>, pos: int)
    requires
        0 <= pos <= text.len(),
    ensures
        pos < text.len() ==> !(group_step(classification_rules(), text, pos).outcome
            is NoMatch) && group_step(classification_rules(), text, pos).next > pos,
        pos == text.len() ==> group_step(classification_rules(), text, pos).outcome
            is NoMatch && group_step(classification_rules(), text, pos).next == pos,
        group_step(classification_rules(), text, pos).next <= text.len(),
{
    reveal_with_fuel(group_step, 7);
    let rules = classification_rules();
    lemma_group_step_bounds(rules, text, pos);
    assert(rules.skip(1) =~= seq![
        crate::scanner::Rule::IdOrKeyword,
        crate::scanner::Rule::Arrow,
        crate::scanner::Rule::SinglePunct,
        crate::scanner::Rule::Catchall,
    ]);
    assert(rules.skip(1).skip(1) =~= seq![
        crate::scanner::Rule::Arrow,
        crate::scanner::Rule::SinglePunct,
        crate::scanner::Rule::Catchall,
    ]);
    assert(rules.skip(1).skip(1).skip(1) =~= seq![
        crate::scanner::Rule::SinglePunct,
        crate::scanner::Rule::Catchall,
    ]);
    assert(rules.skip(1).skip(1).skip(1).skip(1) =~= seq![crate::scanner::Rule::Catchall]);
    assert(rules.skip(1).skip(1).skip(1).skip(1).skip(1) =~= Seq::<
        crate::scanner::Rule,
    >::empty());
    if pos < text.len() {
        lemma_rule_step_bounds(crate::scanner::Rule::Symbol, text, pos);
        lemma_rule_step_bounds(crate::scanner::Rule::IdOrKeyword, text, pos);
        if symbol_step(text, pos).outcome is NoMatch {
            if id_or_keyword_step(text, pos).outcome is NoMatch {
                if arrow_step(text, pos).outcome is NoMatch {
                    if single_punct_step(text, pos).outcome is NoMatch {
                        assert(catchall_step(text, pos).next == pos + 1);
                    }
                }
            } else {
                lemma_rule_matched_span(crate::scanner::Rule::IdOrKeyword, text, pos);
            }
        } else {
            if pos + 1 >= text.len() {
            } else if !id_start_at(text, pos + 1) {
            } else {
                lemma_rule_matched_span(crate::scanner::Rule::Symbol, text, pos);
            }
        }
    }
}

/// Progress: at any position strictly before the end of the text, one
/// invocation of the standard scanner advances the cursor by at least
/// one character.
pub proof fn lemma_group_progress(text: Seq<char>, pos: int)
    requires
        0 <= pos < text.len(),
    ensures
        pos < group_step(standard_rules(), text, pos).next <= text.len(),
{
    let rules = standard_rules();
    assert(rules.skip(1) =~= classification_rules());
    let p1 = skip_end(text, pos);
    lemma_skip_end_bounds(text, pos);
    lemma_classification_rules_at(text, p1);
    if p1 < text.len() {
        assert(group_step(classification_rules(), text, p1).next > p1);
    }
}

/// At the end of the text the standard scanner yields no-match without
/// moving the cursor.
pub proof fn lemma_group_at_end(text: Seq<char>, pos: int)
    requires
        pos == text.len(),
        0 <= pos,
    ensures
        group_step(standard_rules(), text, pos).outcome is NoMatch,
        group_step(standard_rules(), text, pos).next == pos,
{
    let rules = standard_rules();
    assert(rules.skip(1) =~= classification_rules());
    assert(skip_end(text, pos) == pos);
    lemma_classification_rules_at(text, pos);
}

/// A no-match outcome of the standard scanner happens only once the
/// cursor has reached the end of the text.
pub proof fn lemma_no_match_only_at_end(text: Seq<char>, pos: int)
    requires
        0 <= pos <= text.len(),
        group_step(standard_rules(), text, pos).outcome is NoMatch,
    ensures
        group_step(standard_rules(), text, pos).next == text.len(),
{
    let rules = standard_rules();
    assert(rules.skip(1) =~= classification_rules());
    let p1 = skip_end(text, pos);
    lemma_skip_end_bounds(text, pos);
    lemma_classification_rules_at(text, p1);
}

/// The whole token stream of the standard scanner from a position: the
/// outcomes of repeated invocations, up to the no-match that signals the
/// end of the input.
pub open spec fn spec_stream(text: Seq<char>, pos: int) -> Seq<SpecOutcome>
    decreases text.len() - pos,
        when 0 <= pos <= text.len()
        via spec_stream_decreases
{
    let s = group_step(standard_rules(), text, pos);
    if s.outcome is NoMatch {
        Seq::empty()
    } else {
        seq![s.outcome] + spec_stream(text, s.next)
    }
}

#[via_fn]
proof fn spec_stream_decreases(text: Seq<char>, pos: int) {
    let s = group_step(standard_rules(), text, pos);
    if !(s.outcome is NoMatch) {
        if pos == text.len() {
            lemma_group_at_end(text, pos);
        } else {
            lemma_group_progress(text, pos);
        }
    }
}

} // verus!

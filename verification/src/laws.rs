//! The laws the scanner obeys, stated over the model of the token
//! stream and proved once and for all.
//!
//! Progress — a combinator invocation strictly before the end of the
//! text always advances the cursor — is
//! [`crate::model::lemma_group_progress`].

use crate::model::{
    group_step, lemma_group_at_end, lemma_group_matched_span, lemma_group_progress,
    lemma_group_step_bounds, lemma_no_match_only_at_end, spec_stream, standard_rules, tok_end,
    tok_start, SpecOutcome,
};
use vstd::prelude::*;

verus! {

/// No-match is never observable: no item of the token stream is the
/// bare no-match signal. A consumer pulling the stream to exhaustion
/// receives only tokens and fatal errors.
pub proof fn lemma_no_match_never_observable(text: Seq<char>, pos: int)
    requires
        0 <= pos <= text.len(),
    ensures
        forall|i: int|
            0 <= i < spec_stream(text, pos).len() ==> !(#[trigger] spec_stream(text, pos)[i]
                is NoMatch),
    decreases text.len() - pos,
{
    let s = group_step(standard_rules(), text, pos);
    if !(s.outcome is NoMatch) {
        if pos == text.len() {
            lemma_group_at_end(text, pos);
        } else {
            lemma_group_progress(text, pos);
            lemma_no_match_never_observable(text, s.next);
        }
    }
}

/// Every token in the stream starts at or after the position the stream
/// was started from, and its span is non-empty and lies within the text.
pub proof fn lemma_stream_token_lower_bound(text: Seq<char>, pos: int, j: int)
    requires
        0 <= pos <= text.len(),
        0 <= j < spec_stream(text, pos).len(),
        spec_stream(text, pos)[j] is Matched,
    ensures
        ({
            let t = spec_stream(text, pos)[j]->Matched_0;
            pos <= tok_start(t) < tok_end(t) <= text.len()
        }),
    decreases j,
{
    let s = group_step(standard_rules(), text, pos);
    if pos == text.len() {
        lemma_group_at_end(text, pos);
    } else {
        lemma_group_progress(text, pos);
        lemma_group_step_bounds(standard_rules(), text, pos);
        if j == 0 {
            lemma_group_matched_span(standard_rules(), text, pos);
        } else {
            lemma_stream_token_lower_bound(text, s.next, j - 1);
        }
    }
}

/// Span ordering: of two tokens in the stream, the earlier one ends at
/// or before the position where the later one starts. Tokens never
/// overlap and appear in strictly increasing span order.
pub proof fn lemma_span_ordering(text: Seq<char>, pos: int, i: int, j: int)
    requires
        0 <= pos <= text.len(),
        0 <= i < j < spec_stream(text, pos).len(),
        spec_stream(text, pos)[i] is Matched,
        spec_stream(text, pos)[j] is Matched,
    ensures
        tok_end(spec_stream(text, pos)[i]->Matched_0) <= tok_start(
            spec_stream(text, pos)[j]->Matched_0,
        ),
    decreases i,
{
    let s = group_step(standard_rules(), text, pos);
    if pos == text.len() {
        lemma_group_at_end(text, pos);
    } else {
        lemma_group_progress(text, pos);
        lemma_group_step_bounds(standard_rules(), text, pos);
        if i == 0 {
            lemma_group_matched_span(standard_rules(), text, pos);
            lemma_stream_token_lower_bound(text, s.next, j - 1);
        } else {
            lemma_span_ordering(text, s.next, i - 1, j - 1);
        }
    }
}

/// The token spans of a stream, in order.
pub open spec fn stream_spans(items: Seq<SpecOutcome>) -> Seq<(int, int)>
    decreases items.len(),
{
    if items.len() == 0 {
        Seq::empty()
    } else {
        let rest = stream_spans(items.skip(1));
        match items[0] {
            SpecOutcome::Matched(t) => seq![(tok_start(t), tok_end(t))] + rest,
            _ => rest,
        }
    }
}

/// Whether a list of spans is chained: each span is well formed, starts
/// at or after `from` (or after the previous span's end), and stays
/// within `upto`.
pub open spec fn chained(spans: Seq<(int, int)>, from: int, upto: int) -> bool
    decreases spans.len(),
{
    if spans.len() == 0 {
        from <= upto
    } else {
        from <= spans[0].0 && spans[0].0 <= spans[0].1 && chained(spans.skip(1), spans[0].1, upto)
    }
}

/// The text rebuilt from a list of spans starting at `from`: the gap
/// before each span, the span itself, and finally the tail of the text
/// after the last span.
pub open spec fn stitch(text: Seq<char>, spans: Seq<(int, int)>, from: int) -> Seq<char>
    decreases spans.len(),
{
    if spans.len() == 0 {
        text.subrange(from, text.len() as int)
    } else {
        text.subrange(from, spans[0].0) + text.subrange(spans[0].0, spans[0].1) + stitch(
            text,
            spans.skip(1),
            spans[0].1,
        )
    }
}

proof fn lemma_chained_bound(spans: Seq<(int, int)>, from: int, upto: int)
    requires
        chained(spans, from, upto),
    ensures
        from <= upto,
    decreases spans.len(),
{
    if spans.len() > 0 {
        lemma_chained_bound(spans.skip(1), spans[0].1, upto);
    }
}

proof fn lemma_chained_weaken(spans: Seq<(int, int)>, a: int, b: int, upto: int)
    requires
        a <= b,
        chained(spans, b, upto),
    ensures
        chained(spans, a, upto),
{
}

proof fn lemma_stitch_covers(text: Seq<char>, spans: Seq<(int, int)>, from: int)
    requires
        0 <= from,
        chained(spans, from, text.len() as int),
    ensures
        stitch(text, spans, from) == text.subrange(from, text.len() as int),
    decreases spans.len(),
{
    if spans.len() > 0 {
        let a = spans[0].0;
        let b = spans[0].1;
        lemma_chained_bound(spans.skip(1), b, text.len() as int);
        lemma_stitch_covers(text, spans.skip(1), b);
        assert(text.subrange(from, a) + text.subrange(a, b) + text.subrange(
            b,
            text.len() as int,
        ) =~= text.subrange(from, text.len() as int));
    }
}

/// The token spans of the stream started at `pos` are chained: in
/// order, non-overlapping, and within the text.
pub proof fn lemma_stream_spans_chained(text: Seq<char>, pos: int)
    requires
        0 <= pos <= text.len(),
    ensures
        chained(stream_spans(spec_stream(text, pos)), pos, text.len() as int),
    decreases text.len() - pos,
{
    let s = group_step(standard_rules(), text, pos);
    let items = spec_stream(text, pos);
    if !(s.outcome is NoMatch) {
        if pos == text.len() {
            lemma_group_at_end(text, pos);
        } else {
            lemma_group_progress(text, pos);
            lemma_group_step_bounds(standard_rules(), text, pos);
            lemma_stream_spans_chained(text, s.next);
            assert(items.skip(1) =~= spec_stream(text, s.next));
            match s.outcome {
                SpecOutcome::Matched(tk) => {
                    lemma_group_matched_span(standard_rules(), text, pos);
                    assert(stream_spans(items).skip(1) =~= stream_spans(spec_stream(text, s.next)));
                },
                SpecOutcome::Fatal(e) => {
                    lemma_chained_weaken(
                        stream_spans(spec_stream(text, s.next)),
                        pos,
                        s.next,
                        text.len() as int,
                    );
                },
                SpecOutcome::NoMatch => {},
            }
        }
    }
}

/// Round trip: concatenating, in order, the gaps between the token
/// spans and the spans themselves rebuilds the source text exactly.
pub proof fn lemma_round_trip(text: Seq<char>)
    ensures
        stitch(text, stream_spans(spec_stream(text, 0)), 0) == text,
{
    lemma_stream_spans_chained(text, 0);
    lemma_stitch_covers(text, stream_spans(spec_stream(text, 0)), 0);
    assert(text.subrange(0, text.len() as int) =~= text);
}

} // verus!

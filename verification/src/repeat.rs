//! Repetition as a function: what a repetition of a deterministic analyzer
//! yields, proved from the relation that `Loop` states.

use crate::analyzer::{Analyzer, AnalyzerError, AnalyzerResult, Loop};
use crate::grammar::{class_at, many_at, repeat_at, run_end, seen, seen_all, viewed, Verdict};
use vstd::prelude::*;

verus! {

/// A run of symbols of `class` from `start` reaches at least to `stop`
/// where every symbol before `stop` is of the class, and ends there where
/// the symbol at `stop` is not.
proof fn lemma_run_end(class: spec_fn(char) -> bool, data: Seq<char>, start: int, stop: int)
    requires
        0 <= start <= stop <= data.len(),
        forall|i: int| start <= i < stop ==> class(#[trigger] data[i]),
    ensures
        run_end(class, data, start) >= stop,
        !(stop < data.len() && class(data[stop])) ==> run_end(class, data, start) == stop,
        run_end(class, data, start) == run_end(class, data, stop),
    decreases stop - start,
{
    if start < stop {
        lemma_run_end(class, data, start + 1, stop);
    } else {
        lemma_run_bounds(class, data, start);
    }
}

/// A run ends within the input, and holds symbols of its class only.
pub proof fn lemma_run_bounds(class: spec_fn(char) -> bool, data: Seq<char>, start: int)
    requires
        0 <= start <= data.len(),
    ensures
        start <= run_end(class, data, start) <= data.len(),
        forall|i: int| start <= i < run_end(class, data, start) ==> class(#[trigger] data[i]),
        !(run_end(class, data, start) < data.len() && class(data[run_end(class, data, start)])),
    decreases data.len() - start,
{
    if start < data.len() && class(data[start]) {
        lemma_run_bounds(class, data, start + 1);
    }
}

/// In a run of an analyzer that reads one symbol of `class`, each iteration
/// reads the next symbol of the input.
proof fn lemma_trace_class<A: Analyzer<Input = char, Output = char>>(
    l: Loop<A>,
    class: spec_fn(char) -> bool,
    data: Seq<char>,
    at: Seq<int>,
    xs: Seq<char>,
    upto: int,
)
    requires
        forall|d: Seq<char>, s: int, r: AnalyzerResult<char, char>, e: int| #[trigger]
            l.0.outcome(d, s, r, e) ==> 0 <= s <= d.len() && (r, e) == class_at(class, d, s),
        l.run(data, at, xs),
        0 <= upto <= xs.len(),
        0 <= at[0] <= data.len(),
    ensures
        at[upto] == at[0] + upto,
        at[upto] <= data.len(),
        forall|i: int| 0 <= i < upto ==> #[trigger] xs[i] == data[at[0] + i] && class(xs[i]),
    decreases upto,
{
    if upto > 0 {
        lemma_trace_class(l, class, data, at, xs, upto - 1);
        assert(l.0.outcome(data, at[upto - 1], Ok(xs[upto - 1]), at[upto - 1 + 1]));
    }
}

/// A repetition of an analyzer that reads one symbol of `class` follows
/// `repeat_at`.
pub proof fn lemma_repeat_class<A: Analyzer<Input = char, Output = char>>(
    l: Loop<A>,
    class: spec_fn(char) -> bool,
    data: Seq<char>,
    start: int,
    res: AnalyzerResult<Vec<char>, char>,
    end: int,
)
    requires
        forall|d: Seq<char>, s: int, r: AnalyzerResult<char, char>, e: int| #[trigger]
            l.0.outcome(d, s, r, e) ==> 0 <= s <= d.len() && (r, e) == class_at(class, d, s),
        l.outcome(data, start, res, end),
        l.2 != Some(0usize),
    ensures
        0 <= start <= end <= data.len(),
        (viewed(res), end) == repeat_at(
            class,
            l.least(),
            l.most(),
            data,
            start,
        ),
{
    let (at, xs) = choose|at: Seq<int>, xs: Seq<char>|
        {
            &&& #[trigger] l.run(data, at, xs)
            &&& at[0] == start
            &&& l.stop(data, at, xs, res, end)
        };
    let done = xs.len() as int;
    if done >= 1 {
        assert(l.0.outcome(data, at[0int], Ok(xs[0int]), at[0int + 1]));
    } else {
        assert(!l.full(done));
        let e = choose|e: AnalyzerError<char>| #[trigger] l.0.outcome(data, at[done], Err(e), end);
        assert(class_at(class, data, start).0 is Err);
    }
    lemma_trace_class(l, class, data, at, xs, done);
    assert(xs =~= data.subrange(start, start + done));
    assert forall|i: int| start <= i < start + done implies class(#[trigger] data[i]) by {
        assert(xs[i - start] == data[i]);
    }
    lemma_run_end(class, data, start, start + done);
    if done >= 1 {
        lemma_trace_class(l, class, data, at, xs, done - 1);
        assert(!l.full(done - 1));
    }
    if !(l.full(done) || (done >= 1 && l.stalled(done, at[done - 1], at[done]))) {
        let e = choose|e: AnalyzerError<char>|
            {
                &&& #[trigger] l.0.outcome(data, at[done], Err(e), end)
                &&& if done < l.least() || end != at[done] {
                    res == Err::<Vec<char>, AnalyzerError<char>>(e)
                } else {
                    res matches Ok(v) && v@ == xs
                }
            };
        assert(class_at(class, data, at[done]).0 is Err);
    }
}

/// From the iteration `from` on, a repetition of an analyzer that follows
/// `item` goes as `many_at` says.
proof fn lemma_repeat_from<A: Analyzer<Input = char>, V>(
    l: Loop<A>,
    see: spec_fn(A::Output) -> V,
    item: spec_fn(Seq<char>, int) -> Verdict<V>,
    data: Seq<char>,
    at: Seq<int>,
    xs: Seq<A::Output>,
    res: AnalyzerResult<Vec<A::Output>, char>,
    end: int,
    from: int,
)
    requires
        forall|d: Seq<char>, s: int, r: AnalyzerResult<A::Output, char>, e: int| #[trigger]
            l.0.outcome(d, s, r, e) ==> 0 <= s <= e <= d.len() && (seen(r, see), e) == item(d, s),
        l.run(data, at, xs),
        l.stop(data, at, xs, res, end),
        0 <= from <= xs.len(),
        from == xs.len() ==> !(from >= 1 && l.stalled(from, at[from - 1], at[from])),
        l.2 != Some(0usize),
    ensures
        0 <= at[from] <= end <= data.len(),
        many_at(item, l.least(), l.most(), data, at[from], from) == match res {
            Ok(v) => (Ok(xs.subrange(from, xs.len() as int).map_values(see)), end),
            Err(e) => (Err(e), end),
        },
    decreases xs.len() - from,
{
    let done = xs.len() as int;
    if from < done {
        assert(l.0.outcome(data, at[from], Ok(xs[from]), at[from + 1]));
        assert(!l.full(from));
        if from + 1 == done && l.stalled(done, at[done - 1], at[done]) {
            assert(xs.subrange(from, done).map_values(see) =~= seq![see(xs[from])]);
        } else {
            lemma_repeat_from(l, see, item, data, at, xs, res, end, from + 1);
            assert(xs.subrange(from, done).map_values(see) =~= seq![see(xs[from])] + xs.subrange(
                from + 1,
                done,
            ).map_values(see));
        }
    } else {
        assert(xs.subrange(from, done).map_values(see) =~= Seq::<V>::empty());
        if done >= 1 {
            assert(l.0.outcome(data, at[done - 1], Ok(xs[done - 1]), at[done - 1 + 1]));
            assert(!l.full(done - 1));
        }
        if !l.full(done) {
            let e = choose|e: AnalyzerError<char>|
                {
                    &&& #[trigger] l.0.outcome(data, at[done], Err(e), end)
                    &&& if done < l.least() || end != at[done] {
                        res == Err::<Vec<A::Output>, AnalyzerError<char>>(e)
                    } else {
                        res matches Ok(v) && v@ == xs
                    }
                };
        }
    }
}

/// A repetition of an analyzer that follows `item` follows `many_at`.
pub proof fn lemma_repeat<A: Analyzer<Input = char>, V>(
    l: Loop<A>,
    see: spec_fn(A::Output) -> V,
    item: spec_fn(Seq<char>, int) -> Verdict<V>,
    data: Seq<char>,
    start: int,
    res: AnalyzerResult<Vec<A::Output>, char>,
    end: int,
)
    requires
        forall|d: Seq<char>, s: int, r: AnalyzerResult<A::Output, char>, e: int| #[trigger]
            l.0.outcome(d, s, r, e) ==> 0 <= s <= e <= d.len() && (seen(r, see), e) == item(d, s),
        l.outcome(data, start, res, end),
        l.2 != Some(0usize),
    ensures
        0 <= start <= end <= data.len(),
        (seen_all(res, see), end) == many_at(item, l.least(), l.most(), data, start, 0),
{
    let (at, xs) = choose|at: Seq<int>, xs: Seq<A::Output>|
        {
            &&& #[trigger] l.run(data, at, xs)
            &&& at[0] == start
            &&& l.stop(data, at, xs, res, end)
        };
    lemma_repeat_from(l, see, item, data, at, xs, res, end, 0);
    assert(xs.subrange(0, xs.len() as int) =~= xs);
}

} // verus!

//! The combinator engine: the `Analyzer` abstraction, its leaf analyzers and
//! the combinators that build larger analyzers out of smaller ones.
//!
//! An analyzer's meaning is a relation, `outcome`: which results it may give on
//! an input from a start position, and where it then leaves the cursor.
//! `analyze` is proved to stay within that relation. It is a relation and not
//! a function because an analyzer may hold closures and clones its symbols,
//! and of neither is more known than the contract of the call.

use crate::stream::{cloned_opt, symbol_at, Stream};
use std::marker::PhantomData;
use vstd::prelude::*;

verus! {

/// What an analyzer was looking for when it failed.
#[derive(Debug, PartialEq)]
pub enum ErrorExpect<T> {
    Any,
    Eof,
    Token(T),
    Unknown,
}

impl<T: Clone> ErrorExpect<T> {
    /// `other` names the same expectation, its symbol being a clone of this one's.
    pub open spec fn cloned_as(self, other: Self) -> bool {
        match (self, other) {
            (ErrorExpect::Any, ErrorExpect::Any) => true,
            (ErrorExpect::Eof, ErrorExpect::Eof) => true,
            (ErrorExpect::Token(a), ErrorExpect::Token(b)) => cloned(a, b),
            (ErrorExpect::Unknown, ErrorExpect::Unknown) => true,
            _ => false,
        }
    }
}

impl<T: Clone> Clone for ErrorExpect<T> {
    fn clone(&self) -> (r: Self)
        ensures
            self.cloned_as(r),
    {
        match self {
            ErrorExpect::Any => ErrorExpect::Any,
            ErrorExpect::Eof => ErrorExpect::Eof,
            ErrorExpect::Token(x) => ErrorExpect::Token(x.clone()),
            ErrorExpect::Unknown => ErrorExpect::Unknown,
        }
    }
}

/// A failure: where it happened, the symbol found there (`None` at the end of
/// the input) and what was looked for.
#[derive(Debug, PartialEq)]
pub struct AnalyzerError<T> {
    pub pos: usize,
    pub unexpected: Option<T>,
    pub expecting: ErrorExpect<T>,
}

impl<T> AnalyzerError<T> {
    pub fn new(pos: usize, unexpected: Option<T>, expecting: ErrorExpect<T>) -> (e: AnalyzerError<T>)
        ensures
            e == (AnalyzerError { pos, unexpected, expecting }),
    {
        AnalyzerError { pos, unexpected, expecting }
    }
}

impl<T: Clone> AnalyzerError<T> {
    /// This error was raised with the cursor at `at`, a position of `data` or
    /// its end, on the symbol found there.
    pub open spec fn raised_at(self, data: Seq<T>, at: int) -> bool {
        &&& self.pos == at
        &&& at <= data.len()
        &&& cloned_opt(symbol_at(data, at), self.unexpected)
    }
}

impl<T: Clone> Clone for AnalyzerError<T> {
    fn clone(&self) -> (r: Self)
        ensures
            r.pos == self.pos,
            cloned_opt(self.unexpected, r.unexpected),
            self.expecting.cloned_as(r.expecting),
    {
        let unexpected = match &self.unexpected {
            Some(x) => Some(x.clone()),
            None => None,
        };
        AnalyzerError { pos: self.pos, unexpected, expecting: self.expecting.clone() }
    }
}

/// What an analyzer gives: a value, or the failure.
pub type AnalyzerResult<O, I> = Result<O, AnalyzerError<I>>;

/// A unit that tries to consume a prefix of what lies after the cursor and
/// either yields a value or fails.
pub trait Analyzer {
    type Input;

    type Output;

    /// Whether this analyzer may be run: each closure in it accepts every
    /// argument, and so do the parts it is built from.
    spec fn wf(&self) -> bool;

    /// Whether, on `data` with the cursor at `start`, this analyzer may give
    /// `res` and leave the cursor at `end`.
    spec fn outcome(
        &self,
        data: Seq<Self::Input>,
        start: int,
        res: AnalyzerResult<Self::Output, Self::Input>,
        end: int,
    ) -> bool;

    /// Runs the analyzer at the cursor. The input is never changed; the cursor
    /// ends where `outcome` says.
    fn analyze(&self, stream: &mut Stream<Self::Input>) -> (res: AnalyzerResult<
        Self::Output,
        Self::Input,
    >)
        requires
            self.wf(),
        ensures
            final(stream)@.data == old(stream)@.data,
            self.outcome(old(stream)@.data, old(stream)@.pos, res, final(stream)@.pos),
    ;
}

/// Consumes the next symbol, whatever it is.
pub fn any_one<T: Clone>() -> (a: AnyOne<T>) {
    AnyOne::new()
}

/// Succeeds only at the end of the input.
pub fn eof<T: Clone>() -> (a: Eof<T>) {
    Eof::new()
}

/// Yields a clone of `x` and consumes nothing.
pub fn val<T: Clone, I>(x: T) -> (a: Val<T, I>)
    ensures
        a.0 == x,
{
    Val::new(x)
}

/// Consumes one symbol equal to `x`.
pub fn token<T: Clone + Eq>(x: T) -> (a: Token<T>)
    ensures
        a.0 == x,
{
    Token::new(x)
}

/// Consumes the symbols of `x`, in order.
pub fn tokens<T: Clone + Eq>(x: Vec<T>) -> (a: Tokens<T>)
    ensures
        a.0 == x,
{
    Tokens::new(x)
}

/// Consumes one symbol that `f` accepts.
pub fn expect<T: Clone, F: Fn(&T) -> bool>(f: F) -> (a: Expect<T, F>)
    ensures
        a.0 == f,
{
    Expect::new(f)
}

/// An analyzer made of a function from the stream to the stream and a result.
pub fn analyzer_func<F: Fn(Stream<A>) -> (Stream<A>, AnalyzerResult<B, A>), A, B>(f: F) -> (a:
    AnalyzerFunc<F, A, B>)
    ensures
        a.0 == f,
{
    AnalyzerFunc::new(f)
}

/// Always fails, consuming nothing.
pub fn fail<A: Clone, B>() -> (a: Fail<A, B>) {
    Fail::new()
}

/// Consumes the next symbol, whatever it is.
#[derive(Debug)]
pub struct AnyOne<T: Clone>(pub PhantomData<T>);

impl<T: Clone> Clone for AnyOne<T> {
    fn clone(&self) -> (r: Self) {
        AnyOne(PhantomData)
    }
}

impl<T: Clone> AnyOne<T> {
    pub fn new() -> (a: Self) {
        AnyOne(PhantomData)
    }
}

impl<T: Clone> Analyzer for AnyOne<T> {
    type Input = T;

    type Output = T;

    open spec fn wf(&self) -> bool {
        true
    }

    open spec fn outcome(
        &self,
        data: Seq<T>,
        start: int,
        res: AnalyzerResult<T, T>,
        end: int,
    ) -> bool {
        match res {
            Ok(x) => 0 <= start < data.len() && cloned(data[start], x) && end == start + 1,
            Err(e) => start == data.len() && e.raised_at(data, start) && e.expecting is Any && end
                == start,
        }
    }

    fn analyze(&self, st: &mut Stream<T>) -> (res: AnalyzerResult<T, T>) {
        match st.peak() {
            Some(x) => {
                st.next();
                Ok(x)
            },
            None => Err(AnalyzerError::new(st.pos(), None, ErrorExpect::Any)),
        }
    }
}

/// Yields a clone of its value and consumes nothing.
#[derive(Debug)]
pub struct Val<T: Clone, I>(pub T, pub PhantomData<I>);

impl<T: Clone, I> Clone for Val<T, I> {
    fn clone(&self) -> (r: Self)
        ensures
            cloned(self.0, r.0),
    {
        Val(self.0.clone(), PhantomData)
    }
}

impl<T: Clone, I> Val<T, I> {
    pub fn new(x: T) -> (a: Self)
        ensures
            a.0 == x,
    {
        Val(x, PhantomData)
    }
}

impl<T: Clone, I> Analyzer for Val<T, I> {
    type Input = I;

    type Output = T;

    open spec fn wf(&self) -> bool {
        true
    }

    open spec fn outcome(
        &self,
        data: Seq<I>,
        start: int,
        res: AnalyzerResult<T, I>,
        end: int,
    ) -> bool {
        res matches Ok(x) && cloned(self.0, x) && end == start
    }

    fn analyze(&self, st: &mut Stream<I>) -> (res: AnalyzerResult<T, I>) {
        Ok(self.0.clone())
    }
}

/// Succeeds only at the end of the input.
#[derive(Debug)]
pub struct Eof<T: Clone>(pub PhantomData<T>);

impl<T: Clone> Clone for Eof<T> {
    fn clone(&self) -> (r: Self) {
        Eof(PhantomData)
    }
}

impl<T: Clone> Eof<T> {
    pub fn new() -> (a: Self) {
        Eof(PhantomData)
    }
}

impl<T: Clone> Analyzer for Eof<T> {
    type Input = T;

    type Output = ();

    open spec fn wf(&self) -> bool {
        true
    }

    open spec fn outcome(
        &self,
        data: Seq<T>,
        start: int,
        res: AnalyzerResult<(), T>,
        end: int,
    ) -> bool {
        &&& end == start
        &&& match res {
            Ok(_) => start == data.len(),
            Err(e) => 0 <= start < data.len() && e.raised_at(data, start) && e.expecting is Eof,
        }
    }

    fn analyze(&self, st: &mut Stream<T>) -> (res: AnalyzerResult<(), T>) {
        if let Some(x) = st.peak() {
            Err(AnalyzerError::new(st.pos(), Some(x), ErrorExpect::Eof))
        } else {
            Ok(())
        }
    }
}

/// Always fails, consuming nothing.
#[derive(Debug)]
pub struct Fail<A: Clone, B>(pub PhantomData<(A, B)>);

impl<A: Clone, B> Clone for Fail<A, B> {
    fn clone(&self) -> (r: Self) {
        Fail(PhantomData)
    }
}

impl<A: Clone, B> Fail<A, B> {
    pub fn new() -> (a: Self) {
        Fail(PhantomData)
    }
}

impl<A: Clone, B> Analyzer for Fail<A, B> {
    type Input = A;

    type Output = B;

    open spec fn wf(&self) -> bool {
        true
    }

    open spec fn outcome(
        &self,
        data: Seq<A>,
        start: int,
        res: AnalyzerResult<B, A>,
        end: int,
    ) -> bool {
        res matches Err(e) && e.raised_at(data, start) && e.expecting is Unknown && end == start
    }

    fn analyze(&self, st: &mut Stream<A>) -> (res: AnalyzerResult<B, A>) {
        Err(AnalyzerError::new(st.pos(), st.peak(), ErrorExpect::Unknown))
    }
}

/// Consumes one symbol equal to its own.
#[derive(Debug)]
pub struct Token<T: Clone + Eq>(pub T);

impl<T: Clone + Eq> Clone for Token<T> {
    fn clone(&self) -> (r: Self)
        ensures
            cloned(self.0, r.0),
    {
        Token(self.0.clone())
    }
}

impl<T: Clone + Eq> Token<T> {
    pub fn new(x: T) -> (a: Self)
        ensures
            a.0 == x,
    {
        Token(x)
    }
}

/// `found`, tested with `==` against `wanted`, may have given `same`: as much
/// as the contract of the type's `==` says.
pub open spec fn compared<T: PartialEq>(found: T, wanted: T, same: bool) -> bool {
    call_ensures(T::eq, (&found, &wanted), same)
}

/// The failure of a match against `wanted` at position `at`.
pub open spec fn mismatch<T: Clone + PartialEq>(
    e: AnalyzerError<T>,
    data: Seq<T>,
    at: int,
    wanted: T,
) -> bool {
    &&& e.raised_at(data, at)
    &&& e.expecting matches ErrorExpect::Token(w) && cloned(wanted, w)
    &&& e.unexpected matches Some(y) ==> compared(y, wanted, false)
}

impl<T: Clone + Eq> Analyzer for Token<T> {
    type Input = T;

    type Output = T;

    open spec fn wf(&self) -> bool {
        true
    }

    open spec fn outcome(
        &self,
        data: Seq<T>,
        start: int,
        res: AnalyzerResult<T, T>,
        end: int,
    ) -> bool {
        match res {
            Ok(y) => {
                &&& 0 <= start < data.len()
                &&& cloned(data[start], y)
                &&& compared(y, self.0, true)
                &&& end == start + 1
            },
            Err(e) => mismatch(e, data, start, self.0) && end == start,
        }
    }

    fn analyze(&self, st: &mut Stream<T>) -> (res: AnalyzerResult<T, T>) {
        match st.peak() {
            None => Err(AnalyzerError::new(st.pos(), None, ErrorExpect::Token(self.0.clone()))),
            Some(y) => {
                if y == self.0 {
                    st.next();
                    Ok(y)
                } else {
                    Err(AnalyzerError::new(st.pos(), Some(y), ErrorExpect::Token(self.0.clone())))
                }
            },
        }
    }
}

/// Consumes the symbols of its sequence, in order.
#[derive(Debug)]
pub struct Tokens<T: Clone + Eq>(pub Vec<T>);

impl<T: Clone + Eq> Clone for Tokens<T> {
    fn clone(&self) -> (r: Self)
        ensures
            r.0@.len() == self.0@.len(),
            forall|i: int| 0 <= i < self.0@.len() ==> cloned(self.0@[i], #[trigger] r.0@[i]),
    {
        Tokens(self.0.clone())
    }
}

impl<T: Clone + Eq> Tokens<T> {
    pub fn new(x: Vec<T>) -> (a: Self)
        ensures
            a.0 == x,
    {
        Tokens(x)
    }
}

/// The symbols `got` were read from `data` at `start` on, and each compared
/// equal to the symbol of `want` at its place.
pub open spec fn matched<T: Clone + PartialEq>(
    data: Seq<T>,
    start: int,
    want: Seq<T>,
    got: Seq<T>,
) -> bool {
    &&& 0 <= start
    &&& got.len() <= want.len()
    &&& start + got.len() <= data.len()
    &&& forall|i: int|
        0 <= i < got.len() ==> cloned(data[start + i], #[trigger] got[i]) && compared(
            got[i],
            want[i],
            true,
        )
}

impl<T: Clone + Eq> Analyzer for Tokens<T> {
    type Input = T;

    type Output = Vec<T>;

    open spec fn wf(&self) -> bool {
        true
    }

    /// Success yields the symbols read, all of the sequence; failure comes at
    /// the first symbol that differs, with what matched before it consumed.
    open spec fn outcome(
        &self,
        data: Seq<T>,
        start: int,
        res: AnalyzerResult<Vec<T>, T>,
        end: int,
    ) -> bool {
        match res {
            Ok(v) => {
                &&& matched(data, start, self.0@, v@)
                &&& v@.len() == self.0@.len()
                &&& end == start + self.0@.len()
            },
            Err(e) => exists|got: Seq<T>|
                {
                    &&& #[trigger] matched(data, start, self.0@, got)
                    &&& got.len() < self.0@.len()
                    &&& end == start + got.len()
                    &&& mismatch(e, data, end, self.0@[got.len() as int])
                },
        }
    }

    fn analyze(&self, st: &mut Stream<T>) -> (res: AnalyzerResult<Vec<T>, T>) {
        let ghost data = st@.data;
        let ghost start = st@.pos;
        let mut res: Vec<T> = Vec::new();
        let mut i: usize = 0;
        proof {
            st.lemma_in_bounds();
        }
        while i < self.0.len()
            invariant
                data == old(st)@.data,
                start == old(st)@.pos,
                st@.data == data,
                st@.pos == start + i,
                i == res@.len(),
                i <= self.0@.len(),
                matched(data, start, self.0@, res@),
            decreases self.0@.len() - i,
        {
            let x = &self.0[i];
            match st.peak() {
                None => {
                    return Err(AnalyzerError::new(st.pos(), None, ErrorExpect::Token(x.clone())));
                },
                Some(y) => {
                    if y == *x {
                        st.next();
                        res.push(y);
                    } else {
                        return Err(
                            AnalyzerError::new(st.pos(), Some(y), ErrorExpect::Token(x.clone())),
                        );
                    }
                },
            }
            i += 1;
        }
        Ok(res)
    }
}

/// Consumes one symbol that its predicate accepts.
#[derive(Debug)]
#[verifier::reject_recursive_types(T)]
#[verifier::reject_recursive_types(F)]
pub struct Expect<T: Clone, F: Fn(&T) -> bool>(pub F, pub PhantomData<T>);

impl<T: Clone, F: Fn(&T) -> bool + Clone> Clone for Expect<T, F> {
    fn clone(&self) -> (r: Self)
        ensures
            cloned(self.0, r.0),
    {
        Expect(self.0.clone(), PhantomData)
    }
}

impl<T: Clone, F: Fn(&T) -> bool> Expect<T, F> {
    pub fn new(f: F) -> (a: Self)
        ensures
            a.0 == f,
    {
        Expect(f, PhantomData)
    }
}

impl<T: Clone, F: Fn(&T) -> bool> Analyzer for Expect<T, F> {
    type Input = T;

    type Output = T;

    open spec fn wf(&self) -> bool {
        forall|x: T| call_requires(self.0, (&x,))
    }

    open spec fn outcome(
        &self,
        data: Seq<T>,
        start: int,
        res: AnalyzerResult<T, T>,
        end: int,
    ) -> bool {
        match res {
            Ok(x) => {
                &&& 0 <= start < data.len()
                &&& cloned(data[start], x)
                &&& call_ensures(self.0, (&x,), true)
                &&& end == start + 1
            },
            Err(e) => {
                &&& e.raised_at(data, start)
                &&& e.expecting is Unknown
                &&& e.unexpected matches Some(x) ==> call_ensures(self.0, (&x,), false)
                &&& end == start
            },
        }
    }

    fn analyze(&self, st: &mut Stream<T>) -> (res: AnalyzerResult<T, T>) {
        match st.peak() {
            None => Err(AnalyzerError::new(st.pos(), None, ErrorExpect::Unknown)),
            Some(x) => {
                if (self.0)(&x) {
                    st.next();
                    Ok(x)
                } else {
                    Err(AnalyzerError::new(st.pos(), Some(x), ErrorExpect::Unknown))
                }
            },
        }
    }
}

/// Runs its analyzer and, if that fails, puts the cursor back where it was.
/// Nothing else ever moves the cursor backwards.
#[derive(Debug)]
pub struct Attempt<T: Analyzer>(pub T);

impl<T: Analyzer + Clone> Clone for Attempt<T> {
    fn clone(&self) -> (r: Self)
        ensures
            cloned(self.0, r.0),
    {
        Attempt(self.0.clone())
    }
}

impl<T: Analyzer> Attempt<T> {
    pub fn new(x: T) -> (a: Self)
        ensures
            a.0 == x,
    {
        Attempt(x)
    }
}

impl<T: Analyzer> Analyzer for Attempt<T> {
    type Input = T::Input;

    type Output = T::Output;

    open spec fn wf(&self) -> bool {
        self.0.wf()
    }

    open spec fn outcome(
        &self,
        data: Seq<T::Input>,
        start: int,
        res: AnalyzerResult<T::Output, T::Input>,
        end: int,
    ) -> bool {
        match res {
            Ok(_) => self.0.outcome(data, start, res, end),
            Err(_) => end == start && exists|mid: int| self.0.outcome(data, start, res, mid),
        }
    }

    fn analyze(&self, st: &mut Stream<T::Input>) -> (res: AnalyzerResult<T::Output, T::Input>)
        ensures
            res is Err ==> final(st)@.pos == old(st)@.pos,
    {
        let pos = st.pos();
        let res = self.0.analyze(st);
        if res.is_err() {
            st.set_pos(pos);
        }
        res
    }
}

/// Passes a success value through a function; a failure stays as it is.
#[derive(Debug)]
#[verifier::reject_recursive_types(O)]
#[verifier::reject_recursive_types(T)]
#[verifier::reject_recursive_types(F)]
pub struct Mapped<O, T: Analyzer, F: Fn(T::Output) -> O>(pub F, pub T, pub PhantomData<O>);

impl<O, T: Analyzer + Clone, F: Fn(T::Output) -> O + Clone> Clone for Mapped<O, T, F> {
    fn clone(&self) -> (r: Self)
        ensures
            cloned(self.0, r.0),
            cloned(self.1, r.1),
    {
        Mapped(self.0.clone(), self.1.clone(), PhantomData)
    }
}

impl<O, T: Analyzer, F: Fn(T::Output) -> O> Mapped<O, T, F> {
    pub fn new(f: F, x: T) -> (a: Self)
        ensures
            a.0 == f,
            a.1 == x,
    {
        Mapped(f, x, PhantomData)
    }
}

impl<O, T: Analyzer, F: Fn(T::Output) -> O> Analyzer for Mapped<O, T, F> {
    type Input = T::Input;

    type Output = O;

    open spec fn wf(&self) -> bool {
        &&& self.1.wf()
        &&& forall|x: T::Output| call_requires(self.0, (x,))
    }

    open spec fn outcome(
        &self,
        data: Seq<T::Input>,
        start: int,
        res: AnalyzerResult<O, T::Input>,
        end: int,
    ) -> bool {
        match res {
            Ok(o) => exists|x: T::Output|
                #[trigger] self.1.outcome(data, start, Ok(x), end) && call_ensures(
                    self.0,
                    (x,),
                    o,
                ),
            Err(e) => self.1.outcome(data, start, Err(e), end),
        }
    }

    fn analyze(&self, st: &mut Stream<T::Input>) -> (res: AnalyzerResult<O, T::Input>) {
        match self.1.analyze(st) {
            Ok(x) => Ok((self.0)(x)),
            Err(e) => Err(e),
        }
    }
}

/// Ordered choice: runs the first analyzer and, if it fails, the second from
/// wherever the first left the cursor. It never rewinds.
#[derive(Debug)]
pub struct Or<A: Analyzer, B: Analyzer<Input = A::Input, Output = A::Output>>(pub A, pub B);

impl<A: Analyzer + Clone, B: Analyzer<Input = A::Input, Output = A::Output> + Clone> Clone for Or<A, B> {
    fn clone(&self) -> (r: Self)
        ensures
            cloned(self.0, r.0),
            cloned(self.1, r.1),
    {
        Or(self.0.clone(), self.1.clone())
    }
}

impl<A: Analyzer, B: Analyzer<Input = A::Input, Output = A::Output>> Or<A, B> {
    pub fn new(a: A, b: B) -> (r: Self)
        ensures
            r.0 == a,
            r.1 == b,
    {
        Or(a, b)
    }
}

impl<A: Analyzer, B: Analyzer<Input = A::Input, Output = A::Output>> Analyzer for Or<A, B> {
    type Input = A::Input;

    type Output = B::Output;

    open spec fn wf(&self) -> bool {
        self.0.wf() && self.1.wf()
    }

    /// The first analyzer's success; or, after any failure of the first, the
    /// result of the second from where the first stopped. When both fail the
    /// error is the second's.
    open spec fn outcome(
        &self,
        data: Seq<A::Input>,
        start: int,
        res: AnalyzerResult<B::Output, A::Input>,
        end: int,
    ) -> bool {
        ||| res is Ok && self.0.outcome(data, start, res, end)
        ||| exists|e: AnalyzerError<A::Input>, mid: int|
            #[trigger] self.0.outcome(data, start, Err(e), mid) && self.1.outcome(
                data,
                mid,
                res,
                end,
            )
    }

    fn analyze(&self, st: &mut Stream<A::Input>) -> (res: AnalyzerResult<B::Output, A::Input>) {
        match self.0.analyze(st) {
            Ok(x) => Ok(x),
            Err(_) => self.1.analyze(st),
        }
    }
}

/// Sequence: runs the first analyzer, then the second, and yields both values.
#[derive(Debug)]
pub struct And<A: Analyzer, B: Analyzer<Input = A::Input>>(pub A, pub B);

impl<A: Analyzer + Clone, B: Analyzer<Input = A::Input> + Clone> Clone for And<A, B> {
    fn clone(&self) -> (r: Self)
        ensures
            cloned(self.0, r.0),
            cloned(self.1, r.1),
    {
        And(self.0.clone(), self.1.clone())
    }
}

impl<A: Analyzer, B: Analyzer<Input = A::Input>> And<A, B> {
    pub fn new(a: A, b: B) -> (r: Self)
        ensures
            r.0 == a,
            r.1 == b,
    {
        And(a, b)
    }
}

impl<A: Analyzer, B: Analyzer<Input = A::Input>> Analyzer for And<A, B> {
    type Input = A::Input;

    type Output = (A::Output, B::Output);

    open spec fn wf(&self) -> bool {
        self.0.wf() && self.1.wf()
    }

    /// The first failure ends the sequence, with the cursor where it happened.
    open spec fn outcome(
        &self,
        data: Seq<A::Input>,
        start: int,
        res: AnalyzerResult<(A::Output, B::Output), A::Input>,
        end: int,
    ) -> bool {
        match res {
            Ok(pair) => exists|mid: int|
                #[trigger] self.0.outcome(data, start, Ok(pair.0), mid) && self.1.outcome(
                    data,
                    mid,
                    Ok(pair.1),
                    end,
                ),
            Err(e) => {
                ||| self.0.outcome(data, start, Err(e), end)
                ||| exists|x: A::Output, mid: int|
                    #[trigger] self.0.outcome(data, start, Ok(x), mid) && self.1.outcome(
                        data,
                        mid,
                        Err(e),
                        end,
                    )
            },
        }
    }

    fn analyze(&self, st: &mut Stream<A::Input>) -> (res: AnalyzerResult<
        (A::Output, B::Output),
        A::Input,
    >) {
        let ghost data = st@.data;
        let ghost start = st@.pos;
        match self.0.analyze(st) {
            Ok(x) => {
                let ghost mid = st@.pos;
                match self.1.analyze(st) {
                    Ok(y) => {
                        let res = Ok((x, y));
                        assert(self.0.outcome(data, start, Ok(res->Ok_0.0), mid)
                            && self.1.outcome(data, mid, Ok(res->Ok_0.1), st@.pos));
                        res
                    },
                    Err(e) => Err(e),
                }
            },
            Err(e) => Err(e),
        }
    }
}

/// Sequence that keeps the second value only.
#[derive(Debug)]
pub struct With<A: Analyzer, B: Analyzer<Input = A::Input>>(pub A, pub B);

impl<A: Analyzer + Clone, B: Analyzer<Input = A::Input> + Clone> Clone for With<A, B> {
    fn clone(&self) -> (r: Self)
        ensures
            cloned(self.0, r.0),
            cloned(self.1, r.1),
    {
        With(self.0.clone(), self.1.clone())
    }
}

impl<A: Analyzer, B: Analyzer<Input = A::Input>> With<A, B> {
    pub fn new(a: A, b: B) -> (r: Self)
        ensures
            r.0 == a,
            r.1 == b,
    {
        With(a, b)
    }
}

impl<A: Analyzer, B: Analyzer<Input = A::Input>> Analyzer for With<A, B> {
    type Input = A::Input;

    type Output = B::Output;

    open spec fn wf(&self) -> bool {
        self.0.wf() && self.1.wf()
    }

    open spec fn outcome(
        &self,
        data: Seq<A::Input>,
        start: int,
        res: AnalyzerResult<B::Output, A::Input>,
        end: int,
    ) -> bool {
        ||| res matches Err(e) && self.0.outcome(data, start, Err(e), end)
        ||| exists|x: A::Output, mid: int|
            #[trigger] self.0.outcome(data, start, Ok(x), mid) && self.1.outcome(
                data,
                mid,
                res,
                end,
            )
    }

    fn analyze(&self, st: &mut Stream<A::Input>) -> (res: AnalyzerResult<B::Output, A::Input>) {
        match self.0.analyze(st) {
            Ok(_) => self.1.analyze(st),
            Err(e) => Err(e),
        }
    }
}

/// Sequence that keeps the first value only.
#[derive(Debug)]
pub struct Skip<A: Analyzer, B: Analyzer<Input = A::Input>>(pub A, pub B);

impl<A: Analyzer + Clone, B: Analyzer<Input = A::Input> + Clone> Clone for Skip<A, B> {
    fn clone(&self) -> (r: Self)
        ensures
            cloned(self.0, r.0),
            cloned(self.1, r.1),
    {
        Skip(self.0.clone(), self.1.clone())
    }
}

impl<A: Analyzer, B: Analyzer<Input = A::Input>> Skip<A, B> {
    pub fn new(a: A, b: B) -> (r: Self)
        ensures
            r.0 == a,
            r.1 == b,
    {
        Skip(a, b)
    }
}

impl<A: Analyzer, B: Analyzer<Input = A::Input>> Analyzer for Skip<A, B> {
    type Input = A::Input;

    type Output = A::Output;

    open spec fn wf(&self) -> bool {
        self.0.wf() && self.1.wf()
    }

    open spec fn outcome(
        &self,
        data: Seq<A::Input>,
        start: int,
        res: AnalyzerResult<A::Output, A::Input>,
        end: int,
    ) -> bool {
        match res {
            Ok(x) => exists|y: B::Output, mid: int|
                #[trigger] self.1.outcome(data, mid, Ok(y), end) && self.0.outcome(
                    data,
                    start,
                    Ok(x),
                    mid,
                ),
            Err(e) => {
                ||| self.0.outcome(data, start, Err(e), end)
                ||| exists|x: A::Output, mid: int|
                    #[trigger] self.0.outcome(data, start, Ok(x), mid) && self.1.outcome(
                        data,
                        mid,
                        Err(e),
                        end,
                    )
            },
        }
    }

    fn analyze(&self, st: &mut Stream<A::Input>) -> (res: AnalyzerResult<A::Output, A::Input>) {
        match self.0.analyze(st) {
            Ok(x) => match self.1.analyze(st) {
                Ok(_) => Ok(x),
                Err(e) => Err(e),
            },
            Err(e) => Err(e),
        }
    }
}

/// Always succeeds: the analyzer's value if it has one, `None` if it fails.
/// A failure that consumed input leaves the cursor where it stopped.
#[derive(Debug)]
pub struct Optional<A: Analyzer>(pub A);

impl<A: Analyzer + Clone> Clone for Optional<A> {
    fn clone(&self) -> (r: Self)
        ensures
            cloned(self.0, r.0),
    {
        Optional(self.0.clone())
    }
}

impl<A: Analyzer> Optional<A> {
    pub fn new(a: A) -> (r: Self)
        ensures
            r.0 == a,
    {
        Optional(a)
    }
}

impl<A: Analyzer> Analyzer for Optional<A> {
    type Input = A::Input;

    type Output = Option<A::Output>;

    open spec fn wf(&self) -> bool {
        self.0.wf()
    }

    open spec fn outcome(
        &self,
        data: Seq<A::Input>,
        start: int,
        res: AnalyzerResult<Option<A::Output>, A::Input>,
        end: int,
    ) -> bool {
        match res {
            Ok(Some(x)) => self.0.outcome(data, start, Ok(x), end),
            Ok(None) => exists|e: AnalyzerError<A::Input>|
                self.0.outcome(data, start, Err(e), end),
            Err(_) => false,
        }
    }

    fn analyze(&self, st: &mut Stream<A::Input>) -> (res: AnalyzerResult<
        Option<A::Output>,
        A::Input,
    >) {
        match self.0.analyze(st) {
            Ok(x) => Ok(Some(x)),
            Err(_) => Ok(None),
        }
    }
}

/// Replaces what a failure says was expected; its position and the symbol
/// found stay as they are.
#[derive(Debug)]
pub struct Msg<A: Analyzer>(pub A, pub ErrorExpect<A::Input>);

impl<A: Analyzer + Clone> Clone for Msg<A> where A::Input: Clone {
    fn clone(&self) -> (r: Self)
        ensures
            cloned(self.0, r.0),
            self.1.cloned_as(r.1),
    {
        Msg(self.0.clone(), self.1.clone())
    }
}

impl<A: Analyzer> Msg<A> where A::Input: Clone {
    pub fn new(a: A, msg: ErrorExpect<A::Input>) -> (r: Self)
        ensures
            r.0 == a,
            r.1 == msg,
    {
        Msg(a, msg)
    }
}

impl<A: Analyzer> Analyzer for Msg<A> where A::Input: Clone {
    type Input = A::Input;

    type Output = A::Output;

    open spec fn wf(&self) -> bool {
        self.0.wf()
    }

    open spec fn outcome(
        &self,
        data: Seq<A::Input>,
        start: int,
        res: AnalyzerResult<A::Output, A::Input>,
        end: int,
    ) -> bool {
        match res {
            Ok(_) => self.0.outcome(data, start, res, end),
            Err(e) => exists|inner: AnalyzerError<A::Input>|
                {
                    &&& #[trigger] self.0.outcome(data, start, Err(inner), end)
                    &&& e.pos == inner.pos
                    &&& e.unexpected == inner.unexpected
                    &&& self.1.cloned_as(e.expecting)
                },
        }
    }

    fn analyze(&self, st: &mut Stream<A::Input>) -> (res: AnalyzerResult<A::Output, A::Input>) {
        match self.0.analyze(st) {
            Ok(x) => Ok(x),
            Err(e) => Err(
                AnalyzerError { pos: e.pos, unexpected: e.unexpected, expecting: self.1.clone() },
            ),
        }
    }
}

/// Monadic continuation: runs its analyzer, hands the value to a function and
/// runs the analyzer that the function returns.
#[derive(Debug)]
#[verifier::reject_recursive_types(A)]
#[verifier::reject_recursive_types(F)]
#[verifier::reject_recursive_types(B)]
pub struct Then<A: Analyzer, F: Fn(A::Output) -> B, B: Analyzer<Input = A::Input>>(
    pub A,
    pub F,
    pub PhantomData<B>,
);

impl<A: Analyzer + Clone, F: Fn(A::Output) -> B + Clone, B: Analyzer<Input = A::Input>> Clone for Then<
    A,
    F,
    B,
> {
    fn clone(&self) -> (r: Self)
        ensures
            cloned(self.0, r.0),
            cloned(self.1, r.1),
    {
        Then(self.0.clone(), self.1.clone(), PhantomData)
    }
}

impl<A: Analyzer, F: Fn(A::Output) -> B, B: Analyzer<Input = A::Input>> Then<A, F, B> {
    pub fn new(a: A, f: F) -> (r: Self)
        ensures
            r.0 == a,
            r.1 == f,
    {
        Then(a, f, PhantomData)
    }
}

impl<A: Analyzer, F: Fn(A::Output) -> B, B: Analyzer<Input = A::Input>> Analyzer for Then<A, F, B> {
    type Input = A::Input;

    type Output = B::Output;

    open spec fn wf(&self) -> bool {
        &&& self.0.wf()
        &&& forall|x: A::Output| call_requires(self.1, (x,))
        &&& forall|x: A::Output, b: B| call_ensures(self.1, (x,), b) ==> b.wf()
    }

    open spec fn outcome(
        &self,
        data: Seq<A::Input>,
        start: int,
        res: AnalyzerResult<B::Output, A::Input>,
        end: int,
    ) -> bool {
        ||| res matches Err(e) && self.0.outcome(data, start, Err(e), end)
        ||| exists|x: A::Output, mid: int, b: B|
            {
                &&& #[trigger] self.0.outcome(data, start, Ok(x), mid)
                &&& #[trigger] call_ensures(self.1, (x,), b)
                &&& b.outcome(data, mid, res, end)
            }
    }

    fn analyze(&self, st: &mut Stream<A::Input>) -> (res: AnalyzerResult<B::Output, A::Input>) {
        match self.0.analyze(st) {
            Ok(x) => {
                let b = (self.1)(x);
                b.analyze(st)
            },
            Err(e) => Err(e),
        }
    }
}

/// Bounded repetition: runs its analyzer again and again and collects the
/// values, at least `.1` of them (none, if absent) and at most `.2` (without
/// bound, if absent).
///
/// It stops when the bound is reached, or at the first failure. A failure
/// before the least number of values, or one that moved the cursor, is the
/// failure of the whole repetition. Without an upper bound it also stops, once
/// it holds the least number of values, after a success that did not advance
/// the cursor: so it always ends.
#[derive(Debug)]
pub struct Loop<A: Analyzer>(pub A, pub Option<usize>, pub Option<usize>);

impl<A: Analyzer + Clone> Clone for Loop<A> {
    fn clone(&self) -> (r: Self)
        ensures
            cloned(self.0, r.0),
            r.1 == self.1,
            r.2 == self.2,
    {
        Loop(self.0.clone(), self.1, self.2)
    }
}

impl<A: Analyzer> Loop<A> {
    pub fn new(a: A, x: Option<usize>, y: Option<usize>) -> (r: Self)
        ensures
            r.0 == a,
            r.1 == x,
            r.2 == y,
    {
        Loop(a, x, y)
    }

    /// The least number of values that the repetition must collect.
    pub open spec fn least(&self) -> int {
        match self.1 {
            Some(n) => n as int,
            None => 0,
        }
    }

    /// The greatest number of values that the repetition collects, if it has
    /// an upper bound.
    pub open spec fn most(&self) -> Option<int> {
        match self.2 {
            Some(n) => Some(n as int),
            None => None,
        }
    }

    /// With `done` values the repetition has reached its upper bound.
    pub open spec fn full(&self, done: int) -> bool {
        self.2 matches Some(max) && done >= max
    }

    /// The success that gave the value number `done` took the cursor from
    /// `before` to `after` without advancing it, and the repetition, having
    /// no upper bound and enough values, stops there.
    pub open spec fn stalled(&self, done: int, before: int, after: int) -> bool {
        self.2 is None && after <= before && done >= self.least()
    }

    /// A run of successes: the iteration `i` found the cursor at `at[i]`,
    /// gave `xs[i]` and left the cursor at `at[i + 1]`, and nothing stopped
    /// the repetition before it.
    pub open spec fn run(&self, data: Seq<A::Input>, at: Seq<int>, xs: Seq<A::Output>) -> bool {
        &&& at.len() == xs.len() + 1
        &&& forall|i: int|
            0 <= i < xs.len() ==> self.0.outcome(data, at[i], Ok(#[trigger] xs[i]), at[i + 1])
        &&& forall|i: int| 0 <= i < xs.len() ==> !#[trigger] self.full(i)
        &&& forall|i: int| 1 <= i < xs.len() ==> !self.stalled(i, at[i - 1], #[trigger] at[i])
    }

    /// How the repetition ends after the run `at`, `xs`.
    pub open spec fn stop(
        &self,
        data: Seq<A::Input>,
        at: Seq<int>,
        xs: Seq<A::Output>,
        res: AnalyzerResult<Vec<A::Output>, A::Input>,
        end: int,
    ) -> bool {
        let done = xs.len() as int;
        if self.full(done) || (done >= 1 && self.stalled(done, at[done - 1], at[done])) {
            res matches Ok(v) && v@ == xs && end == at[done]
        } else {
            exists|e: AnalyzerError<A::Input>|
                {
                    &&& #[trigger] self.0.outcome(data, at[done], Err(e), end)
                    &&& if done < self.least() || end != at[done] {
                        res == Err::<Vec<A::Output>, AnalyzerError<A::Input>>(e)
                    } else {
                        res matches Ok(v) && v@ == xs
                    }
                }
        }
    }
}

impl<A: Analyzer> Analyzer for Loop<A> {
    type Input = A::Input;

    type Output = Vec<A::Output>;

    open spec fn wf(&self) -> bool {
        self.0.wf()
    }

    open spec fn outcome(
        &self,
        data: Seq<A::Input>,
        start: int,
        res: AnalyzerResult<Vec<A::Output>, A::Input>,
        end: int,
    ) -> bool {
        exists|at: Seq<int>, xs: Seq<A::Output>|
            {
                &&& #[trigger] self.run(data, at, xs)
                &&& at[0] == start
                &&& self.stop(data, at, xs, res, end)
            }
    }

    fn analyze(&self, st: &mut Stream<A::Input>) -> (res: AnalyzerResult<
        Vec<A::Output>,
        A::Input,
    >) {
        let ghost data = st@.data;
        let ghost mut at: Seq<int> = seq![st@.pos];
        let mut res: Vec<A::Output> = Vec::new();
        let least: usize = match self.1 {
            Some(n) => n,
            None => 0,
        };
        loop
            invariant
                self.0.wf(),
                least == self.least(),
                data == old(st)@.data,
                st@.data == data,
                at[0] == old(st)@.pos,
                self.run(data, at, res@),
                st@.pos == at[res@.len() as int],
                res@.len() >= 1 ==> !self.stalled(
                    res@.len() as int,
                    at[res@.len() - 1],
                    at[res@.len() as int],
                ),
            decreases
                    (if self.2 is Some {
                        self.2->0 - res@.len()
                    } else if res@.len() < least {
                        least - res@.len()
                    } else {
                        0
                    }),
                    data.len() - st@.pos,
        {
            let pos = st.pos();
            if let Some(max) = self.2 {
                if res.len() >= max {
                    return Ok(res);
                }
            }
            match self.0.analyze(st) {
                Ok(x) => {
                    let ghost before = res@;
                    res.push(x);
                    proof {
                        at = at.push(st@.pos);
                        assert(self.0.outcome(
                            data,
                            at[res@.len() - 1],
                            Ok(res@[res@.len() - 1]),
                            at[res@.len() as int],
                        ));
                        assert(self.run(data, at, res@));
                    }
                    let now = st.pos();
                    if self.2.is_none() && now <= pos && res.len() >= least {
                        return Ok(res);
                    }
                },
                Err(e) => {
                    if res.len() < least {
                        return Err(e);
                    }
                    if st.pos() != pos {
                        return Err(e);
                    }
                    return Ok(res);
                },
            }
        }
    }
}

/// An analyzer made of a function that takes the stream and gives it back
/// together with its result. Such a function may run other analyzers on the
/// stream, and may call itself.
#[derive(Debug)]
#[verifier::reject_recursive_types(F)]
#[verifier::reject_recursive_types(A)]
#[verifier::reject_recursive_types(B)]
pub struct AnalyzerFunc<F: Fn(Stream<A>) -> (Stream<A>, AnalyzerResult<B, A>), A, B>(
    pub F,
    pub PhantomData<(A, B)>,
);

impl<F: Fn(Stream<A>) -> (Stream<A>, AnalyzerResult<B, A>) + Clone, A, B> Clone for AnalyzerFunc<
    F,
    A,
    B,
> {
    fn clone(&self) -> (r: Self)
        ensures
            cloned(self.0, r.0),
    {
        AnalyzerFunc(self.0.clone(), PhantomData)
    }
}

impl<F: Fn(Stream<A>) -> (Stream<A>, AnalyzerResult<B, A>), A, B> AnalyzerFunc<F, A, B> {
    pub fn new(f: F) -> (r: Self)
        ensures
            r.0 == f,
    {
        AnalyzerFunc(f, PhantomData)
    }
}

impl<F: Fn(Stream<A>) -> (Stream<A>, AnalyzerResult<B, A>), A, B> Analyzer for AnalyzerFunc<
    F,
    A,
    B,
> {
    type Input = A;

    type Output = B;

    /// The function accepts every stream and hands back one over the same input.
    open spec fn wf(&self) -> bool {
        &&& forall|st: Stream<A>| call_requires(self.0, (st,))
        &&& forall|st: Stream<A>, out: (Stream<A>, AnalyzerResult<B, A>)|
            call_ensures(self.0, (st,), out) ==> out.0@.data == st@.data
    }

    open spec fn outcome(
        &self,
        data: Seq<A>,
        start: int,
        res: AnalyzerResult<B, A>,
        end: int,
    ) -> bool {
        exists|before: Stream<A>, after: Stream<A>|
            {
                &&& #[trigger] call_ensures(self.0, (before,), (after, res))
                &&& before@.data == data
                &&& before@.pos == start
                &&& after@.pos == end
            }
    }

    fn analyze(&self, st: &mut Stream<A>) -> (res: AnalyzerResult<B, A>) {
        let mut taken = Stream::new(Vec::new());
        core::mem::swap(st, &mut taken);
        let (given, res) = (self.0)(taken);
        *st = given;
        res
    }
}

/// One of two analyzers of the same input and output, behind one type.
#[derive(Debug)]
pub enum Either<A: Analyzer, B: Analyzer<Input = A::Input, Output = A::Output>> {
    Right(A),
    Left(B),
}

impl<A: Analyzer + Clone, B: Analyzer<Input = A::Input, Output = A::Output> + Clone> Clone for Either<
    A,
    B,
> {
    fn clone(&self) -> (r: Self)
        ensures
            match (*self, r) {
                (Either::Right(x), Either::Right(y)) => cloned(x, y),
                (Either::Left(x), Either::Left(y)) => cloned(x, y),
                _ => false,
            },
    {
        match self {
            Either::Right(x) => Either::Right(x.clone()),
            Either::Left(x) => Either::Left(x.clone()),
        }
    }
}

impl<A: Analyzer, B: Analyzer<Input = A::Input, Output = A::Output>> Analyzer for Either<A, B> {
    type Input = A::Input;

    type Output = A::Output;

    open spec fn wf(&self) -> bool {
        match self {
            Either::Right(x) => x.wf(),
            Either::Left(x) => x.wf(),
        }
    }

    open spec fn outcome(
        &self,
        data: Seq<A::Input>,
        start: int,
        res: AnalyzerResult<A::Output, A::Input>,
        end: int,
    ) -> bool {
        match self {
            Either::Right(x) => x.outcome(data, start, res, end),
            Either::Left(x) => x.outcome(data, start, res, end),
        }
    }

    fn analyze(&self, st: &mut Stream<A::Input>) -> (res: AnalyzerResult<A::Output, A::Input>) {
        match self {
            Either::Right(x) => x.analyze(st),
            Either::Left(x) => x.analyze(st),
        }
    }
}

impl<A: Analyzer> Analyzer for Box<A> {
    type Input = A::Input;

    type Output = A::Output;

    open spec fn wf(&self) -> bool {
        (**self).wf()
    }

    open spec fn outcome(
        &self,
        data: Seq<A::Input>,
        start: int,
        res: AnalyzerResult<A::Output, A::Input>,
        end: int,
    ) -> bool {
        (**self).outcome(data, start, res, end)
    }

    fn analyze(&self, st: &mut Stream<A::Input>) -> (res: AnalyzerResult<A::Output, A::Input>) {
        (**self).analyze(st)
    }
}

impl<A: Analyzer> Analyzer for &mut A {
    type Input = A::Input;

    type Output = A::Output;

    open spec fn wf(&self) -> bool {
        (**self).wf()
    }

    open spec fn outcome(
        &self,
        data: Seq<A::Input>,
        start: int,
        res: AnalyzerResult<A::Output, A::Input>,
        end: int,
    ) -> bool {
        (**self).outcome(data, start, res, end)
    }

    fn analyze(&self, st: &mut Stream<A::Input>) -> (res: AnalyzerResult<A::Output, A::Input>) {
        (**self).analyze(st)
    }
}

impl<A: Analyzer> Analyzer for &A {
    type Input = A::Input;

    type Output = A::Output;

    open spec fn wf(&self) -> bool {
        (**self).wf()
    }

    open spec fn outcome(
        &self,
        data: Seq<A::Input>,
        start: int,
        res: AnalyzerResult<A::Output, A::Input>,
        end: int,
    ) -> bool {
        (**self).outcome(data, start, res, end)
    }

    fn analyze(&self, st: &mut Stream<A::Input>) -> (res: AnalyzerResult<A::Output, A::Input>) {
        (**self).analyze(st)
    }
}

/// The combinators, as methods of every analyzer.
pub trait Combine: Analyzer + Sized {
    /// Passes a success value through `f`.
    fn map<T, F: Fn(Self::Output) -> T>(self, f: F) -> (r: Mapped<T, Self, F>)
        ensures
            r.0 == f,
            r.1 == self,
    {
        Mapped::new(f, self)
    }

    /// Puts the cursor back where it was if this analyzer fails.
    fn attempt(self) -> (r: Attempt<Self>)
        ensures
            r.0 == self,
    {
        Attempt::new(self)
    }

    /// Ordered choice: `x` runs if this analyzer fails, from wherever the
    /// cursor then is.
    fn or<T: Analyzer<Input = Self::Input, Output = Self::Output>>(self, x: T) -> (r: Or<
        Self,
        T,
    >)
        ensures
            r.0 == self,
            r.1 == x,
    {
        Or::new(self, x)
    }

    /// Sequence yielding both values.
    fn and<T: Analyzer<Input = Self::Input>>(self, x: T) -> (r: And<Self, T>)
        ensures
            r.0 == self,
            r.1 == x,
    {
        And::new(self, x)
    }

    /// Replaces a success value by a clone of `x`.
    fn val<T: Clone>(self, x: T) -> (r: With<Self, Val<T, Self::Input>>)
        ensures
            r.0 == self,
            r.1.0 == x,
    {
        With::new(self, Val::new(x))
    }

    /// Sequence yielding the value of `x`.
    fn with<T: Analyzer<Input = Self::Input>>(self, x: T) -> (r: With<Self, T>)
        ensures
            r.0 == self,
            r.1 == x,
    {
        With::new(self, x)
    }

    /// Sequence yielding the value of this analyzer.
    fn skip<T: Analyzer<Input = Self::Input>>(self, x: T) -> (r: Skip<Self, T>)
        ensures
            r.0 == self,
            r.1 == x,
    {
        Skip::new(self, x)
    }

    /// Turns a failure into the value `None`.
    fn optional(self) -> (r: Optional<Self>)
        ensures
            r.0 == self,
    {
        Optional::new(self)
    }

    /// Repeats zero or more times.
    fn many(self) -> (r: Loop<Self>)
        ensures
            r.0 == self,
            r.1 is None,
            r.2 is None,
    {
        Loop::new(self, None, None)
    }

    /// Repeats one or more times.
    fn many1(self) -> (r: Loop<Self>)
        ensures
            r.0 == self,
            r.1 == Some(1usize),
            r.2 is None,
    {
        Loop::new(self, Some(1), None)
    }

    /// Repeats exactly `n` times.
    fn many_n(self, n: usize) -> (r: Loop<Self>)
        ensures
            r.0 == self,
            r.1 == Some(n),
            r.2 == Some(n),
    {
        Loop::new(self, Some(n), Some(n))
    }

    /// Replaces what a failure says was expected by `msg`.
    fn msg(self, msg: ErrorExpect<Self::Input>) -> (r: Msg<Self>) where
        Self::Input: Clone,

        ensures
            r.0 == self,
            r.1 == msg,
    {
        Msg::new(self, msg)
    }

    /// Hands a success value to `f` and runs the analyzer that `f` returns.
    fn and_then<F: Fn(Self::Output) -> B, B: Analyzer<Input = Self::Input>>(self, f: F) -> (r: Then<
        Self,
        F,
        B,
    >)
        ensures
            r.0 == self,
            r.1 == f,
    {
        Then::new(self, f)
    }

    /// Moves the analyzer to the heap.
    fn boxed(self) -> (r: Box<Self>)
        ensures
            *r == self,
    {
        Box::new(self)
    }
}

impl<A: Analyzer> Combine for A {
}

/// What `wf` and `outcome` of `expect` are, for a caller that holds a
/// closure of its own.
pub proof fn lemma_expect<T: Clone, F: Fn(&T) -> bool>(a: Expect<T, F>)
    ensures
        a.wf() <==> forall|x: T| call_requires(a.0, (&x,)),
        forall|data: Seq<T>, start: int, res: AnalyzerResult<T, T>, end: int| #[trigger]
            a.outcome(data, start, res, end) <==> match res {
                Ok(x) => {
                    &&& 0 <= start < data.len()
                    &&& cloned(data[start], x)
                    &&& call_ensures(a.0, (&x,), true)
                    &&& end == start + 1
                },
                Err(e) => {
                    &&& e.raised_at(data, start)
                    &&& e.expecting is Unknown
                    &&& e.unexpected matches Some(x) ==> call_ensures(a.0, (&x,), false)
                    &&& end == start
                },
            },
{
}

/// What `wf` and `outcome` of a continuation are, for a caller that holds a
/// closure of its own.
pub proof fn lemma_then<A: Analyzer, F: Fn(A::Output) -> B, B: Analyzer<Input = A::Input>>(
    a: Then<A, F, B>,
)
    ensures
        a.wf() <==> {
            &&& a.0.wf()
            &&& forall|x: A::Output| call_requires(a.1, (x,))
            &&& forall|x: A::Output, b: B| call_ensures(a.1, (x,), b) ==> b.wf()
        },
        forall|
            data: Seq<A::Input>,
            start: int,
            res: AnalyzerResult<B::Output, A::Input>,
            end: int,
        | #[trigger]
            a.outcome(data, start, res, end) <==> {
                ||| res matches Err(e) && a.0.outcome(data, start, Err(e), end)
                ||| exists|x: A::Output, mid: int, b: B|
                    {
                        &&& #[trigger] a.0.outcome(data, start, Ok(x), mid)
                        &&& #[trigger] call_ensures(a.1, (x,), b)
                        &&& b.outcome(data, mid, res, end)
                    }
            },
{
}

/// What `wf` and `outcome` of an analyzer made of a function are, for a
/// caller that holds a closure of its own.
pub proof fn lemma_analyzer_func<F: Fn(Stream<A>) -> (Stream<A>, AnalyzerResult<B, A>), A, B>(
    a: AnalyzerFunc<F, A, B>,
)
    ensures
        a.wf() <==> {
            &&& forall|st: Stream<A>| call_requires(a.0, (st,))
            &&& forall|st: Stream<A>, out: (Stream<A>, AnalyzerResult<B, A>)|
                call_ensures(a.0, (st,), out) ==> out.0@.data == st@.data
        },
        forall|data: Seq<A>, start: int, res: AnalyzerResult<B, A>, end: int| #[trigger]
            a.outcome(data, start, res, end) <==> exists|before: Stream<A>, after: Stream<A>|
                {
                    &&& #[trigger] call_ensures(a.0, (before,), (after, res))
                    &&& before@.data == data
                    &&& before@.pos == start
                    &&& after@.pos == end
                },
{
}

/// What `wf` and `outcome` of a mapped analyzer are, for a caller that holds
/// a closure of its own.
pub proof fn lemma_mapped<O, T: Analyzer, F: Fn(T::Output) -> O>(m: Mapped<O, T, F>)
    ensures
        m.wf() <==> m.1.wf() && forall|x: T::Output| call_requires(m.0, (x,)),
        forall|data: Seq<T::Input>, start: int, res: AnalyzerResult<O, T::Input>, end: int| #[trigger]
            m.outcome(data, start, res, end) <==> match res {
                Ok(o) => exists|x: T::Output| #[trigger]
                    m.1.outcome(data, start, Ok(x), end) && call_ensures(m.0, (x,), o),
                Err(e) => m.1.outcome(data, start, Err(e), end),
            },
{
}

/// Backtracking: whenever an analyzer wrapped in `attempt` fails, the cursor
/// stands where it stood before the call.
pub proof fn lemma_attempt_rewinds<T: Analyzer>(
    a: Attempt<T>,
    data: Seq<T::Input>,
    start: int,
    res: AnalyzerResult<T::Output, T::Input>,
    end: int,
)
    requires
        a.outcome(data, start, res, end),
        res is Err,
    ensures
        end == start,
{
}

} // verus!

use vstd::prelude::*;
use vstd::string::StrSliceExecFns;

use crate::bitreader::push_char;

verus! {

/// The three classes of failure a decode can end in.
#[derive(Debug, Clone, Copy, PartialEq, Eq, Structural)]
pub enum ParseErrorKind {
    /// The byte source ran out.
    Io,
    /// The bytes break the structure of the format.
    InvalidInput,
    /// The bytes are recognised but this reader does not handle them.
    Unsupported,
}

/// An error of a decode, with a message and the place where it occurred.
#[derive(Debug)]
pub struct ParseError {
    pub kind: ParseErrorKind,
    pub message: String,
    pub context: String,
}

/// What a decoder does, as mathematics: it either yields a value and the
/// position just past what it consumed, or fails with a kind of error.
pub enum Decoded<T> {
    Done(T, int),
    Fail(ParseErrorKind),
}

impl<T> Decoded<T> {
    pub open spec fn is_done(self) -> bool {
        self is Done
    }

    pub open spec fn end(self) -> int {
        self->Done_1
    }

    pub open spec fn value(self) -> T {
        self->Done_0
    }
}

/// Runs a second decoder where the first one ended, on the first one's value.
pub open spec fn and_next<A, B>(first: Decoded<A>, next: spec_fn(A, int) -> Decoded<B>) -> Decoded<B> {
    match first {
        Decoded::Done(a, e) => next(a, e),
        Decoded::Fail(k) => Decoded::Fail(k),
    }
}

/// `n` values one after another, each decoded by `item` where the previous one
/// ended, appended to `acc`.
pub open spec fn repeat<T>(item: spec_fn(int) -> Decoded<T>, n: nat, p: int, acc: Seq<T>) -> Decoded<Seq<T>>
    decreases n,
{
    if n == 0 {
        Decoded::Done(acc, p)
    } else {
        match item(p) {
            Decoded::Done(v, p1) => repeat(item, (n - 1) as nat, p1, acc.push(v)),
            Decoded::Fail(k) => Decoded::Fail(k),
        }
    }
}

/// `n` values one after another, each decoded by `item` and folded into `acc` by `step`.
pub open spec fn fold_repeat<T, A>(
    item: spec_fn(int) -> Decoded<T>,
    step: spec_fn(A, T) -> A,
    n: nat,
    p: int,
    acc: A,
) -> Decoded<A>
    decreases n,
{
    if n == 0 {
        Decoded::Done(acc, p)
    } else {
        match item(p) {
            Decoded::Done(v, p1) => fold_repeat(item, step, (n - 1) as nat, p1, step(acc, v)),
            Decoded::Fail(k) => Decoded::Fail(k),
        }
    }
}

/// An executable result agrees with a decoder's outcome: the same value
/// (through its model) and the same end position, or the same kind of error.
pub open spec fn agrees<V: View>(r: Result<V, ParseError>, d: Decoded<V::V>, end: int) -> bool {
    match r {
        Ok(v) => d == Decoded::Done(v@, end),
        Err(e) => d == Decoded::Fail::<V::V>(e.kind),
    }
}

/// Appends the characters of `src` to `dst`.
pub(crate) fn append(dst: &mut String, src: &str)
    ensures
        final(dst)@ == old(dst)@ + src@,
{
    let n = src.unicode_len();
    let mut i: usize = 0;
    while i < n
        invariant
            n == src@.len(),
            i <= n,
            dst@ == old(dst)@ + src@.subrange(0, i as int),
        decreases n - i,
    {
        push_char(dst, src.get_char(i));
        i = i + 1;
        assert(dst@ =~= old(dst)@ + src@.subrange(0, i as int));
    }
    assert(src@.subrange(0, n as int) =~= src@);
}

impl ParseError {
    /// The error as one text: its message, then on a line of its own its context.
    pub fn describe(&self) -> (r: String)
        ensures
            r@ == "Error while parsing remarkable file "@ + self.message@ + ". \n"@ + self.context@,
    {
        let mut r = "Error while parsing remarkable file ".to_owned();
        append(&mut r, self.message.as_str());
        append(&mut r, ". \n");
        append(&mut r, self.context.as_str());
        r
    }

    pub fn new(message: &str, kind: ParseErrorKind) -> (r: ParseError)
        ensures
            r.kind == kind,
            r.message@ == message@,
            r.context@.len() == 0,
    {
        ParseError { kind, message: message.to_owned(), context: String::new() }
    }

    pub fn invalid(message: &str) -> (r: ParseError)
        ensures
            r.kind == ParseErrorKind::InvalidInput,
            r.message@ == message@,
            r.context@.len() == 0,
    {
        Self::new(message, ParseErrorKind::InvalidInput)
    }

    pub fn unsupported(message: &str) -> (r: ParseError)
        ensures
            r.kind == ParseErrorKind::Unsupported,
            r.message@ == message@,
            r.context@.len() == 0,
    {
        Self::new(message, ParseErrorKind::Unsupported)
    }
}

} // verus!

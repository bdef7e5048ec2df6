use vstd::prelude::*;

use crate::point::Point;

verus! {

/// A source of text that hands out fragments of code units on request.
pub trait Input<C>: Sized {
    /// Whether a read at `byte` and `point` may be made on `self`.
    spec fn ready(&self, byte: usize, point: Point) -> bool;

    /// Whether `units` is a fragment that a read at `byte` and `point` may hand
    /// out from `self`, leaving `after` behind.
    spec fn reads(&self, after: &Self, byte: usize, point: Point, units: Seq<C>) -> bool;

    fn read(&mut self, byte: usize, point: Point) -> (r: &[C])
        requires
            old(self).ready(byte, point),
        ensures
            old(self).reads(&*final(self), byte, point, r@),
    ;
}

/// Input that borrows text fragments from the original source.
#[verifier::reject_recursive_types(C)]
#[verifier::reject_recursive_types(T)]
pub struct Borrowing<'a, C: 'static, T: FnMut(usize, Point) -> &'a [C]> {
    input: T,
}

impl<'a, C: 'static, T: FnMut(usize, Point) -> &'a [C]> Borrowing<'a, C, T> {
    /// The function that the fragments come from.
    pub closed spec fn source(&self) -> T {
        self.input
    }

    pub fn new(input: T) -> (r: Self)
        ensures
            r.source() == input,
    {
        Self { input }
    }
}

impl<'a, C: 'static, T: FnMut(usize, Point) -> &'a [C]> Input<C> for Borrowing<'a, C, T> {
    open spec fn ready(&self, byte: usize, point: Point) -> bool {
        call_requires(self.source(), (byte, point))
    }

    open spec fn reads(&self, after: &Self, byte: usize, point: Point, units: Seq<C>) -> bool {
        &&& after.source() == self.source()
        &&& exists|s: &'a [C]| #[trigger] call_ensures(self.source(), (byte, point), s) && s@ == units
    }

    fn read(&mut self, byte: usize, point: Point) -> (r: &[C]) {
        broadcast use vstd::function::group_function_axioms;

        let s = (self.input)(byte, point);
        s
    }
}

/// An owned fragment of code units, as a `Cloning` input buffers it.
pub trait Fragment<C> {
    /// The code units that the fragment holds.
    spec fn units(&self) -> Seq<C>;

    fn as_units(&self) -> (r: &[C])
        ensures
            r@ == self.units(),
    ;
}

impl<C> Fragment<C> for Vec<C> {
    open spec fn units(&self) -> Seq<C> {
        self@
    }

    fn as_units(&self) -> (r: &[C]) {
        self.as_slice()
    }
}

impl Fragment<u8> for String {
    /// The UTF-8 bytes of the string.
    open spec fn units(&self) -> Seq<u8> {
        vstd::utf8::encode_utf8(self@)
    }

    fn as_units(&self) -> (r: &[u8]) {
        self.as_str().as_bytes()
    }
}

/// Input that clones text fragments from the original source.
///
/// It keeps the most recent fragment, and only that one: each read replaces
/// it, so a slice handed out lives until the next read.
#[verifier::reject_recursive_types(T)]
#[verifier::reject_recursive_types(S)]
pub struct Cloning<T, S> {
    buffer: Option<S>,
    input: T,
}

impl<T, S> Cloning<T, S> {
    /// The function that the fragments come from.
    pub closed spec fn source(&self) -> T {
        self.input
    }

    /// The fragment that the last read produced, if any read was made.
    pub closed spec fn buffered(&self) -> Option<S> {
        self.buffer
    }

    pub fn new(input: T) -> (r: Self)
        ensures
            r.source() == input,
            r.buffered() is None,
    {
        Self { input, buffer: None }
    }
}

impl<C, T: FnMut(usize, Point) -> S, S: Fragment<C>> Input<C> for Cloning<T, S> {
    open spec fn ready(&self, byte: usize, point: Point) -> bool {
        call_requires(self.source(), (byte, point))
    }

    /// The fragment handed out is the one now buffered; the one before it is
    /// dropped.
    open spec fn reads(&self, after: &Self, byte: usize, point: Point, units: Seq<C>) -> bool {
        &&& after.source() == self.source()
        &&& after.buffered() is Some
        &&& call_ensures(self.source(), (byte, point), after.buffered()->0)
        &&& after.buffered()->0.units() == units
    }

    fn read(&mut self, byte: usize, point: Point) -> (r: &[C]) {
        broadcast use vstd::function::group_function_axioms;

        let fragment = (self.input)(byte, point);
        self.buffer = Some(fragment);
        self.buffer.as_ref().unwrap().as_units()
    }
}

/// Of two reads in a row on a cloning input, the second replaces what the
/// first buffered: afterwards the input holds exactly the fragment that the
/// source gave for the second read, whose units are what that read handed
/// out, while the first read's units were those of the fragment it buffered.
pub proof fn lemma_cloning_holds_latest<C, T: FnMut(usize, Point) -> S, S: Fragment<C>>(
    c0: Cloning<T, S>,
    c1: Cloning<T, S>,
    c2: Cloning<T, S>,
    byte1: usize,
    point1: Point,
    units1: Seq<C>,
    byte2: usize,
    point2: Point,
    units2: Seq<C>,
)
    requires
        c0.reads(&c1, byte1, point1, units1),
        c1.reads(&c2, byte2, point2, units2),
    ensures
        c2.source() == c0.source(),
        c1.buffered() is Some,
        c1.buffered()->0.units() == units1,
        call_ensures(c0.source(), (byte1, point1), c1.buffered()->0),
        c2.buffered() is Some,
        c2.buffered()->0.units() == units2,
        call_ensures(c0.source(), (byte2, point2), c2.buffered()->0),
{
}

} // verus!

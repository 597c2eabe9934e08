//! Patterns written as types: a list of words that is known when the program
//! is compiled, and that gives its run-time pattern on request.

use crate::error::Error;
use crate::pattern::{consume_spec, fits, normalize_spec, words, IOPattern, SpongeOp};
use crate::private::Sealed;
use std::marker::PhantomData;
use vstd::prelude::*;

verus! {

/// The word that absorbs `N` elements.
#[derive(Debug)]
pub struct Absorb<const N: u32>;

/// The word that squeezes `N` elements.
#[derive(Debug)]
pub struct Squeeze<const N: u32>;

impl<const N: u32> Sealed for Absorb<N> {

}

impl<const N: u32> Sealed for Squeeze<N> {

}

/// A word of a type-level pattern.
pub trait IOWord: Sealed {
    /// The operation that the word stands for.
    spec fn op() -> SpongeOp;
}

impl<const N: u32> IOWord for Absorb<N> {
    open spec fn op() -> SpongeOp {
        SpongeOp::Absorb(N)
    }
}

impl<const N: u32> IOWord for Squeeze<N> {
    open spec fn op() -> SpongeOp {
        SpongeOp::Squeeze(N)
    }
}

/// The run-time value of a type-level word.
pub trait ToSpongeOp: IOWord {
    fn to_sponge_op() -> (op: SpongeOp)
        ensures
            op == Self::op(),
    ;
}

impl<const N: u32> ToSpongeOp for Absorb<N> {
    fn to_sponge_op() -> (op: SpongeOp) {
        SpongeOp::Absorb(N)
    }
}

impl<const N: u32> ToSpongeOp for Squeeze<N> {
    fn to_sponge_op() -> (op: SpongeOp) {
        SpongeOp::Squeeze(N)
    }
}

/// A type-level list of words.
pub trait List: Sealed + Sized {
    /// The operations of the list, first to last.
    spec fn ops() -> Seq<SpongeOp>;

    /// The one value of the type.
    fn unit() -> Self;

    /// Whether the list has no word.
    fn is_empty() -> (b: bool)
        ensures
            b == (Self::ops().len() == 0),
    ;
}

/// The list that starts with `Item` and goes on with `Next`.
#[derive(Debug)]
pub struct Cons<Item, Next: List> {
    _phantom: PhantomData<(Item, Next)>,
}

/// The list without a word.
#[derive(Debug)]
pub struct Nil;

impl Sealed for Nil {

}

impl<Item, Next: List> Sealed for Cons<Item, Next> {

}

impl List for Nil {
    open spec fn ops() -> Seq<SpongeOp> {
        Seq::empty()
    }

    fn unit() -> Self {
        Nil
    }

    fn is_empty() -> (b: bool) {
        true
    }
}

impl<Item: IOWord, Next: List> List for Cons<Item, Next> {
    open spec fn ops() -> Seq<SpongeOp> {
        seq![Item::op()] + Next::ops()
    }

    fn unit() -> Self {
        Cons { _phantom: PhantomData }
    }

    fn is_empty() -> (b: bool) {
        false
    }
}

/// The run-time value of a type-level list.
pub trait ToIOPattern: List {
    fn to_iopattern() -> (p: IOPattern)
        ensures
            p.0@ == Self::ops(),
    ;
}

impl ToIOPattern for Nil {
    fn to_iopattern() -> (p: IOPattern) {
        IOPattern(Vec::new())
    }
}

impl<Item: ToSpongeOp, Next: ToIOPattern> ToIOPattern for Cons<Item, Next> {
    fn to_iopattern() -> (p: IOPattern) {
        let mut v = Next::to_iopattern().0;
        v.insert(0, Item::to_sponge_op());
        IOPattern(v)
    }
}

/// Lists that give their canonical form.
pub trait Normalize: List {
    /// The canonical form of the list, unless one of its lengths is beyond a
    /// `u32`.
    fn normalize() -> (r: Result<IOPattern, Error>)
        ensures
            match r {
                Ok(out) => fits(normalize_spec(words(Self::ops()))) && out@ == normalize_spec(
                    words(Self::ops()),
                ),
                Err(e) => !fits(normalize_spec(words(Self::ops()))) && e == Error::LengthOverflow,
            },
    ;
}

impl<L: ToIOPattern> Normalize for L {
    fn normalize() -> (r: Result<IOPattern, Error>) {
        L::to_iopattern().normalize()
    }
}

/// Lists from which the word `Op` can be asked.
pub trait Consume<Op: IOWord>: List {
    /// What is left of the list once `Op` has been performed:
    /// `ProtocolViolation` where the list does not allow it, `LengthOverflow`
    /// where what is left has a length beyond a `u32`.
    fn consume() -> (r: Result<IOPattern, Error>)
        ensures
            match consume_spec(words(Self::ops()), Op::op()@) {
                None => r matches Err(e) && e == Error::ProtocolViolation,
                Some(left) => match r {
                    Ok(out) => fits(left) && out@ == left,
                    Err(e) => !fits(left) && e == Error::LengthOverflow,
                },
            },
    ;
}

impl<L: ToIOPattern, Op: ToSpongeOp> Consume<Op> for L {
    fn consume() -> (r: Result<IOPattern, Error>) {
        L::to_iopattern().consume(Op::to_sponge_op())
    }
}

} // verus!

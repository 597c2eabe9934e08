//! Patterns of sponge operations, their canonical form, and what a call
//! leaves of them.

use crate::error::Error;
use crate::laws::{
    lemma_consume_canonical, lemma_normalize_prefix, lemma_normalize_push, lemma_words_fit,
};
use vstd::prelude::*;

verus! {

/// One operation on a sponge, with the number of elements it moves.
#[derive(Clone, Copy, Debug, PartialEq, Eq, Structural)]
pub enum SpongeOp {
    Absorb(u32),
    Squeeze(u32),
}

/// The mathematical counterpart of a [`SpongeOp`]: its length is unbounded,
/// so that merging two words never leaves the model.
pub enum Word {
    Absorb(nat),
    Squeeze(nat),
}

impl Word {
    /// The number of elements the word stands for.
    pub open spec fn len(self) -> nat {
        match self {
            Word::Absorb(n) => n,
            Word::Squeeze(n) => n,
        }
    }

    /// Whether two words are of the same kind, whatever their lengths.
    pub open spec fn same_kind(self, other: Word) -> bool {
        (self is Absorb) == (other is Absorb)
    }

    /// The word of the same kind with length `n`.
    pub open spec fn with_len(self, n: nat) -> Word {
        match self {
            Word::Absorb(_) => Word::Absorb(n),
            Word::Squeeze(_) => Word::Squeeze(n),
        }
    }
}

impl View for SpongeOp {
    type V = Word;

    open spec fn view(&self) -> Word {
        match *self {
            SpongeOp::Absorb(n) => Word::Absorb(n as nat),
            SpongeOp::Squeeze(n) => Word::Squeeze(n as nat),
        }
    }
}

impl SpongeOp {
    /// The number of elements the operation moves.
    pub fn length(&self) -> (n: u32)
        ensures
            n == self@.len(),
    {
        match *self {
            SpongeOp::Absorb(n) => n,
            SpongeOp::Squeeze(n) => n,
        }
    }

    /// Whether both operations absorb, or both squeeze.
    pub fn same_kind(&self, other: &SpongeOp) -> (b: bool)
        ensures
            b == self@.same_kind(other@),
    {
        match (*self, *other) {
            (SpongeOp::Absorb(_), SpongeOp::Absorb(_)) => true,
            (SpongeOp::Squeeze(_), SpongeOp::Squeeze(_)) => true,
            _ => false,
        }
    }

    /// The operation of the same kind that moves `n` elements.
    pub fn with_length(&self, n: u32) -> (op: SpongeOp)
        ensures
            op@ == self@.with_len(n as nat),
    {
        match *self {
            SpongeOp::Absorb(_) => SpongeOp::Absorb(n),
            SpongeOp::Squeeze(_) => SpongeOp::Squeeze(n),
        }
    }
}

/// An ordered list of operations: what a session declares, and what it still
/// owes.
#[derive(Clone, Debug, PartialEq, Eq)]
pub struct IOPattern(pub Vec<SpongeOp>);

/// The words that a sequence of operations stands for.
pub open spec fn words(ops: Seq<SpongeOp>) -> Seq<Word> {
    ops.map_values(|op: SpongeOp| op@)
}

impl View for IOPattern {
    type V = Seq<Word>;

    open spec fn view(&self) -> Seq<Word> {
        words(self.0@)
    }
}

/// A pattern is canonical when no entry is empty and no two neighbours are
/// of the same kind.
pub open spec fn is_canonical(p: Seq<Word>) -> bool {
    &&& forall|i: int| 0 <= i < p.len() ==> (#[trigger] p[i]).len() > 0
    &&& forall|i: int, j: int|
        0 <= i && j == i + 1 && j < p.len() ==> !(#[trigger] p[i]).same_kind(#[trigger] p[j])
}

/// Every length of the pattern can be held in a `u32`.
pub open spec fn fits(p: Seq<Word>) -> bool {
    forall|i: int| 0 <= i < p.len() ==> (#[trigger] p[i]).len() <= u32::MAX
}

/// Puts `w` in front of `rest`: an empty word vanishes, and a word of the
/// kind that `rest` starts with is merged into its first entry.
pub open spec fn prepend(w: Word, rest: Seq<Word>) -> Seq<Word> {
    if w.len() == 0 {
        rest
    } else if rest.len() > 0 && w.same_kind(rest[0]) {
        seq![w.with_len(w.len() + rest[0].len())] + rest.drop_first()
    } else {
        seq![w] + rest
    }
}

/// Puts `w` behind `done`: the mirror image of [`prepend`].
pub open spec fn append(done: Seq<Word>, w: Word) -> Seq<Word> {
    if w.len() == 0 {
        done
    } else if done.len() > 0 && done.last().same_kind(w) {
        done.drop_last().push(w.with_len(done.last().len() + w.len()))
    } else {
        done.push(w)
    }
}

/// The canonical form of a pattern: empty entries are dropped, and each run
/// of same-kind entries, also one that only shows once the empty entries
/// between its parts are gone, becomes one entry with the sum of the lengths.
pub open spec fn normalize_spec(p: Seq<Word>) -> Seq<Word>
    decreases p.len(),
{
    if p.len() == 0 {
        Seq::empty()
    } else {
        prepend(p[0], normalize_spec(p.drop_first()))
    }
}

/// `w` spelled out: one word of one element for each of its elements.
pub open spec fn spell(w: Word) -> Seq<Word> {
    Seq::new(w.len(), |i: int| w.with_len(1))
}

/// The elements that a pattern stands for, one by one and in order, however
/// the pattern groups them.
pub open spec fn elements(p: Seq<Word>) -> Seq<Word>
    decreases p.len(),
{
    if p.len() == 0 {
        Seq::empty()
    } else {
        spell(p[0]) + elements(p.drop_first())
    }
}

/// `b` goes on where `a` stops: it has the entries of `a` in their places,
/// the last of them perhaps grown.
pub open spec fn extends(a: Seq<Word>, b: Seq<Word>) -> bool {
    a.len() > 0 ==> {
        &&& a.len() <= b.len()
        &&& forall|j: int| 0 <= j < a.len() - 1 ==> #[trigger] b[j] == a[j]
        &&& b[a.len() - 1].same_kind(a.last())
        &&& b[a.len() - 1].len() >= a.last().len()
    }
}

/// What is left of `p` once `op` has been performed, or `None` where `p`
/// does not allow `op`: where it is exhausted, goes on with the other kind, or
/// goes on with fewer elements than `op` asks for. An operation on no element
/// leaves `p` as it stands; any other is taken from the first entry, and what
/// remains is put in canonical form.
pub open spec fn consume_spec(p: Seq<Word>, op: Word) -> Option<Seq<Word>> {
    if p.len() == 0 || !p[0].same_kind(op) || p[0].len() < op.len() {
        None
    } else if op.len() == 0 {
        Some(p)
    } else {
        Some(normalize_spec(p.update(0, op.with_len((p[0].len() - op.len()) as nat))))
    }
}

/// What is left of a canonical pattern `p` that allows `op`: the first entry
/// gives up the elements of `op`, and leaves once it has none.
pub open spec fn take_from_head(p: Seq<Word>, op: Word) -> Seq<Word> {
    if op.len() == 0 {
        p
    } else if op.len() == p[0].len() {
        p.drop_first()
    } else {
        p.update(0, p[0].with_len((p[0].len() - op.len()) as nat))
    }
}

impl IOPattern {
    /// The canonical form of the pattern, unless one of its lengths is beyond
    /// a `u32`.
    pub fn normalize(&self) -> (r: Result<IOPattern, Error>)
        ensures
            match r {
                Ok(out) => fits(normalize_spec(self@)) && out@ == normalize_spec(self@),
                Err(e) => !fits(normalize_spec(self@)) && e == Error::LengthOverflow,
            },
    {
        let mut out: Vec<SpongeOp> = Vec::new();
        let mut i: usize = 0;
        while i < self.0.len()
            invariant
                0 <= i <= self.0.len(),
                words(out@) == normalize_spec(self@.take(i as int)),
            decreases self.0.len() - i,
        {
            let op = self.0[i];
            let n = op.length();
            let k = out.len();
            proof {
                assert(self@.take(i + 1) =~= self@.take(i as int).push(op@));
                lemma_normalize_push(self@.take(i as int), op@);
            }
            if n > 0 {
                if k > 0 && out[k - 1].same_kind(&op) {
                    let m = out[k - 1].length();
                    if n > u32::MAX - m {
                        proof {
                            // the entry that is too long stays, or grows, in
                            // the canonical form of the whole pattern
                            let grown = normalize_spec(self@.take(i + 1));
                            lemma_normalize_prefix(self@, i + 1);
                            assert(grown.last().len() == m + n);
                            assert(normalize_spec(self@)[grown.len() - 1].len() > u32::MAX);
                        }
                        return Err(Error::LengthOverflow);
                    }
                    let merged = op.with_length(m + n);
                    out.set(k - 1, merged);
                } else {
                    out.push(op);
                }
            }
            i = i + 1;
        }
        proof {
            assert(self@.take(i as int) =~= self@);
            lemma_words_fit(out@);
        }
        Ok(IOPattern(out))
    }

    /// What is left of the pattern once `op` has been performed.
    ///
    /// `ProtocolViolation` where the pattern does not allow `op`;
    /// `LengthOverflow` where it does, but what is left has a length beyond a
    /// `u32`, which no canonical pattern gives.
    pub fn consume(&self, op: SpongeOp) -> (r: Result<IOPattern, Error>)
        ensures
            match consume_spec(self@, op@) {
                None => r matches Err(e) && e == Error::ProtocolViolation,
                Some(left) => match r {
                    Ok(out) => fits(left) && out@ == left,
                    Err(e) => !fits(left) && e == Error::LengthOverflow,
                },
            },
    {
        if self.0.len() == 0 {
            return Err(Error::ProtocolViolation);
        }
        let head = self.0[0];
        let have = head.length();
        let want = op.length();
        if !head.same_kind(&op) || have < want {
            return Err(Error::ProtocolViolation);
        }
        let mut ops = self.0.clone();
        if want == 0 {
            proof {
                lemma_words_fit(ops@);
            }
            return Ok(IOPattern(ops));
        }
        ops.set(0, op.with_length(have - want));
        let reduced = IOPattern(ops);
        assert(reduced@ =~= self@.update(0, op@.with_len((have - want) as nat)));
        reduced.normalize()
    }

    /// Takes `op` from a canonical pattern in place, and says whether the
    /// pattern allowed it. Nothing but the first entry is looked at.
    pub(crate) fn take(&mut self, op: SpongeOp) -> (allowed: bool)
        requires
            is_canonical(old(self)@),
        ensures
            is_canonical(final(self)@),
            match consume_spec(old(self)@, op@) {
                None => !allowed && *final(self) == *old(self),
                Some(left) => allowed && final(self)@ == left,
            },
    {
        if self.0.len() == 0 {
            return false;
        }
        let head = self.0[0];
        let have = head.length();
        let want = op.length();
        if !head.same_kind(&op) || have < want {
            return false;
        }
        proof {
            lemma_consume_canonical(self@, op@);
        }
        if want == have {
            self.0.remove(0);
            assert(self@ =~= old(self)@.drop_first());
        } else if want > 0 {
            self.0.set(0, head.with_length(have - want));
            assert(self@ =~= old(self)@.update(0, head@.with_len((have - want) as nat)));
        }
        true
    }
}

} // verus!

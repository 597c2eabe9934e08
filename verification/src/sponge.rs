//! The sponge that is guarded, and the session that guards it.

use crate::error::Error;
use crate::laws::{lemma_normalize_canonical, lemma_words_fit};
use crate::pattern::{consume_spec, fits, is_canonical, normalize_spec, IOPattern, SpongeOp, Word};
use vstd::prelude::*;

verus! {

/// A sponge as the session drives it. The session never looks into the
/// sponge: it decides which calls reach it, and in which order.
pub trait SpongeAPI {
    /// What is threaded through every call.
    type Acc;

    /// What is absorbed and squeezed.
    type Value;

    /// Starts the sponge on pattern `p`. A missing `domain_separator` stands
    /// for 0.
    fn start(&mut self, p: IOPattern, domain_separator: Option<u32>, acc: &mut Self::Acc);

    /// Absorbs `elements`, of which there are `length`.
    fn absorb(&mut self, length: u32, elements: &[Self::Value], acc: &mut Self::Acc)
        requires
            length == elements@.len(),
    ;

    /// Fills `elements`, of which there are `length`.
    fn squeeze(&mut self, length: u32, elements: &mut [Self::Value], acc: &mut Self::Acc)
        requires
            length == old(elements)@.len(),
    ;

    /// Ends the sponge's work.
    fn finish(&mut self) -> Result<(), Error>;
}

/// A sponge together with the operations that its user still owes. A call
/// consumes the session and gives the session that goes on; a call that is
/// refused gives back the session it was made on.
#[derive(Debug)]
pub struct ExtraSponge<A: SpongeAPI> {
    api: A,
    remaining: IOPattern,
}

/// A call that the session did not go along with: why, and the session, for
/// the caller to go on with or to release.
#[derive(Debug)]
pub struct Refused<A: SpongeAPI> {
    pub error: Error,
    pub session: ExtraSponge<A>,
}

impl<A: SpongeAPI> View for ExtraSponge<A> {
    type V = Seq<Word>;

    /// The operations still owed, first to last.
    closed spec fn view(&self) -> Seq<Word> {
        self.remaining@
    }
}

impl<A: SpongeAPI> ExtraSponge<A> {
    #[verifier::type_invariant]
    spec fn owes_canonical(self) -> bool {
        is_canonical(self.remaining@)
    }

    /// A session on `api` that has declared nothing, and so owes nothing.
    pub fn new(api: A) -> (session: ExtraSponge<A>)
        ensures
            session@ == Seq::<Word>::empty(),
            is_canonical(session@),
    {
        ExtraSponge { api, remaining: IOPattern(Vec::new()) }
    }

    /// Declares `pattern`: the sponge is started on its canonical form, which
    /// is what the session owes from then on. Where the canonical form has a
    /// length beyond a `u32` the sponge is not started.
    pub fn start(
        pattern: IOPattern,
        domain_separator: Option<u32>,
        api: A,
        acc: &mut A::Acc,
    ) -> (r: Result<ExtraSponge<A>, Error>)
        ensures
            match r {
                Ok(session) => {
                    &&& fits(normalize_spec(pattern@))
                    &&& session@ == normalize_spec(pattern@)
                    &&& is_canonical(session@)
                },
                Err(e) => {
                    &&& !fits(normalize_spec(pattern@))
                    &&& e == Error::LengthOverflow
                    &&& *final(acc) == *old(acc)
                },
            },
    {
        match pattern.normalize() {
            Err(e) => Err(e),
            Ok(canonical) => {
                proof {
                    lemma_normalize_canonical(pattern@);
                }
                let declared = IOPattern(canonical.0.clone());
                let mut api = api;
                api.start(declared, domain_separator, acc);
                Ok(ExtraSponge { api, remaining: canonical })
            },
        }
    }

    /// The operations still owed.
    pub fn remaining(&self) -> (p: &IOPattern)
        ensures
            p@ == self@,
            is_canonical(self@),
    {
        proof {
            use_type_invariant(self);
        }
        &self.remaining
    }

    /// Absorbs `values`, if an absorption of that many elements is what the
    /// session owes next. Otherwise the sponge is not touched.
    pub fn absorb(self, values: &[A::Value], acc: &mut A::Acc) -> (r: Result<
        ExtraSponge<A>,
        Refused<A>,
    >)
        ensures
            match consume_spec(self@, Word::Absorb(values@.len())) {
                None => {
                    &&& r matches Err(refused)
                    &&& refused.error == Error::ProtocolViolation
                    &&& refused.session == self
                    &&& *final(acc) == *old(acc)
                },
                Some(left) => r matches Ok(session) && session@ == left && is_canonical(
                    session@,
                ),
            },
    {
        proof {
            use_type_invariant(&self);
            lemma_words_fit(self.remaining.0@);
        }
        let count = values.len();
        if count > u32::MAX as usize {
            return Err(Refused { error: Error::ProtocolViolation, session: self });
        }
        let length = count as u32;
        let ExtraSponge { mut api, mut remaining } = self;
        if !remaining.take(SpongeOp::Absorb(length)) {
            let session = ExtraSponge { api, remaining };
            return Err(Refused { error: Error::ProtocolViolation, session });
        }
        api.absorb(length, values, acc);
        Ok(ExtraSponge { api, remaining })
    }

    /// Fills `buffer`, if a squeeze of that many elements is what the session
    /// owes next. Otherwise neither the sponge nor `buffer` is touched.
    pub fn squeeze(self, buffer: &mut [A::Value], acc: &mut A::Acc) -> (r: Result<
        ExtraSponge<A>,
        Refused<A>,
    >)
        ensures
            match consume_spec(self@, Word::Squeeze(old(buffer)@.len())) {
                None => {
                    &&& r matches Err(refused)
                    &&& refused.error == Error::ProtocolViolation
                    &&& refused.session == self
                    &&& *final(acc) == *old(acc)
                    &&& final(buffer)@ == old(buffer)@
                },
                Some(left) => r matches Ok(session) && session@ == left && is_canonical(
                    session@,
                ),
            },
    {
        proof {
            use_type_invariant(&self);
            lemma_words_fit(self.remaining.0@);
        }
        let count = buffer.len();
        if count > u32::MAX as usize {
            return Err(Refused { error: Error::ProtocolViolation, session: self });
        }
        let length = count as u32;
        let ExtraSponge { mut api, mut remaining } = self;
        if !remaining.take(SpongeOp::Squeeze(length)) {
            let session = ExtraSponge { api, remaining };
            return Err(Refused { error: Error::ProtocolViolation, session });
        }
        api.squeeze(length, buffer, acc);
        Ok(ExtraSponge { api, remaining })
    }

    /// Ends the session. While operations are owed this is refused with
    /// `ParameterUsageMismatch`, and the sponge is not asked to finish. Once
    /// none is owed the sponge is asked; where it declines, its error comes
    /// back with the session.
    pub fn finish(self) -> (r: Result<(), Refused<A>>)
        ensures
            match r {
                Ok(_) => self@.len() == 0,
                Err(refused) => {
                    &&& refused.session@ == self@
                    &&& self@.len() > 0 ==> refused.error == Error::ParameterUsageMismatch
                        && refused.session == self
                },
            },
    {
        proof {
            use_type_invariant(&self);
        }
        if self.remaining.0.len() > 0 {
            return Err(Refused { error: Error::ParameterUsageMismatch, session: self });
        }
        let ExtraSponge { mut api, remaining } = self;
        let answer = api.finish();
        ExtraSponge { api, remaining }.settle(answer)
    }

    /// What the end of a session comes to once its sponge has answered: the
    /// session is over if the sponge agreed, and comes back with the sponge's
    /// error if it did not.
    fn settle(self, answer: Result<(), Error>) -> (r: Result<(), Refused<A>>)
        ensures
            match answer {
                Ok(_) => r is Ok,
                Err(error) => r matches Err(refused) && refused.error == error && refused.session
                    == self,
            },
    {
        match answer {
            Ok(_) => Ok(()),
            Err(error) => Err(Refused { error, session: self }),
        }
    }

    /// Releases the session, as a scope does that lets go of it. While
    /// operations are owed this is an `UnterminatedSession`, and the sponge is
    /// not asked to finish. Once none is owed the sponge is asked, and its
    /// answer is the result.
    pub fn dispose(self) -> (r: Result<(), Error>)
        ensures
            self@.len() > 0 ==> r == Err::<(), Error>(Error::UnterminatedSession),
    {
        let ExtraSponge { mut api, remaining } = self;
        if remaining.0.len() > 0 {
            return Err(Error::UnterminatedSession);
        }
        api.finish()
    }
}

} // verus!

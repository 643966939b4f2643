//! The rounds of one proof on one node: evaluations, a binding, a sealed first
//! round, and one answer.
//!
//! What the node holds in each round is opaque here; the proof arithmetic is
//! done by the functions that are handed in. A first-round secret is given to
//! the answer once, and is gone afterwards whatever the answer gave.

use vstd::prelude::*;
use crate::text::about;

verus! {

/// What a node holds of one proof: the node's witness before it is bound, the
/// bound witness, and the secret of a first round that was not answered yet.
#[derive(Debug)]
pub struct Rounds<N, B, S> {
    pub node: Option<N>,
    pub bound: Option<B>,
    pub secret: Option<S>,
}

/// Whether an action on the unbound witness, as it was asked for, may have an outcome.
pub open spec fn binds<N, B, R, Q, F: FnOnce(N, &Q) -> Result<(B, R), String>>(
    act: F,
    node: N,
    asked: Q,
    outcome: Result<(B, R), String>,
) -> bool {
    call_ensures(act, (node, &asked), outcome)
}

/// What binding a witness did.
pub open spec fn bind_done<N, B, S, R, Q, F: FnOnce(N, &Q) -> Result<(B, R), String>>(
    before: Rounds<N, B, S>,
    name: Seq<char>,
    asked: Q,
    act: F,
    after: Rounds<N, B, S>,
    outcome: Result<R, String>,
) -> bool {
    &&& after.secret == before.secret
    &&& after.node is None
    &&& match before.node {
        None => {
            &&& outcome matches Err(e) && e@ == name + " node was already bound"@
            &&& after.bound == before.bound
        },
        Some(node) => match outcome {
            Ok(reply) => after.bound is Some && binds(act, node, asked, Ok::<(B, R), String>((after.bound->0, reply))),
            Err(e) => binds(act, node, asked, Err::<(B, R), String>(e)) && after.bound == before.bound,
        },
    }
}

/// What making a first round did.
pub open spec fn round1_done<N, B, S, R, Q, F: FnOnce(&B, &Q) -> Result<(S, R), String>>(
    before: Rounds<N, B, S>,
    name: Seq<char>,
    asked: Q,
    act: F,
    after: Rounds<N, B, S>,
    outcome: Result<R, String>,
) -> bool {
    &&& after.node == before.node
    &&& after.bound == before.bound
    &&& if before.secret is Some {
        &&& outcome matches Err(e) && e@ == name + " round one was already issued for this job"@
        &&& after.secret == before.secret
    } else {
        match before.bound {
            None => {
                &&& outcome matches Err(e) && e@ == name + " node is not bound"@
                &&& after.secret is None
            },
            Some(bound) => match outcome {
                Ok(reply) => after.secret is Some && call_ensures(
                    act,
                    (&bound, &asked),
                    Ok::<(S, R), String>((after.secret->0, reply)),
                ),
                Err(e) => call_ensures(act, (&bound, &asked), Err::<(S, R), String>(e)) && after.secret is None,
            },
        }
    }
}

/// What answering a challenge did.
pub open spec fn round2_done<N, B, S, R, Q, F: FnOnce(&B, S, &Q) -> Result<R, String>>(
    before: Rounds<N, B, S>,
    name: Seq<char>,
    asked: Q,
    act: F,
    after: Rounds<N, B, S>,
    outcome: Result<R, String>,
) -> bool {
    &&& after.node == before.node
    &&& after.bound == before.bound
    &&& after.secret is None
    &&& match before.secret {
        None => outcome matches Err(e) && e@ == name + " first-round secret is absent or already consumed"@,
        Some(secret) => match before.bound {
            None => outcome matches Err(e) && e@ == name + " node is not bound"@,
            Some(bound) => call_ensures(act, (&bound, secret, &asked), outcome),
        },
    }
}

impl<N, B, S> Rounds<N, B, S> {
    /// A proof that was just loaded.
    pub fn new(node: N) -> (rounds: Rounds<N, B, S>)
        ensures
            rounds.node == Some(node),
            rounds.bound is None,
            rounds.secret is None,
    {
        Rounds { node: Some(node), bound: None, secret: None }
    }

    /// A proof that is not part of the job.
    pub fn absent() -> (rounds: Rounds<N, B, S>)
        ensures
            rounds.node is None,
            rounds.bound is None,
            rounds.secret is None,
    {
        Rounds { node: None, bound: None, secret: None }
    }

    /// The witness whose public evaluations may still be given out.
    pub fn open_node(&self, name: &str) -> (r: Result<&N, String>)
        ensures
            match r {
                Ok(node) => self.node == Some(*node),
                Err(e) => self.node is None && e@ == name@ + " evaluation phase is closed"@,
            },
    {
        match &self.node {
            Some(node) => Ok(node),
            None => Err(about(name, " evaluation phase is closed")),
        }
    }

    /// Binds the witness to the public statement that `act` makes of what is asked. The
    /// witness is used up whether or not the binding succeeds.
    pub fn bind<R, Q, F: FnOnce(N, &Q) -> Result<(B, R), String>>(
        &mut self,
        name: &str,
        asked: &Q,
        act: F,
    ) -> (r: Result<R, String>)
        requires
            old(self).node matches Some(node) ==> call_requires(act, (node, asked)),
        ensures
            bind_done(*old(self), name@, *asked, act, *final(self), r),
    {
        let taken = self.node.take();
        match taken {
            None => Err(about(name, " node was already bound")),
            Some(node) => {
                match act(node, asked) {
                    Err(e) => Err(e),
                    Ok((bound, reply)) => {
                        self.bound = Some(bound);
                        Ok(reply)
                    },
                }
            },
        }
    }

    /// Makes the first round and keeps its secret until it is answered.
    pub fn round1<R, Q, F: FnOnce(&B, &Q) -> Result<(S, R), String>>(
        &mut self,
        name: &str,
        asked: &Q,
        act: F,
    ) -> (r: Result<R, String>)
        requires
            old(self).bound matches Some(bound) ==> call_requires(act, (&bound, asked)),
        ensures
            round1_done(*old(self), name@, *asked, act, *final(self), r),
    {
        if self.secret.is_some() {
            return Err(about(name, " round one was already issued for this job"));
        }
        match &self.bound {
            None => Err(about(name, " node is not bound")),
            Some(bound) => match act(bound, asked) {
                Err(e) => Err(e),
                Ok((secret, reply)) => {
                    self.secret = Some(secret);
                    Ok(reply)
                },
            },
        }
    }

    /// Answers the challenge. The secret is used up whether or not the answer succeeds.
    pub fn round2<R, Q, F: FnOnce(&B, S, &Q) -> Result<R, String>>(
        &mut self,
        name: &str,
        asked: &Q,
        act: F,
    ) -> (r: Result<R, String>)
        requires
            old(self).bound matches Some(bound) ==> old(self).secret matches Some(secret) ==> call_requires(
                act,
                (&bound, secret, asked),
            ),
        ensures
            round2_done(*old(self), name@, *asked, act, *final(self), r),
    {
        let taken = self.secret.take();
        match taken {
            None => Err(about(name, " first-round secret is absent or already consumed")),
            Some(secret) => match &self.bound {
                None => Err(about(name, " node is not bound")),
                Some(bound) => act(bound, secret, asked),
            },
        }
    }
}

} // verus!

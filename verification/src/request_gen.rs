//! Request generations: a result that finishes after a newer preview request
//! was issued (fast switching between files) is recognised as stale and
//! discarded.

use vstd::prelude::*;

verus! {

/// Issues one token per preview request; the most recently issued token is
/// the only current one.
#[derive(Debug)]
pub struct RequestGenerator {
    current: u64,
}

/// Remembers the generation that was current when a request was dispatched.
#[derive(Debug, Clone, Copy)]
pub struct RequestToken {
    generation_at_dispatch: u64,
}

impl RequestGenerator {
    /// Number of requests issued so far.
    pub closed spec fn generation(&self) -> nat {
        self.current as nat
    }

    pub fn new() -> (generator: Self)
        ensures
            generator.generation() == 0,
    {
        RequestGenerator { current: 0 }
    }

    /// The number of requests issued so far; a generator that has issued
    /// `u64::MAX` requests cannot advance any more.
    pub fn issued(&self) -> (n: u64)
        ensures
            n == self.generation(),
    {
        self.current
    }

    /// Starts a new request: bumps the generation and hands out a token that
    /// carries it. Every token handed out before this call becomes stale.
    pub fn advance(&mut self) -> (token: RequestToken)
        requires
            old(self).generation() < u64::MAX,
        ensures
            final(self).generation() == old(self).generation() + 1,
            token.generation() == final(self).generation(),
    {
        self.current = self.current + 1;
        RequestToken { generation_at_dispatch: self.current }
    }
}

impl Default for RequestGenerator {
    fn default() -> (generator: Self)
        ensures
            generator.generation() == 0,
    {
        RequestGenerator::new()
    }
}

impl RequestToken {
    /// The generation this token was dispatched under.
    pub closed spec fn generation(&self) -> nat {
        self.generation_at_dispatch as nat
    }

    /// True exactly when no request was issued by `generator` after this one.
    pub fn is_still_current(&self, generator: &RequestGenerator) -> (current: bool)
        ensures
            current == (self.generation() == generator.generation()),
    {
        self.generation_at_dispatch == generator.current
    }
}

/// Once the generator advances past a token's generation, that token is
/// stale, and it stays stale however often the generator advances further.
pub proof fn lemma_superseded_token_stays_stale(
    issued_under: RequestGenerator,
    later: RequestGenerator,
    token: RequestToken,
)
    requires
        token.generation() <= issued_under.generation(),
        issued_under.generation() < later.generation(),
    ensures
        token.generation() != later.generation(),
{
}

} // verus!

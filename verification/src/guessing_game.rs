use crate::text::{parse_u32, parse_u32_spec, trim, trimmed};
use vstd::prelude::*;

verus! {

/// How many guesses a game allows.
pub const MAX_ATTEMPTS: u32 = 20;

/// The smallest secret a game can pick.
pub const SECRET_MIN: u32 = 1;

/// The largest secret a game can pick.
pub const SECRET_MAX: u32 = 100;

/// The thread-local random number generator of `rand`.
#[verifier::external_type_specification]
#[verifier::external_body]
pub struct ExThreadRng(rand::rngs::ThreadRng);

/// Calls `rand::thread_rng`, which hands out this thread's generator.
/// Nothing is claimed of it.
#[verifier::external_body]
fn thread_rng() -> rand::rngs::ThreadRng {
    rand::thread_rng()
}

/// Calls `rand::Rng::gen_range` with the inclusive range `low..=high`, which
/// panics on an empty range. Claimed: the result lies in the range. Which
/// value comes back is left to chance.
#[verifier::external_body]
fn gen_range_inclusive(rng: &mut rand::rngs::ThreadRng, low: u32, high: u32) -> (r: u32)
    requires
        low <= high,
    ensures
        low <= r <= high,
{
    rand::Rng::gen_range(rng, low..=high)
}

/// How a guess compares with the secret.
pub enum GuessFeedback {
    /// The guess is the secret.
    Right,
    /// The guess is larger than the secret.
    TooBig,
    /// The guess is smaller than the secret.
    TooSmall,
    /// The input is not a number.
    NotANumber,
}

/// The feedback for `guess` against `secret`.
pub open spec fn feedback(secret: u32, guess: Option<u32>) -> GuessFeedback {
    match guess {
        Some(n) => if n == secret {
            GuessFeedback::Right
        } else if n > secret {
            GuessFeedback::TooBig
        } else {
            GuessFeedback::TooSmall
        },
        None => GuessFeedback::NotANumber,
    }
}

/// A number is judged by comparison with the secret alone, and only a
/// missing number is not a number.
pub proof fn law_feedback_compares(secret: u32, guess: Option<u32>)
    ensures
        guess is None <==> feedback(secret, guess) is NotANumber,
        guess == Some(secret) <==> feedback(secret, guess) is Right,
        guess matches Some(n) && n > secret ==> feedback(secret, guess) is TooBig,
        guess matches Some(n) && n < secret ==> feedback(secret, guess) is TooSmall,
{
}

/// A number-guessing game: the player has `MAX_ATTEMPTS` tries to find the
/// secret.
pub struct GuessGame {
    secret: u32,
    count: u32,
    won: bool,
}

impl GuessGame {
    /// The number to be found.
    pub closed spec fn secret(self) -> u32 {
        self.secret
    }

    /// The number of the attempt about to be made: one more than the
    /// attempts made so far.
    pub closed spec fn attempt_number(self) -> nat {
        self.count as nat
    }

    /// Whether the secret has been found.
    pub closed spec fn has_won(self) -> bool {
        self.won
    }

    /// Whether the game takes no more guesses.
    pub open spec fn over(self) -> bool {
        self.has_won() || self.attempt_number() > MAX_ATTEMPTS
    }

    #[verifier::type_invariant]
    closed spec fn counter_in_range(self) -> bool {
        self.attempts_in_range()
    }

    /// The attempt counter starts at one and goes at most one past the
    /// limit, so at most `MAX_ATTEMPTS` guesses are ever judged.
    pub open spec fn attempts_in_range(self) -> bool {
        1 <= self.attempt_number() <= MAX_ATTEMPTS + 1
    }

    /// A game with the given secret, before the first attempt.
    pub fn new(secret: u32) -> (g: Self)
        ensures
            g.attempts_in_range(),
            g.secret() == secret,
            g.attempt_number() == 1,
            !g.has_won(),
    {
        GuessGame { secret, count: 1, won: false }
    }

    /// A game with a secret picked at random between `SECRET_MIN` and
    /// `SECRET_MAX`.
    pub fn start() -> (g: Self)
        ensures
            g.attempts_in_range(),
            SECRET_MIN <= g.secret() <= SECRET_MAX,
            g.attempt_number() == 1,
            !g.has_won(),
    {
        let mut rng = thread_rng();
        let secret = gen_range_inclusive(&mut rng, SECRET_MIN, SECRET_MAX);
        Self::new(secret)
    }

    /// The number of the attempt about to be made.
    pub fn attempt(&self) -> (n: u32)
        ensures
            n == self.attempt_number(),
    {
        self.count
    }

    /// Whether the game takes no more guesses: the secret was found or the
    /// attempts are used up.
    pub fn is_over(&self) -> (b: bool)
        ensures
            b == self.over(),
    {
        self.won || self.count > MAX_ATTEMPTS
    }

    /// Whether the attempt counter went past the limit. This also holds
    /// when the secret was found on the last allowed attempt.
    pub fn failed(&self) -> (b: bool)
        ensures
            b == (self.attempt_number() > MAX_ATTEMPTS),
    {
        self.count > MAX_ATTEMPTS
    }

    /// Counts one attempt and judges `guess`, already parsed (`None` when
    /// the input was not a number).
    pub fn judge(&mut self, guess: Option<u32>) -> (f: GuessFeedback)
        requires
            !old(self).over(),
        ensures
            final(self).attempts_in_range(),
            f == feedback(old(self).secret(), guess),
            guess is None <==> f is NotANumber,
            guess == Some(old(self).secret()) <==> f is Right,
            guess matches Some(n) && n > old(self).secret() ==> f is TooBig,
            guess matches Some(n) && n < old(self).secret() ==> f is TooSmall,
            final(self).secret() == old(self).secret(),
            final(self).attempt_number() == old(self).attempt_number() + 1,
            final(self).has_won() == (f is Right),
    {
        proof {
            use_type_invariant(&*self);
        }
        self.count = self.count + 1;
        match guess {
            Some(n) => {
                if n == self.secret {
                    self.won = true;
                    GuessFeedback::Right
                } else if n > self.secret {
                    GuessFeedback::TooBig
                } else {
                    GuessFeedback::TooSmall
                }
            },
            None => GuessFeedback::NotANumber,
        }
    }

    /// Counts one attempt and judges the line the player typed, with
    /// surrounding white space ignored.
    pub fn guess(&mut self, line: &str) -> (f: GuessFeedback)
        requires
            !old(self).over(),
        ensures
            final(self).attempts_in_range(),
            f == feedback(old(self).secret(), parse_u32_spec(trimmed(line@))),
            parse_u32_spec(trimmed(line@)) is None <==> f is NotANumber,
            parse_u32_spec(trimmed(line@)) == Some(old(self).secret()) <==> f is Right,
            parse_u32_spec(trimmed(line@)) matches Some(n) && n > old(self).secret() ==> f is TooBig,
            parse_u32_spec(trimmed(line@)) matches Some(n) && n < old(self).secret() ==> f is TooSmall,
            final(self).secret() == old(self).secret(),
            final(self).attempt_number() == old(self).attempt_number() + 1,
            final(self).has_won() == (f is Right),
    {
        let t = trim(line);
        let parsed = parse_u32(t);
        self.judge(parsed)
    }
}

/// A game ends after at most `MAX_ATTEMPTS` guesses: once that many have
/// been judged without finding the secret, it takes no more.
pub proof fn law_game_ends(g: GuessGame)
    requires
        g.attempts_in_range(),
        g.attempt_number() == MAX_ATTEMPTS + 1,
    ensures
        g.over(),
{
}

} // verus!
